//! Tokens of the parser, kept in error reports: an owned one, and one that
//! may borrow its text.
use vstd::prelude::*;

use std::borrow::Cow;

verus! {

/// A token of the source: where it starts, and its text.
#[derive(Debug, Clone)]
pub struct OwnedToken(pub usize, pub String);

impl OwnedToken {
    /// The token as it is printed: its text.
    pub fn to_string(&self) -> (r: String)
        ensures
            r@ == self.1@,
    {
        self.1.clone()
    }

    /// The same token, owning its text.
    pub fn from_cow(token: CowToken) -> (r: OwnedToken)
        ensures
            r.0 == token.0,
            r.1@ == token.1@,
    {
        let CowToken(start, text) = token;
        let owned = match text {
            Cow::Borrowed(s) => s.to_string(),
            Cow::Owned(s) => s,
        };
        OwnedToken(start, owned)
    }
}

/// A token whose text may be borrowed from the source.
#[derive(Debug)]
pub struct CowToken<'a>(pub usize, pub Cow<'a, str>);

impl<'a> CowToken<'a> {
    /// The token as it is printed: its text.
    pub fn to_string(&self) -> (r: String)
        ensures
            r@ == self.1@,
    {
        match &self.1 {
            Cow::Borrowed(s) => (*s).to_string(),
            Cow::Owned(s) => s.clone(),
        }
    }

    /// The same token, owning its text.
    pub fn from_owned(token: OwnedToken) -> (r: CowToken<'a>)
        ensures
            r.0 == token.0,
            r.1@ == token.1@,
    {
        let OwnedToken(start, text) = token;
        CowToken(start, Cow::Owned(text))
    }
}

} // verus!
