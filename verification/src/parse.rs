pub mod ast;
pub mod print;
pub mod print_expr;
pub mod print_stmt;

use vstd::prelude::*;

use crate::parse::ast::CompUnit;

verus! {

/// The syntax tree of one compilation unit.
#[derive(Debug)]
pub struct Ast {
    pub root: CompUnit,
}

impl Ast {
    pub fn new(root: CompUnit) -> (ast: Self)
        ensures
            ast.root == root,
    {
        Self { root }
    }
}

} // verus!
