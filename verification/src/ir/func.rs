//! Binding each `else` statement to its `if`, and closing and trimming the
//! code of function bodies.
use vstd::prelude::*;

use koopa::ir::{Function, Program, Value};

use crate::ir::meta::Instruction;
use crate::ir::program::{ends_in, ir_funcs, ir_values, value_ends};
use crate::parse::print_stmt::stmt_text;
use crate::parse::ast::{Block, BlockItem, Decl, ElseBranch, Expr, IfBranch, Stmt, WhileBranch};

verus! {

/// The statement skeleton that the binding of `else` statements works on: leaves
/// (return, assignment, expression, break, continue) are kept whole, blocks hold
/// sequences.
pub enum StmtV {
    Simple(Stmt),
    If(Expr, Box<StmtV>),
    Else(Box<StmtV>),
    Block(Seq<ItemV>),
    IfElse(Expr, Box<StmtV>, Box<StmtV>),
    While(Expr, Box<StmtV>),
}

pub enum ItemV {
    Stmt(StmtV),
    Decl(Decl),
}

pub open spec fn stmt_view(s: Stmt) -> StmtV
    decreases s,
{
    match s {
        Stmt::If(b) => StmtV::If(b.cond, Box::new(stmt_view(b.stmt))),
        Stmt::Else(e) => StmtV::Else(Box::new(stmt_view(e.stmt))),
        Stmt::Block(b) => StmtV::Block(items_view(b.items@)),
        Stmt::IfElse(i, e) => StmtV::IfElse(i.cond, Box::new(stmt_view(i.stmt)), Box::new(stmt_view(e.stmt))),
        Stmt::While(w) => StmtV::While(w.cond, Box::new(stmt_view(w.stmt))),
        _ => StmtV::Simple(s),
    }
}

pub open spec fn items_view(items: Seq<BlockItem>) -> Seq<ItemV>
    decreases items,
{
    if items.len() == 0 {
        Seq::empty()
    } else {
        items_view(items.drop_last()).push(
            match items.last() {
                BlockItem::Stmt(s) => ItemV::Stmt(stmt_view(s)),
                BlockItem::Decl(d) => ItemV::Decl(d),
            },
        )
    }
}

pub open spec fn item_view(item: BlockItem) -> ItemV {
    match item {
        BlockItem::Stmt(s) => ItemV::Stmt(stmt_view(s)),
        BlockItem::Decl(d) => ItemV::Decl(d),
    }
}


/// The number of `else` statements that the binding pass still has to attach in a
/// statement: those in if-bodies, while-bodies, else-bodies, blocks, and the
/// `else` statements themselves; not those in the then-part of an if-else.
pub open spec fn pending(s: StmtV) -> nat
    decreases s,
{
    match s {
        StmtV::Simple(_) => 0,
        StmtV::If(_, inner) => pending(*inner),
        StmtV::Else(body) => 1 + pending(*body),
        StmtV::Block(items) => pending_items(items),
        StmtV::IfElse(_, _, el) => pending(*el),
        StmtV::While(_, inner) => pending(*inner),
    }
}

pub open spec fn pending_items(items: Seq<ItemV>) -> nat
    decreases items,
{
    if items.len() == 0 {
        0
    } else {
        pending_items(items.drop_last()) + match items.last() {
            ItemV::Stmt(s) => pending(s),
            ItemV::Decl(_) => 0,
        }
    }
}

pub open spec fn size(s: StmtV) -> nat
    decreases s,
{
    match s {
        StmtV::Simple(_) => 1,
        StmtV::If(_, inner) => 1 + size(*inner),
        StmtV::Else(body) => 1 + size(*body),
        StmtV::Block(items) => 1 + size_items(items),
        StmtV::IfElse(_, t, el) => 1 + size(*t) + size(*el),
        StmtV::While(_, inner) => 1 + size(*inner),
    }
}

pub open spec fn size_items(items: Seq<ItemV>) -> nat
    decreases items,
{
    if items.len() == 0 {
        0
    } else {
        size_items(items.drop_last()) + 1 + match items.last() {
            ItemV::Stmt(s) => size(s),
            ItemV::Decl(_) => 0,
        }
    }
}

/// Whether the search for the `if` that an `else` belongs to would meet another
/// `else` statement (the search goes through if-bodies, while-bodies and the
/// else-part of if-else statements).
pub open spec fn else_on_path(s: StmtV) -> bool
    decreases s,
{
    match s {
        StmtV::Else(_) => true,
        StmtV::If(_, inner) => else_on_path(*inner),
        StmtV::While(_, inner) => else_on_path(*inner),
        StmtV::IfElse(_, _, el) => else_on_path(*el),
        _ => false,
    }
}

/// Attaches the else-part `e` to the innermost `if` of `s` that has no else-part
/// yet, reached through if-bodies, while-bodies and the else-part of if-else
/// statements. `None` when there is no such `if`.
pub open spec fn attach(e: StmtV, s: StmtV) -> Option<StmtV>
    decreases s,
{
    match s {
        StmtV::If(c, inner) => match attach(e, *inner) {
            Some(n) => Some(StmtV::If(c, Box::new(n))),
            None => Some(StmtV::IfElse(c, inner, Box::new(e))),
        },
        StmtV::While(c, inner) => match attach(e, *inner) {
            Some(n) => Some(StmtV::While(c, Box::new(n))),
            None => None,
        },
        StmtV::IfElse(c, t, el) => match attach(e, *el) {
            Some(n) => Some(StmtV::IfElse(c, t, Box::new(n))),
            None => None,
        },
        _ => None,
    }
}

/// Why an `else` statement could not be attached.
pub enum BindFailure {
    /// The `else` is the first item of its block.
    ElseFirst,
    /// The item before the `else` is a declaration.
    ElseAfterDecl,
    /// The statement before the `else` has no `if` that could take it.
    ElseWithoutIf(StmtV),
}

/// All items already bound hold no pending `else`.
pub open spec fn settled(items: Seq<ItemV>) -> bool {
    forall|i: int|
        0 <= i < items.len() ==> match #[trigger] items[i] {
            ItemV::Stmt(s) => pending(s) == 0,
            ItemV::Decl(_) => true,
        }
}

/// Binds the `else` statements of `s`, given the items already bound before it in
/// the same block (an `else` takes the last of them); gives the new statement and
/// what remains of those items.
pub open spec fn bind_stmt(s: StmtV, acc: Seq<ItemV>) -> (Result<StmtV, BindFailure>, Seq<ItemV>)
    decreases pending(s), size(s)
    when settled(acc)
{
    match s {
        StmtV::Simple(_) => (Ok(s), acc),
        StmtV::Block(items) => match bind_items(items) {
            Ok(n) => (Ok(StmtV::Block(n)), acc),
            Err(f) => (Err(f), acc),
        },
        StmtV::If(c, inner) => {
            let (r, acc2) = bind_stmt(*inner, acc);
            match r {
                Ok(n) => (Ok(StmtV::If(c, Box::new(n))), acc2),
                Err(f) => (Err(f), acc2),
            }
        },
        StmtV::While(c, inner) => {
            let (r, acc2) = bind_stmt(*inner, acc);
            match r {
                Ok(n) => (Ok(StmtV::While(c, Box::new(n))), acc2),
                Err(f) => (Err(f), acc2),
            }
        },
        StmtV::IfElse(c, t, el) => {
            let (r, acc2) = bind_stmt(*el, acc);
            match r {
                Ok(n) => (Ok(StmtV::IfElse(c, t, Box::new(n))), acc2),
                Err(f) => (Err(f), acc2),
            }
        },
        StmtV::Else(body) => if acc.len() == 0 {
            (Err(BindFailure::ElseFirst), acc)
        } else {
            let rest = acc.drop_last();
            match acc.last() {
                ItemV::Decl(_) => (Err(BindFailure::ElseAfterDecl), rest),
                ItemV::Stmt(ls) => match attach(*body, ls) {
                    None => (Err(BindFailure::ElseWithoutIf(ls)), rest),
                    Some(n) => {
                        proof {
                            assert(pending(ls) == 0);
                            lemma_attach_pending(*body, ls);
                        }
                        bind_stmt(n, rest)
                    },
                },
            }
        },
    }
}

/// Binds the `else` statements of a block's items, in order.
pub open spec fn bind_items(items: Seq<ItemV>) -> Result<Seq<ItemV>, BindFailure>
    decreases pending_items(items), size_items(items)
{
    if items.len() == 0 {
        Ok(Seq::empty())
    } else {
        match bind_items(items.drop_last()) {
            Err(f) => Err(f),
            Ok(acc) => match items.last() {
                ItemV::Decl(d) => Ok(acc.push(ItemV::Decl(d))),
                ItemV::Stmt(s) => {
                    let (r, acc2) = bind_stmt(s, acc);
                    match r {
                        Ok(n) => Ok(acc2.push(ItemV::Stmt(n))),
                        Err(f) => Err(f),
                    }
                },
            },
        }
    }
}

/// Attaching an else-part adds at most its pending `else` statements.
pub proof fn lemma_attach_pending(e: StmtV, s: StmtV)
    ensures
        attach(e, s) matches Some(n) ==> pending(n) <= pending(s) + pending(e),
    decreases s,
{
    match s {
        StmtV::If(_, inner) => lemma_attach_pending(e, *inner),
        StmtV::While(_, inner) => lemma_attach_pending(e, *inner),
        StmtV::IfElse(_, _, el) => lemma_attach_pending(e, *el),
        _ => {},
    }
}


/// Attaches `else_branch` to the innermost `if` of `stmt` that can take it (see
/// [`attach`]). When there is none, gives back both arguments unchanged.
pub fn bind_if_else(else_branch: Box<ElseBranch>, stmt: Stmt) -> (r: Result<Stmt, (Stmt, Box<ElseBranch>)>)
    requires
        !else_on_path(stmt_view(stmt)),
    ensures
        match r {
            Ok(n) => attach(stmt_view(else_branch.stmt), stmt_view(stmt)) == Some(stmt_view(n)),
            Err((s, e)) => attach(stmt_view(else_branch.stmt), stmt_view(stmt)) is None && s == stmt
                && e == else_branch,
        },
    decreases stmt,
{
    match stmt {
        Stmt::If(branch) => {
            let IfBranch { cond, stmt: inner } = *branch;
            match bind_if_else(else_branch, inner) {
                Ok(sub) => Ok(Stmt::If(Box::new(IfBranch { cond, stmt: sub }))),
                Err((inner, else_branch)) => Ok(
                    Stmt::IfElse(Box::new(IfBranch { cond, stmt: inner }), else_branch),
                ),
            }
        },
        Stmt::While(branch) => {
            let WhileBranch { cond, stmt: inner } = *branch;
            match bind_if_else(else_branch, inner) {
                Ok(sub) => Ok(Stmt::While(Box::new(WhileBranch { cond, stmt: sub }))),
                Err((inner, else_branch)) => Err(
                    (Stmt::While(Box::new(WhileBranch { cond, stmt: inner })), else_branch),
                ),
            }
        },
        Stmt::IfElse(if_branch, bound) => {
            let ElseBranch { stmt: inner } = *bound;
            match bind_if_else(else_branch, inner) {
                Ok(sub) => Ok(Stmt::IfElse(if_branch, Box::new(ElseBranch { stmt: sub }))),
                Err((inner, else_branch)) => Err(
                    (Stmt::IfElse(if_branch, Box::new(ElseBranch { stmt: inner })), else_branch),
                ),
            }
        },
        other => Err((other, else_branch)),
    }
}


/// Why the binding of `else` statements failed; the statement is the one found
/// where an `if` was expected.
#[derive(Debug)]
pub enum BindError {
    ElseFirst,
    ElseAfterDecl,
    ElseWithoutIf(Stmt),
}

pub open spec fn failure_view(e: BindError) -> BindFailure {
    match e {
        BindError::ElseFirst => BindFailure::ElseFirst,
        BindError::ElseAfterDecl => BindFailure::ElseAfterDecl,
        BindError::ElseWithoutIf(s) => BindFailure::ElseWithoutIf(stmt_view(s)),
    }
}

pub open spec fn result_view(r: Result<Stmt, BindError>) -> Result<StmtV, BindFailure> {
    match r {
        Ok(s) => Ok(stmt_view(s)),
        Err(e) => Err(failure_view(e)),
    }
}

/// The text a binding failure is reported with; the statement found in place
/// of an `if` is given by its source text.
pub open spec fn bind_error_text(e: BindError) -> Seq<char> {
    match e {
        BindError::ElseFirst => "Else cannot be the first statement"@,
        BindError::ElseAfterDecl => "Else must follow an If statement, but found a declaration"@,
        BindError::ElseWithoutIf(s) => "Else must follow an If statement, but found: "@ + stmt_text(s),
    }
}

impl BindError {
    /// The message of the failure.
    pub fn message(&self) -> (r: String)
        ensures
            r@ == bind_error_text(*self),
    {
        match self {
            BindError::ElseFirst => String::from_str("Else cannot be the first statement"),
            BindError::ElseAfterDecl => String::from_str("Else must follow an If statement, but found a declaration"),
            BindError::ElseWithoutIf(stmt) => {
                let mut r = String::from_str("Else must follow an If statement, but found: ");
                let text = stmt.to_string();
                r.append(text.as_str());
                r
            },
        }
    }
}

pub proof fn lemma_items_view_len(items: Seq<BlockItem>)
    ensures
        items_view(items).len() == items.len(),
    decreases items.len(),
{
    if items.len() > 0 {
        lemma_items_view_len(items.drop_last());
    }
}

pub proof fn lemma_items_view_index(items: Seq<BlockItem>, i: int)
    requires
        0 <= i < items.len(),
    ensures
        items_view(items)[i] == item_view(items[i]),
    decreases items.len(),
{
    lemma_items_view_len(items.drop_last());
    if i < items.len() - 1 {
        lemma_items_view_index(items.drop_last(), i);
    }
}

pub proof fn lemma_items_view_push(items: Seq<BlockItem>, x: BlockItem)
    ensures
        items_view(items.push(x)) == items_view(items).push(item_view(x)),
{
    assert(items.push(x).drop_last() =~= items);
}

pub proof fn lemma_items_view_take(items: Seq<BlockItem>, i: int)
    requires
        0 <= i <= items.len(),
    ensures
        items_view(items.take(i)) == items_view(items).take(i),
    decreases items.len(),
{
    lemma_items_view_len(items);
    lemma_items_view_len(items.take(i));
    assert forall|k: int| 0 <= k < i implies items_view(items.take(i))[k] == items_view(items).take(i)[k] by {
        lemma_items_view_index(items.take(i), k);
        lemma_items_view_index(items, k);
    }
    assert(items_view(items.take(i)) =~= items_view(items).take(i));
}

/// An item of a block is smaller than the block, for the measure of the binding.
pub proof fn lemma_item_measure(items: Seq<ItemV>, i: int)
    requires
        0 <= i < items.len(),
    ensures
        items[i] matches ItemV::Stmt(s) ==> pending(s) <= pending_items(items) && size(s) < size_items(items),
    decreases items.len(),
{
    if i < items.len() - 1 {
        lemma_item_measure(items.drop_last(), i);
    }
}

pub proof fn lemma_settled_pending(items: Seq<ItemV>)
    requires
        settled(items),
    ensures
        pending_items(items) == 0,
    decreases items.len(),
{
    if items.len() > 0 {
        assert(settled(items.drop_last())) by {
            assert forall|i: int| 0 <= i < items.drop_last().len() implies match #[trigger] items.drop_last()[i] {
                ItemV::Stmt(s) => pending(s) == 0,
                ItemV::Decl(_) => true,
            } by {
                assert(items.drop_last()[i] == items[i]);
            }
        }
        lemma_settled_pending(items.drop_last());
        assert(match items[items.len() - 1] {
            ItemV::Stmt(s) => pending(s) == 0,
            ItemV::Decl(_) => true,
        });
    }
}

pub proof fn lemma_else_on_path_pending(s: StmtV)
    ensures
        else_on_path(s) ==> pending(s) > 0,
    decreases s,
{
    match s {
        StmtV::If(_, inner) => lemma_else_on_path_pending(*inner),
        StmtV::While(_, inner) => lemma_else_on_path_pending(*inner),
        StmtV::IfElse(_, _, el) => lemma_else_on_path_pending(*el),
        _ => {},
    }
}

pub proof fn lemma_settled_drop_last(items: Seq<ItemV>)
    requires
        settled(items),
        items.len() > 0,
    ensures
        settled(items.drop_last()),
        match items.last() {
            ItemV::Stmt(s) => pending(s) == 0,
            ItemV::Decl(_) => true,
        },
{
    assert forall|i: int| 0 <= i < items.drop_last().len() implies match #[trigger] items.drop_last()[i] {
        ItemV::Stmt(s) => pending(s) == 0,
        ItemV::Decl(_) => true,
    } by {
        assert(items.drop_last()[i] == items[i]);
    }
    assert(match items[items.len() - 1] {
        ItemV::Stmt(s) => pending(s) == 0,
        ItemV::Decl(_) => true,
    });
}

pub proof fn lemma_settled_push(items: Seq<ItemV>, x: ItemV)
    requires
        settled(items),
        match x {
            ItemV::Stmt(s) => pending(s) == 0,
            ItemV::Decl(_) => true,
        },
    ensures
        settled(items.push(x)),
{
    assert forall|i: int| 0 <= i < items.push(x).len() implies match #[trigger] items.push(x)[i] {
        ItemV::Stmt(s) => pending(s) == 0,
        ItemV::Decl(_) => true,
    } by {
        if i < items.len() {
            assert(items.push(x)[i] == items[i]);
        }
    }
}

/// Law: binding leaves a statement without pending `else` statements unchanged,
/// and does not touch the items before it.
pub proof fn law_bind_stmt_identity(s: StmtV, acc: Seq<ItemV>)
    requires
        settled(acc),
        pending(s) == 0,
    ensures
        bind_stmt(s, acc) == (Ok::<StmtV, BindFailure>(s), acc),
    decreases pending(s), size(s),
{
    match s {
        StmtV::Block(items) => {
            law_bind_items_identity(items);
        },
        StmtV::If(_, inner) => {
            law_bind_stmt_identity(*inner, acc);
        },
        StmtV::While(_, inner) => {
            law_bind_stmt_identity(*inner, acc);
        },
        StmtV::IfElse(_, _, el) => {
            law_bind_stmt_identity(*el, acc);
        },
        _ => {},
    }
}

/// Law: binding a block without pending `else` statements gives back the same
/// items.
pub proof fn law_bind_items_identity(items: Seq<ItemV>)
    requires
        pending_items(items) == 0,
    ensures
        bind_items(items) == Ok::<Seq<ItemV>, BindFailure>(items),
        settled(items),
    decreases pending_items(items), size_items(items),
{
    if items.len() > 0 {
        lemma_item_measure(items, items.len() - 1);
        law_bind_items_identity(items.drop_last());
        match items.last() {
            ItemV::Stmt(s) => {
                law_bind_stmt_identity(s, items.drop_last());
            },
            ItemV::Decl(_) => {},
        }
        lemma_settled_push(items.drop_last(), items.last());
        assert(items.drop_last().push(items.last()) =~= items);
    } else {
        assert(items =~= Seq::<ItemV>::empty());
    }
}

/// How many of the items before a statement binding it takes: one for each
/// `else` statement met on the way through if-bodies, while-bodies, else-parts
/// and the bodies of `else` statements.
pub open spec fn pulls(s: StmtV) -> nat
    decreases s,
{
    match s {
        StmtV::Else(body) => 1 + pulls(*body),
        StmtV::If(_, inner) => pulls(*inner),
        StmtV::While(_, inner) => pulls(*inner),
        StmtV::IfElse(_, _, el) => pulls(*el),
        _ => 0,
    }
}

/// The items that the statements of a block take from the items before them.
pub open spec fn pulls_items(items: Seq<ItemV>) -> nat
    decreases items.len(),
{
    if items.len() == 0 {
        0
    } else {
        pulls_items(items.drop_last()) + match items.last() {
            ItemV::Stmt(s) => pulls(s),
            ItemV::Decl(_) => 0,
        }
    }
}

/// The declarations among the items, in order.
pub open spec fn decls_of(items: Seq<ItemV>) -> Seq<Decl>
    decreases items.len(),
{
    if items.len() == 0 {
        Seq::empty()
    } else {
        match items.last() {
            ItemV::Decl(d) => decls_of(items.drop_last()).push(d),
            ItemV::Stmt(_) => decls_of(items.drop_last()),
        }
    }
}

/// Attaching an else-part gives a statement that takes as many items as the
/// else-part alone.
pub proof fn lemma_attach_pulls(e: StmtV, s: StmtV)
    ensures
        attach(e, s) matches Some(n) ==> pulls(n) == pulls(e),
    decreases s,
{
    match s {
        StmtV::If(_, inner) => lemma_attach_pulls(e, *inner),
        StmtV::While(_, inner) => lemma_attach_pulls(e, *inner),
        StmtV::IfElse(_, _, el) => lemma_attach_pulls(e, *el),
        _ => {},
    }
}

pub proof fn lemma_settled_take(items: Seq<ItemV>, k: int)
    requires
        settled(items),
        0 <= k <= items.len(),
    ensures
        settled(items.take(k)),
{
    assert forall|i: int| 0 <= i < items.take(k).len() implies match #[trigger] items.take(k)[i] {
        ItemV::Stmt(s) => pending(s) == 0,
        ItemV::Decl(_) => true,
    } by {
        assert(items.take(k)[i] == items[i]);
    }
}

/// Binding a statement that succeeds leaves no `else` pending in it, takes
/// `pulls(s)` statements off the end of the items before it, and no
/// declaration.
pub proof fn lemma_bind_stmt_shape(s: StmtV, acc: Seq<ItemV>)
    requires
        settled(acc),
    ensures
        bind_stmt(s, acc).0 matches Ok(n) ==> {
            &&& pending(n) == 0
            &&& pulls(s) <= acc.len()
            &&& bind_stmt(s, acc).1 == acc.take(acc.len() - pulls(s))
            &&& decls_of(bind_stmt(s, acc).1) == decls_of(acc)
        },
    decreases pending(s), size(s),
{
    match s {
        StmtV::Simple(_) => {
            assert(acc.take(acc.len() as int) =~= acc);
        },
        StmtV::Block(items) => {
            law_bind_items_shape(items);
            if let Ok(n) = bind_items(items) {
                lemma_settled_pending(n);
            }
            assert(acc.take(acc.len() as int) =~= acc);
        },
        StmtV::If(_, inner) => lemma_bind_stmt_shape(*inner, acc),
        StmtV::While(_, inner) => lemma_bind_stmt_shape(*inner, acc),
        StmtV::IfElse(_, _, el) => lemma_bind_stmt_shape(*el, acc),
        StmtV::Else(body) => {
            if acc.len() > 0 {
                let rest = acc.drop_last();
                if let ItemV::Stmt(ls) = acc.last() {
                    lemma_settled_drop_last(acc);
                    if let Some(n) = attach(*body, ls) {
                        lemma_attach_pending(*body, ls);
                        lemma_attach_pulls(*body, ls);
                        lemma_bind_stmt_shape(n, rest);
                        if bind_stmt(n, rest).0 is Ok {
                            assert(rest.take(rest.len() - pulls(n)) =~= acc.take(acc.len() - pulls(s)));
                        }
                    }
                }
            }
        },
    }
}

/// Law: when binding the `else` statements of a block succeeds, no `else` is
/// left pending in what it gives; its declarations are those of the block, in
/// the same order; and it has as many items as the block less one for each
/// `else` statement that was attached to the statement before it.
pub proof fn law_bind_items_shape(items: Seq<ItemV>)
    ensures
        bind_items(items) matches Ok(out) ==> {
            &&& settled(out)
            &&& out.len() + pulls_items(items) == items.len()
            &&& decls_of(out) == decls_of(items)
        },
    decreases pending_items(items), size_items(items),
{
    if items.len() > 0 {
        let dl = items.drop_last();
        lemma_item_measure(items, items.len() - 1);
        law_bind_items_shape(dl);
        if let Ok(acc) = bind_items(dl) {
            match items.last() {
                ItemV::Decl(d) => {
                    lemma_settled_push(acc, ItemV::Decl(d));
                    assert(acc.push(ItemV::Decl(d)).drop_last() =~= acc);
                },
                ItemV::Stmt(st) => {
                    lemma_bind_stmt_shape(st, acc);
                    if let Ok(n) = bind_stmt(st, acc).0 {
                        let acc2 = bind_stmt(st, acc).1;
                        lemma_settled_take(acc, acc.len() - pulls(st));
                        lemma_settled_push(acc2, ItemV::Stmt(n));
                        assert(acc2.push(ItemV::Stmt(n)).drop_last() =~= acc2);
                    }
                },
            }
        }
    }
}

/// Once binding a prefix of a block fails, binding the whole block fails the same
/// way.
pub proof fn lemma_bind_items_err_extends(items: Seq<ItemV>, k: int)
    requires
        0 <= k <= items.len(),
        bind_items(items.take(k)) is Err,
    ensures
        bind_items(items) == bind_items(items.take(k)),
    decreases items.len(),
{
    if k < items.len() {
        assert(items.drop_last().take(k) =~= items.take(k));
        lemma_bind_items_err_extends(items.drop_last(), k);
    } else {
        assert(items.take(k) =~= items);
    }
}

/// Binds the `else` statements in `stmt`. An `else` takes the last item of `vec`
/// (the items already bound before `stmt` in its block), which is then popped.
pub fn bind_if_else_stmt(stmt: Stmt, vec: &mut Vec<BlockItem>) -> (r: Result<Stmt, BindError>)
    requires
        settled(items_view(old(vec)@)),
    ensures
        (result_view(r), items_view(final(vec)@)) == bind_stmt(stmt_view(stmt), items_view(old(vec)@)),
        settled(items_view(final(vec)@)),
        r matches Ok(n) ==> pending(stmt_view(n)) == 0,
    decreases pending(stmt_view(stmt)), size(stmt_view(stmt)),
{
    match stmt {
        Stmt::Block(block) => {
            proof {
                lemma_items_view_len(block.items@);
            }
            match bind_if_else_block(block) {
                Ok(new_block) => {
                    proof {
                        lemma_settled_pending(items_view(new_block.items@));
                    }
                    Ok(Stmt::Block(new_block))
                },
                Err(e) => Err(e),
            }
        },
        Stmt::If(branch) => {
            let IfBranch { cond, stmt: inner } = *branch;
            match bind_if_else_stmt(inner, vec) {
                Ok(sub) => Ok(Stmt::If(Box::new(IfBranch { cond, stmt: sub }))),
                Err(e) => Err(e),
            }
        },
        Stmt::While(branch) => {
            let WhileBranch { cond, stmt: inner } = *branch;
            match bind_if_else_stmt(inner, vec) {
                Ok(sub) => Ok(Stmt::While(Box::new(WhileBranch { cond, stmt: sub }))),
                Err(e) => Err(e),
            }
        },
        Stmt::IfElse(if_branch, else_branch) => {
            let ElseBranch { stmt: inner } = *else_branch;
            match bind_if_else_stmt(inner, vec) {
                Ok(sub) => Ok(Stmt::IfElse(if_branch, Box::new(ElseBranch { stmt: sub }))),
                Err(e) => Err(e),
            }
        },
        Stmt::Else(else_branch) => {
            let ghost acc = items_view(vec@);
            proof {
                lemma_items_view_len(vec@);
                if vec@.len() > 0 {
                    assert(acc.drop_last() =~= items_view(vec@.drop_last()));
                    lemma_items_view_index(vec@, vec@.len() - 1);
                    lemma_settled_drop_last(acc);
                }
            }
            let last = match vec.pop() {
                Some(last) => last,
                None => {
                    return Err(BindError::ElseFirst);
                },
            };
            let last = match last {
                BlockItem::Decl(_) => {
                    return Err(BindError::ElseAfterDecl);
                },
                BlockItem::Stmt(s) => s,
            };
            proof {
                lemma_else_on_path_pending(stmt_view(last));
                lemma_attach_pending(stmt_view(else_branch.stmt), stmt_view(last));
            }
            match bind_if_else(else_branch, last) {
                Err((s, _)) => Err(BindError::ElseWithoutIf(s)),
                Ok(bound) => bind_if_else_stmt(bound, vec),
            }
        },
        other => Ok(other),
    }
}

/// Binds the `else` statements of a block: each `else` is attached to an `if` of
/// the statement just before it in the same block.
pub fn bind_if_else_block(block: Block) -> (r: Result<Block, BindError>)
    ensures
        match r {
            Ok(b) => bind_items(items_view(block.items@)) == Ok::<Seq<ItemV>, BindFailure>(items_view(b.items@)) && settled(
                items_view(b.items@),
            ),
            Err(e) => bind_items(items_view(block.items@)) == Err::<Seq<ItemV>, BindFailure>(
                failure_view(e),
            ),
        },
    decreases pending_items(items_view(block.items@)), size_items(items_view(block.items@)),
{
    let ghost all = block.items@;
    let Block { items } = block;
    let mut rest = items;
    let mut out: Vec<BlockItem> = Vec::new();
    let ghost mut i: int = 0;
    proof {
        lemma_items_view_len(all);
        assert(all.take(0) =~= Seq::<BlockItem>::empty());
        assert(all.skip(0) =~= all);
    }
    while rest.len() > 0
        invariant
            0 <= i <= all.len(),
            rest@ == all.skip(i),
            all == block.items@,
            bind_items(items_view(all.take(i))) == Ok::<Seq<ItemV>, BindFailure>(items_view(out@)),
            settled(items_view(out@)),
        decreases rest.len(),
    {
        let item = rest.remove(0);
        proof {
            assert(item == all[i]);
            assert(rest@ =~= all.skip(i + 1));
            assert(all.take(i + 1).drop_last() =~= all.take(i));
            lemma_items_view_take(all, i + 1);
            lemma_items_view_take(all, i);
            lemma_items_view_len(all);
            lemma_items_view_index(all, i);
            lemma_item_measure(items_view(all), i);
            assert(items_view(all.take(i + 1)).last() == item_view(item));
            assert(items_view(all.take(i + 1)).drop_last() =~= items_view(all.take(i)));
        }
        match item {
            BlockItem::Decl(d) => {
                proof {
                    lemma_items_view_push(out@, BlockItem::Decl(d));
                    lemma_settled_push(items_view(out@), ItemV::Decl(d));
                }
                out.push(BlockItem::Decl(d));
            },
            BlockItem::Stmt(stmt) => {
                match bind_if_else_stmt(stmt, &mut out) {
                    Ok(s) => {
                        proof {
                            lemma_items_view_push(out@, BlockItem::Stmt(s));
                            lemma_settled_push(items_view(out@), ItemV::Stmt(stmt_view(s)));
                        }
                        out.push(BlockItem::Stmt(s));
                    },
                    Err(e) => {
                        proof {
                            lemma_bind_items_err_extends(items_view(all), i + 1);
                        }
                        return Err(e);
                    },
                }
            },
        }
        proof {
            i = i + 1;
        }
    }
    proof {
        assert(all.take(i) =~= all);
    }
    Ok(Block { items: out })
}

/// Whether a block's last item is a `return` statement.
pub open spec fn ends_with_return(items: Seq<BlockItem>) -> bool {
    items.len() > 0 && items.last() matches BlockItem::Stmt(Stmt::Return(_))
}

/// Makes a function body end with a `return`: appends `return;` unless its
/// last item already is a `return`.
pub fn close_with_return(scope: &mut Block)
    ensures
        ends_with_return(old(scope).items@) ==> final(scope).items@ == old(scope).items@,
        !ends_with_return(old(scope).items@) ==> final(scope).items@ == old(scope).items@.push(BlockItem::Stmt(Stmt::Return(None))),
{
    let n = scope.items.len();
    let closed = if n > 0 {
        match &scope.items[n - 1] {
            BlockItem::Stmt(Stmt::Return(_)) => true,
            _ => false,
        }
    } else {
        false
    };
    if !closed {
        scope.items.push(BlockItem::Stmt(Stmt::Return(None)));
    }
}

/// The instructions of a basic block as placed: those that go into the block,
/// up to and including the first one that ends it.
pub open spec fn placed(insts: Seq<Instruction>, ends: spec_fn(Value) -> bool) -> Seq<Instruction>
    decreases insts.len(),
{
    if insts.len() == 0 {
        Seq::empty()
    } else if !insts[0].insert {
        placed(insts.drop_first(), ends)
    } else if ends(insts[0].inst) {
        seq![insts[0]]
    } else {
        seq![insts[0]] + placed(insts.drop_first(), ends)
    }
}

/// Keeps the instructions that go into the block, and drops everything after
/// the first return, jump or branch of `f`.
pub fn trim_insts(insts: &Vec<Instruction>, program: &Program, f: Function) -> (r: Vec<Instruction>)
    requires
        ir_funcs(*program).contains(f),
    ensures
        r@ == placed(insts@, |v: Value| ends_in(ir_values(*program), f, v)),
{
    let ghost ends = |v: Value| ends_in(ir_values(*program), f, v);
    let mut out: Vec<Instruction> = Vec::new();
    let rest = insts;
    let ghost whole = rest@;
    let mut i: usize = 0;
    let n = rest.len();
    proof {
        assert(whole.skip(0) =~= whole);
    }
    let mut done = false;
    while i < n && !done
        invariant
            n == whole.len(),
            rest@ == whole,
            i <= n,
            ir_funcs(*program).contains(f),
            ends == (|v: Value| ends_in(ir_values(*program), f, v)),
            done ==> out@ == placed(whole, ends),
            !done ==> out@ + placed(whole.skip(i as int), ends) == placed(whole, ends),
        decreases n - i, if done { 0int } else { 1int },
    {
        let inst = &rest[i];
        let ghost tail = whole.skip(i as int);
        proof {
            assert(tail[0] == whole[i as int]);
            assert(tail.drop_first() =~= whole.skip(i + 1));
        }
        if inst.insert {
            let end = match value_ends(program, f, inst.inst) {
                Some(b) => b,
                None => false,
            };
            out.push(Instruction { inst: inst.inst, insert: inst.insert });
            if end {
                proof {
                    assert(ends(whole[i as int].inst));
                    assert(out@ =~= placed(whole, ends));
                }
                done = true;
            } else {
                proof {
                    assert(!ends(whole[i as int].inst));
                    assert(out@ + placed(whole.skip(i + 1), ends) =~= placed(whole, ends));
                }
            }
        }
        i = i + 1;
    }
    proof {
        if !done {
            assert(whole.skip(i as int) =~= Seq::<Instruction>::empty());
            assert(out@ =~= placed(whole, ends));
        }
    }
    out
}

/// Law: the instructions placed in a block are instructions of the list
/// that go into the block, in the list's order; none but the last ends the
/// block; and where the list holds an instruction that goes into the block
/// and ends it, the placed ones end with the first such.
pub proof fn law_placed_ends_block(insts: Seq<Instruction>, ends: spec_fn(Value) -> bool)
    ensures
        forall|i: int| 0 <= i < placed(insts, ends).len() ==> (#[trigger] placed(insts, ends)[i]).insert && insts.contains(placed(insts, ends)[i]),
        forall|i: int| 0 <= i < placed(insts, ends).len() - 1 ==> !ends((#[trigger] placed(insts, ends)[i]).inst),
        (exists|j: int| 0 <= j < insts.len() && (#[trigger] insts[j]).insert && ends(insts[j].inst)) ==> placed(insts, ends).len() > 0 && ends(
            placed(insts, ends).last().inst,
        ),
    decreases insts.len(),
{
    if insts.len() > 0 {
        let rest = insts.drop_first();
        law_placed_ends_block(rest, ends);
        let p = placed(insts, ends);
        let pr = placed(rest, ends);
        assert forall|i: int| 0 <= i < p.len() implies (#[trigger] p[i]).insert && insts.contains(p[i]) by {
            if !insts[0].insert {
                assert(p[i] == pr[i]);
                assert(rest.contains(pr[i]));
                let k = choose|k: int| 0 <= k < rest.len() && rest[k] == pr[i];
                assert(insts[k + 1] == rest[k]);
            } else if ends(insts[0].inst) {
                assert(p[i] == insts[0]);
            } else if i == 0 {
                assert(p[0] == insts[0]);
            } else {
                assert(p[i] == pr[i - 1]);
                assert(rest.contains(pr[i - 1]));
                let k = choose|k: int| 0 <= k < rest.len() && rest[k] == pr[i - 1];
                assert(insts[k + 1] == rest[k]);
            }
        }
        assert forall|i: int| 0 <= i < p.len() - 1 implies !ends((#[trigger] p[i]).inst) by {
            if !insts[0].insert {
                assert(p[i] == pr[i]);
            } else if ends(insts[0].inst) {
            } else if i == 0 {
                assert(p[0] == insts[0]);
            } else {
                assert(p[i] == pr[i - 1]);
            }
        }
        if exists|j: int| 0 <= j < insts.len() && (#[trigger] insts[j]).insert && ends(insts[j].inst) {
            let j = choose|j: int| 0 <= j < insts.len() && (#[trigger] insts[j]).insert && ends(insts[j].inst);
            if insts[0].insert && ends(insts[0].inst) {
            } else {
                assert(j > 0);
                assert(rest[j - 1] == insts[j]);
                assert(pr.len() > 0 && ends(pr.last().inst));
                if insts[0].insert {
                    assert(p == seq![insts[0]] + pr);
                    assert(p.last() == pr.last());
                }
            }
        }
    }
}

} // verus!
