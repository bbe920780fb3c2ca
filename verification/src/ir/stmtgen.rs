//! Building the koopa IR of statements and declarations: the code goes into
//! basic blocks under construction, and control flow opens new ones.
use vstd::prelude::*;

use koopa::ir::{BasicBlock, Function, Program, Value};

use crate::ir::expr::{fold_expr, lemma_fold_same_expr, same_consts};
use crate::ir::irgen::{emits_expr, expr_ir, generable, lemma_emits_expr_grow, lemma_fresh_insert, lemma_kept, lemma_scope_grow, lemma_trans, plain_expr, readable, scope_slots, Names};
use crate::ir::meta::{manager_get, ConstValue, Instruction, VarValue, Variable, VariableManager};
use crate::ir::program::{
    added,
    int_value, ir_blocks, ir_funcs, ir_layout, ir_values, new_block, new_branch, new_jump, new_return, new_store,
    slot_value, IrInst, IrKind,
};
use crate::ir::declgen::{const_decl_ir, var_decl_ir};
use crate::parse::ast::{BType, Block, BlockItem, ConstDef, ControlFlow, Decl, ElseBranch, Expr, IfBranch, LVal, Stmt, VarDef, WhileBranch};

verus! {

/// A basic block under construction and its instructions so far.
#[derive(Debug)]
pub struct BlockFlow {
    pub block: BasicBlock,
    pub insts: Vec<Instruction>,
}

/// A loop being built: where `continue` and `break` go.
#[derive(Debug, Clone, Copy)]
pub struct LoopTargets {
    pub entry: BasicBlock,
    pub end: BasicBlock,
}

/// A block under construction, as a value.
pub struct FlowV {
    pub block: BasicBlock,
    pub insts: Seq<Instruction>,
}

pub open spec fn flows_view(fl: Seq<BlockFlow>) -> Seq<FlowV> {
    Seq::new(fl.len(), |i: int| FlowV { block: fl[i].block, insts: fl[i].insts@ })
}

/// What building code works on: the values and blocks of the program, the
/// blocks under construction, and the names in scope.
pub struct GenState {
    pub vals: Map<Value, IrInst>,
    pub blocks: Map<BasicBlock, Function>,
    pub flows: Seq<FlowV>,
    pub names: VariableManager,
}

pub open spec fn state_of(p: Program, fl: Seq<BlockFlow>, m: VariableManager) -> GenState {
    GenState { vals: ir_values(p), blocks: ir_blocks(p), flows: flows_view(fl), names: m }
}

/// `s` appended to the current (last) block.
pub open spec fn append_last(fl: Seq<FlowV>, s: Seq<Instruction>) -> Seq<FlowV> {
    fl.update(fl.len() - 1, FlowV { block: fl.last().block, insts: fl.last().insts + s })
}

pub open spec fn placed(v: Value) -> Seq<Instruction> {
    seq![Instruction { inst: v, insert: true }]
}

pub open spec fn empty_flow(b: BasicBlock) -> FlowV {
    FlowV { block: b, insts: Seq::empty() }
}

/// `b` is `a` with the code of `e` appended to the current block; `v` holds
/// its value (see [`emits_expr`]).
pub open spec fn expr_into(e: Expr, f: Function, a: GenState, b: GenState, v: Value) -> bool {
    let em = emits_expr(e, a.names@, b.vals, f, v);
    &&& em is Some
    &&& b.vals.dom() == a.vals.dom() + em->0.made
    &&& em->0.made.disjoint(a.vals.dom())
    &&& a.vals.submap_of(b.vals)
    &&& int_value(b.vals, f, v)
    &&& b.blocks == a.blocks
    &&& b.flows == append_last(a.flows, em->0.insts)
    &&& b.names == a.names
}

/// `b` is `a` with the new value `w` of `f` of kind `kind`, placed at the
/// end of the current block.
pub open spec fn one_value(a: GenState, b: GenState, w: Value, f: Function, kind: IrKind) -> bool {
    &&& !a.vals.dom().contains(w)
    &&& b.vals == a.vals.insert(w, IrInst { func: f, kind })
    &&& b.blocks == a.blocks
    &&& b.flows == append_last(a.flows, placed(w))
    &&& b.names == a.names
}

/// `b` is `a` with the new block `nb` of `f`, not yet under construction.
pub open spec fn fresh_block(a: GenState, b: GenState, nb: BasicBlock, f: Function) -> bool {
    &&& !a.blocks.dom().contains(nb)
    &&& b.blocks == a.blocks.insert(nb, f)
    &&& b.vals == a.vals
    &&& b.flows == a.flows
    &&& b.names == a.names
}

/// `b` is `a` with the new block `nb` of `f` opened after the current one.
pub open spec fn opened_block(a: GenState, b: GenState, nb: BasicBlock, f: Function) -> bool {
    &&& !a.blocks.dom().contains(nb)
    &&& b.blocks == a.blocks.insert(nb, f)
    &&& b.vals == a.vals
    &&& b.flows == a.flows.push(empty_flow(nb))
    &&& b.names == a.names
}

/// `a` with the blocks under construction replaced by `fl`.
pub open spec fn with_flows(a: GenState, fl: Seq<FlowV>) -> GenState {
    GenState { flows: fl, ..a }
}

/// `a` with the names `m`.
pub open spec fn with_names(a: GenState, m: VariableManager) -> GenState {
    GenState { names: m, ..a }
}

/// A jump to `target` at the end of the current block, which ends it: code
/// after it goes into a new block.
pub open spec fn jumped(a: GenState, b: GenState, f: Function, target: BasicBlock) -> bool {
    exists|m1: GenState, j: Value, nb: BasicBlock|
        #[trigger] one_value(a, m1, j, f, IrKind::Jump(target)) && #[trigger] opened_block(m1, b, nb, f)
}

/// A return of `value` at the end of the current block, which ends it: code
/// after it goes into a new block.
pub open spec fn returned(a: GenState, b: GenState, f: Function, value: Option<Value>) -> bool {
    exists|m1: GenState, r: Value, nb: BasicBlock|
        #[trigger] one_value(a, m1, r, f, IrKind::Return(value)) && #[trigger] opened_block(m1, b, nb, f)
}

/// A block statement: its items are built in a new scope (`x0`, opened on
/// the names of `a` with `mark`), which closes after them.
pub open spec fn block_rest(a: GenState, b: GenState, mark: usize, x0: VariableManager, x1: GenState) -> bool {
    &&& x0.inside(a.names, mark)
    &&& x0@ == a.names@
    &&& x0.local() == Set::<Seq<char>>::empty()
    &&& x1.names.inside(a.names, mark)
    &&& b == with_names(x1, b.names)
    &&& b.names.same_as(a.names)
}

/// The parts of `if (cond) ...` besides its body's code (from
/// `with_flows(a2, [then])` to `t1`).
pub open spec fn if_rest(
    cond: Expr,
    f: Function,
    a: GenState,
    b: GenState,
    a1: GenState,
    m1: GenState,
    v: Value,
    a2: GenState,
    t1: GenState,
    j: Value,
    w: Value,
    end: BasicBlock,
    then: BasicBlock,
) -> bool {
    &&& fresh_block(a, a1, end, f)
    &&& expr_into(cond, f, a1, m1, v)
    &&& fresh_block(m1, a2, then, f)
    &&& !t1.vals.dom().contains(j)
    &&& !t1.vals.dom().contains(w)
    &&& j != w
    &&& b.vals == t1.vals.insert(j, IrInst { func: f, kind: IrKind::Jump(end) }).insert(
        w,
        IrInst { func: f, kind: IrKind::Branch(v, then, end) },
    )
    &&& b.blocks == t1.blocks
    &&& b.flows == append_last(m1.flows, placed(w)) + append_last(t1.flows, placed(j)).push(empty_flow(end))
    &&& b.names.same_as(a.names)
}

/// Where the else part starts: the then part ended with the jump `j1` to
/// `end`, and the else block opened.
pub open spec fn else_start(t1: GenState, f: Function, j1: Value, end: BasicBlock, els: BasicBlock) -> GenState {
    GenState {
        vals: t1.vals.insert(j1, IrInst { func: f, kind: IrKind::Jump(end) }),
        flows: append_last(t1.flows, placed(j1)).push(empty_flow(els)),
        ..t1
    }
}

/// The parts of `if (cond) ... else ...` besides its two bodies' code.
pub open spec fn if_else_rest(
    cond: Expr,
    f: Function,
    a: GenState,
    b: GenState,
    a1: GenState,
    m1: GenState,
    v: Value,
    a2: GenState,
    t1: GenState,
    e1: GenState,
    j1: Value,
    j2: Value,
    w: Value,
    end: BasicBlock,
    then: BasicBlock,
    els: BasicBlock,
) -> bool {
    &&& fresh_block(a, a1, end, f)
    &&& expr_into(cond, f, a1, m1, v)
    &&& !m1.blocks.dom().contains(then) && !m1.blocks.dom().contains(els) && then != els
    &&& a2 == GenState { blocks: m1.blocks.insert(then, f).insert(els, f), ..m1 }
    &&& !t1.vals.dom().contains(j1)
    &&& !e1.vals.dom().contains(j2) && !e1.vals.dom().contains(w) && j2 != w
    &&& b.vals == e1.vals.insert(j2, IrInst { func: f, kind: IrKind::Jump(end) }).insert(
        w,
        IrInst { func: f, kind: IrKind::Branch(v, then, els) },
    )
    &&& b.blocks == e1.blocks
    &&& b.flows == append_last(m1.flows, placed(w)) + append_last(e1.flows, placed(j2)).push(empty_flow(end))
    &&& b.names.same_as(a.names)
}

/// Where a loop's body starts: the condition's block ended with the branch
/// `w`, and the body block opened.
pub open spec fn body_start(c1: GenState, f: Function, v: Value, w: Value, body: BasicBlock, end: BasicBlock) -> GenState {
    GenState {
        vals: c1.vals.insert(w, IrInst { func: f, kind: IrKind::Branch(v, body, end) }),
        flows: append_last(c1.flows, placed(w)).push(empty_flow(body)),
        ..c1
    }
}

/// The parts of `while (cond) ...` besides its body's code.
pub open spec fn while_rest(
    cond: Expr,
    f: Function,
    a: GenState,
    b: GenState,
    a1: GenState,
    j1: Value,
    c1: GenState,
    v: Value,
    w: Value,
    x1: GenState,
    j2: Value,
    entry: BasicBlock,
    body: BasicBlock,
    end: BasicBlock,
) -> bool {
    &&& !a.blocks.dom().contains(entry) && !a.blocks.dom().contains(body) && !a.blocks.dom().contains(end)
    &&& entry != body && entry != end && body != end
    &&& !a.vals.dom().contains(j1)
    &&& a1 == GenState {
        vals: a.vals.insert(j1, IrInst { func: f, kind: IrKind::Jump(entry) }),
        blocks: a.blocks.insert(entry, f).insert(body, f).insert(end, f),
        flows: seq![empty_flow(entry)],
        names: a.names,
    }
    &&& expr_into(cond, f, a1, c1, v)
    &&& !c1.vals.dom().contains(w)
    &&& !x1.vals.dom().contains(j2)
    &&& b.vals == x1.vals.insert(j2, IrInst { func: f, kind: IrKind::Jump(entry) })
    &&& b.blocks == x1.blocks
    &&& b.flows == append_last(a.flows, placed(j1)) + append_last(x1.flows, placed(j2)).push(empty_flow(end))
    &&& b.names.same_as(a.names)
}

/// The code of statement `s`, built in `f` from `a` to `b`; `loops` are the
/// loops around it, innermost last.
///
/// * An expression statement is its expression's code, a return its
///   value's code and `ret`, an assignment the value's code and a `store`
///   into the variable's slot; `break`/`continue` jump to the end/entry of
///   the innermost loop. A return or jump ends its block: a new one opens.
/// * A block is its items in a new scope.
/// * `if (c) s`: a new end block; `c`'s code; a new then block; the code of
///   `s` in the then block, which ends with a jump to the end block; the
///   current block ends with a branch on `c` to the then and end blocks;
///   then the then blocks, then the end block.
/// * `if (c) s else t`: likewise with an else block after the then blocks,
///   and the branch going to the then and else blocks.
/// * `while (c) s`: new entry, body and end blocks; the current block jumps
///   to the entry block; there `c`'s code and a branch to the body and end
///   blocks; in the body block the code of `s` (in this loop), ending with a
///   jump to the entry block; then the end block.
pub open spec fn stmt_built(s: Stmt, f: Function, loops: Seq<LoopTargets>, a: GenState, b: GenState) -> bool
    decreases s, 0nat,
{
    match s {
        Stmt::Expr(None) => b == a,
        Stmt::Expr(Some(e)) => exists|v: Value| #[trigger] expr_into(e, f, a, b, v),
        Stmt::Assign(l, e) => match manager_get(a.names@, l.ident@) {
            Some(Variable::Var(var)) => exists|m1: GenState, v: Value, w: Value|
                #[trigger] expr_into(e, f, a, m1, v) && #[trigger] one_value(m1, b, w, f, IrKind::Store(v, var.value)),
            _ => false,
        },
        Stmt::Return(None) => returned(a, b, f, None),
        Stmt::Return(Some(e)) => exists|m1: GenState, v: Value|
            #[trigger] expr_into(e, f, a, m1, v) && returned(m1, b, f, Some(v)),
        Stmt::ControlFlow(c) => loops.len() > 0 && match c {
            ControlFlow::Break => jumped(a, b, f, loops.last().end),
            ControlFlow::Continue => jumped(a, b, f, loops.last().entry),
        },
        Stmt::Block(bl) => exists|mark: usize, x0: VariableManager, x1: GenState|
            #[trigger] block_rest(a, b, mark, x0, x1) && items_built(bl.items@, f, loops, with_names(a, x0), x1),
        Stmt::If(br) => exists|a1: GenState, m1: GenState, v: Value, a2: GenState, t1: GenState, j: Value, w: Value, end: BasicBlock, then: BasicBlock|
            #[trigger] if_rest(br.cond, f, a, b, a1, m1, v, a2, t1, j, w, end, then)
                && stmt_built(br.stmt, f, loops, with_flows(a2, seq![empty_flow(then)]), t1),
        Stmt::IfElse(ib, eb) => exists|a1: GenState, m1: GenState, v: Value, a2: GenState, t1: GenState, e1: GenState,
            j1: Value, j2: Value, w: Value, end: BasicBlock, then: BasicBlock, els: BasicBlock|
            #[trigger] if_else_rest(ib.cond, f, a, b, a1, m1, v, a2, t1, e1, j1, j2, w, end, then, els)
                && stmt_built(ib.stmt, f, loops, with_flows(a2, seq![empty_flow(then)]), t1)
                && stmt_built(eb.stmt, f, loops, else_start(t1, f, j1, end, els), e1),
        Stmt::While(wb) => exists|a1: GenState, j1: Value, c1: GenState, v: Value, w: Value, x1: GenState, j2: Value,
            entry: BasicBlock, body: BasicBlock, end: BasicBlock|
            #[trigger] while_rest(wb.cond, f, a, b, a1, j1, c1, v, w, x1, j2, entry, body, end)
                && stmt_built(wb.stmt, f, loops.push(LoopTargets { entry, end }), body_start(c1, f, v, w, body, end), x1),
        Stmt::Else(_) => false,
    }
}

/// `st` starts at `a` and ends at `b`.
pub open spec fn chain_ends(st: Seq<GenState>, a: GenState, b: GenState) -> bool {
    st.len() > 0 && st[0] == a && st.last() == b
}

/// The code of the items of a block, in order: `st` are the states before
/// and after each item.
pub open spec fn items_built(items: Seq<BlockItem>, f: Function, loops: Seq<LoopTargets>, a: GenState, b: GenState) -> bool
    decreases items, 2nat,
{
    exists|st: Seq<GenState>| #[trigger] chain_ends(st, a, b) && items_chain(items, f, loops, st)
}

pub open spec fn items_chain(items: Seq<BlockItem>, f: Function, loops: Seq<LoopTargets>, st: Seq<GenState>) -> bool
    decreases items, 1nat,
{
    &&& st.len() == items.len() + 1
    &&& forall|i: int| 0 <= i < items.len() ==> item_built(#[trigger] items[i], f, loops, st[i], st[i + 1])
}

pub open spec fn item_built(item: BlockItem, f: Function, loops: Seq<LoopTargets>, a: GenState, b: GenState) -> bool
    decreases item, 3nat,
{
    match item {
        BlockItem::Stmt(s) => stmt_built(s, f, loops, a, b),
        BlockItem::Decl(Decl::Const(cd)) => const_defs_built(cd.def@, a, b),
        BlockItem::Decl(Decl::Var(vd)) => var_defs_built(vd.def@, f, a, b),
    }
}

/// Constants are defined one after the other, each with its value folded
/// now; they make no code.
pub open spec fn const_defs_built(defs: Seq<ConstDef>, a: GenState, b: GenState) -> bool {
    exists|st: Seq<GenState>| #[trigger] const_chain(defs, st) && st[0] == a && st.last() == b
}

/// `st` are the states before and after each constant of `defs`.
pub open spec fn const_chain(defs: Seq<ConstDef>, st: Seq<GenState>) -> bool {
    &&& st.len() == defs.len() + 1
    &&& forall|i: int| 0 <= i < defs.len() ==> const_def_built(#[trigger] defs[i], st[i], st[i + 1])
}

pub open spec fn const_def_built(d: ConstDef, a: GenState, b: GenState) -> bool {
    &&& b == with_names(a, b.names)
    &&& b.names.pushed(a.names)
    &&& b.names.wf()
    &&& b.names@ == a.names@.insert(d.ident@, Variable::Const(ConstValue::Int(fold_expr(d.init_val.expr.expr, a.names@)->Const_0)))
    &&& b.names.local() == a.names.local().insert(d.ident@)
}

/// Variables are defined one after the other: each gets a new slot (placed
/// in the current block), then its initial value's code and a store.
pub open spec fn var_defs_built(defs: Seq<VarDef>, f: Function, a: GenState, b: GenState) -> bool {
    exists|st: Seq<GenState>| #[trigger] var_chain(defs, f, st) && st[0] == a && st.last() == b
}

/// `st` are the states before and after each variable of `defs`.
pub open spec fn var_chain(defs: Seq<VarDef>, f: Function, st: Seq<GenState>) -> bool {
    &&& st.len() == defs.len() + 1
    &&& forall|i: int| 0 <= i < defs.len() ==> var_def_built(#[trigger] defs[i], f, st[i], st[i + 1])
}

pub open spec fn var_def_built(d: VarDef, f: Function, a: GenState, b: GenState) -> bool {
    exists|m1: GenState, slot: Value, m2: GenState|
        #[trigger] one_value(a, m1, slot, f, IrKind::Alloc) && #[trigger] var_defined(d, slot, m1, m2) && match d.init_val {
            None => b == m2,
            Some(iv) => exists|m3: GenState, v: Value, w: Value|
                #[trigger] expr_into(iv.expr, f, m2, m3, v) && #[trigger] one_value(m3, b, w, f, IrKind::Store(v, slot)),
        }
}

/// The variable of `d` is defined with the slot `slot` (and some type).
pub open spec fn var_defined(d: VarDef, slot: Value, a: GenState, b: GenState) -> bool {
    &&& b == with_names(a, b.names)
    &&& b.names.pushed(a.names)
    &&& b.names.wf()
    &&& b.names.local() == a.names.local().insert(d.ident@)
    &&& exists|ty: koopa::ir::Type| b.names@ == a.names@.insert(d.ident@, #[trigger] var_of(slot, ty))
}

pub open spec fn var_of(slot: Value, ty: koopa::ir::Type) -> Variable {
    Variable::Var(VarValue { value: slot, ty })
}


/// A variable whose slot is not known yet.
pub open spec fn any_var() -> Variable {
    Variable::Var(choose|v: VarValue| #[trigger] some_slot(v))
}

pub open spec fn some_slot(v: VarValue) -> bool {
    true
}

/// The names after the constants `defs` are defined, each with its value.
pub open spec fn consts_scan(defs: Seq<ConstDef>, names: Names) -> Names
    decreases defs.len(),
{
    if defs.len() == 0 {
        names
    } else {
        let n = consts_scan(defs.drop_last(), names);
        n.insert(defs.last().ident@, Variable::Const(ConstValue::Int(fold_expr(defs.last().init_val.expr.expr, n)->Const_0)))
    }
}

pub open spec fn consts_local(defs: Seq<ConstDef>, local: Set<Seq<char>>) -> Set<Seq<char>>
    decreases defs.len(),
{
    if defs.len() == 0 {
        local
    } else {
        consts_local(defs.drop_last(), local).insert(defs.last().ident@)
    }
}

/// The names after the variables `defs` are defined.
pub open spec fn vars_scan(defs: Seq<VarDef>, names: Names) -> Names
    decreases defs.len(),
{
    if defs.len() == 0 {
        names
    } else {
        vars_scan(defs.drop_last(), names).insert(defs.last().ident@, any_var())
    }
}

pub open spec fn vars_local(defs: Seq<VarDef>, local: Set<Seq<char>>) -> Set<Seq<char>>
    decreases defs.len(),
{
    if defs.len() == 0 {
        local
    } else {
        vars_local(defs.drop_last(), local).insert(defs.last().ident@)
    }
}

/// A constant can be defined: its name is new in its scope and its value a
/// constant expression.
pub open spec fn const_def_ok(d: ConstDef, names: Names, local: Set<Seq<char>>) -> bool {
    &&& !local.contains(d.ident@)
    &&& fold_expr(d.init_val.expr.expr, names) is Const
}

/// A variable can be defined: its name is new in its scope and its initial
/// value can be built (the variable itself is in scope there).
pub open spec fn var_def_ok(d: VarDef, names: Names, local: Set<Seq<char>>) -> bool {
    &&& !local.contains(d.ident@)
    &&& (d.init_val matches Some(iv) ==> plain_expr(iv.expr, readable(names).insert(d.ident@)))
}

pub open spec fn const_defs_ok(defs: Seq<ConstDef>, names: Names, local: Set<Seq<char>>) -> bool {
    forall|k: int| 0 <= k < defs.len() ==> const_def_ok(#[trigger] defs[k], consts_scan(defs.take(k), names), consts_local(defs.take(k), local))
}

pub open spec fn var_defs_ok(defs: Seq<VarDef>, names: Names, local: Set<Seq<char>>) -> bool {
    forall|k: int| 0 <= k < defs.len() ==> var_def_ok(#[trigger] defs[k], vars_scan(defs.take(k), names), vars_local(defs.take(k), local))
}

/// The names after an item.
pub open spec fn item_names(item: BlockItem, names: Names) -> Names {
    match item {
        BlockItem::Stmt(_) => names,
        BlockItem::Decl(Decl::Const(cd)) => consts_scan(cd.def@, names),
        BlockItem::Decl(Decl::Var(vd)) => vars_scan(vd.def@, names),
    }
}

/// The names defined in the innermost scope after an item.
pub open spec fn item_local(item: BlockItem, local: Set<Seq<char>>) -> Set<Seq<char>> {
    match item {
        BlockItem::Stmt(_) => local,
        BlockItem::Decl(Decl::Const(cd)) => consts_local(cd.def@, local),
        BlockItem::Decl(Decl::Var(vd)) => vars_local(vd.def@, local),
    }
}

pub open spec fn items_names(items: Seq<BlockItem>, names: Names) -> Names
    decreases items.len(),
{
    if items.len() == 0 {
        names
    } else {
        item_names(items.last(), items_names(items.drop_last(), names))
    }
}

pub open spec fn items_local(items: Seq<BlockItem>, local: Set<Seq<char>>) -> Set<Seq<char>>
    decreases items.len(),
{
    if items.len() == 0 {
        local
    } else {
        item_local(items.last(), items_local(items.drop_last(), local))
    }
}

/// Statement `s` can be built with the names `names` inside `depth` loops:
/// its expressions have no `&&`, `||` or call and name only what is in
/// scope, it assigns only to variables, `break` and `continue` stand in a
/// loop, every declaration is of `int`, defines each name once in its scope
/// and gives each constant a constant value, and no `else` is left unbound.
pub open spec fn stmt_ok(s: Stmt, names: Names, depth: nat) -> bool
    decreases s, 0nat,
{
    match s {
        Stmt::Expr(None) => true,
        Stmt::Expr(Some(e)) => plain_expr(e, readable(names)),
        Stmt::Assign(l, e) => (manager_get(names, l.ident@) matches Some(Variable::Var(_))) && plain_expr(e, readable(names)),
        Stmt::Return(None) => true,
        Stmt::Return(Some(e)) => plain_expr(e, readable(names)),
        Stmt::ControlFlow(_) => depth > 0,
        Stmt::Block(bl) => items_ok(bl.items@, names, Set::empty(), depth),
        Stmt::If(br) => plain_expr(br.cond, readable(names)) && stmt_ok(br.stmt, names, depth),
        Stmt::IfElse(ib, eb) => plain_expr(ib.cond, readable(names)) && stmt_ok(ib.stmt, names, depth) && stmt_ok(eb.stmt, names, depth),
        Stmt::While(wb) => plain_expr(wb.cond, readable(names)) && stmt_ok(wb.stmt, names, depth + 1),
        Stmt::Else(_) => false,
    }
}

/// Each item of a block can be built with the names left by the items
/// before it.
pub open spec fn items_ok(items: Seq<BlockItem>, names: Names, local: Set<Seq<char>>, depth: nat) -> bool
    decreases items, 0nat,
{
    forall|k: int| 0 <= k < items.len() ==> item_ok(#[trigger] items[k], items_names(items.take(k), names), items_local(items.take(k), local), depth)
}

pub open spec fn item_ok(item: BlockItem, names: Names, local: Set<Seq<char>>, depth: nat) -> bool
    decreases item, 1nat,
{
    match item {
        BlockItem::Stmt(s) => stmt_ok(s, names, depth),
        BlockItem::Decl(Decl::Const(cd)) => cd.ty == BType::Int && const_defs_ok(cd.def@, names, local),
        BlockItem::Decl(Decl::Var(vd)) => vd.ty == BType::Int && var_defs_ok(vd.def@, names, local),
    }
}

proof fn lemma_consts_scan_same(defs: Seq<ConstDef>, a: Names, b: Names)
    requires
        same_consts(a, b),
    ensures
        same_consts(consts_scan(defs, a), consts_scan(defs, b)),
    decreases defs.len(),
{
    if defs.len() > 0 {
        lemma_consts_scan_same(defs.drop_last(), a, b);
        lemma_fold_same_expr(defs.last().init_val.expr.expr, consts_scan(defs.drop_last(), a), consts_scan(defs.drop_last(), b));
    }
}

proof fn lemma_vars_scan_same(defs: Seq<VarDef>, a: Names, b: Names)
    requires
        same_consts(a, b),
    ensures
        same_consts(vars_scan(defs, a), vars_scan(defs, b)),
    decreases defs.len(),
{
    if defs.len() > 0 {
        lemma_vars_scan_same(defs.drop_last(), a, b);
    }
}

proof fn lemma_items_names_same(items: Seq<BlockItem>, a: Names, b: Names)
    requires
        same_consts(a, b),
    ensures
        same_consts(items_names(items, a), items_names(items, b)),
    decreases items.len(),
{
    if items.len() > 0 {
        lemma_items_names_same(items.drop_last(), a, b);
        let (x, y) = (items_names(items.drop_last(), a), items_names(items.drop_last(), b));
        match items.last() {
            BlockItem::Stmt(_) => {},
            BlockItem::Decl(Decl::Const(cd)) => lemma_consts_scan_same(cd.def@, x, y),
            BlockItem::Decl(Decl::Var(vd)) => lemma_vars_scan_same(vd.def@, x, y),
        }
    }
}

/// The same names are readable in two scopes with the same constants.
pub proof fn lemma_readable_same(a: Names, b: Names)
    requires
        same_consts(a, b),
    ensures
        readable(a) == readable(b),
{
    assert forall|k: Seq<char>| readable(a).contains(k) == readable(b).contains(k) by {
        if a.dom().contains(k) {
            assert(a[k] is Const <==> b[k] is Const);
        }
    }
    assert(readable(a) =~= readable(b));
}

/// Whether a statement can be built depends only on the constants in scope
/// and on which names are variables.
pub proof fn lemma_stmt_ok_same(s: Stmt, a: Names, b: Names, depth: nat)
    requires
        same_consts(a, b),
    ensures
        stmt_ok(s, a, depth) == stmt_ok(s, b, depth),
    decreases s, 0nat,
{
    lemma_readable_same(a, b);
    match s {
        Stmt::Assign(l, _) => {
            assert(a.dom() == b.dom());
            if a.dom().contains(l.ident@) {
                assert(a[l.ident@] is Const <==> b[l.ident@] is Const);
                assert((a[l.ident@] is Var) == (b[l.ident@] is Var));
            }
        },
        Stmt::Block(bl) => lemma_items_ok_same(bl.items@, a, b, Set::empty(), depth),
        Stmt::If(br) => lemma_stmt_ok_same(br.stmt, a, b, depth),
        Stmt::IfElse(ib, eb) => {
            lemma_stmt_ok_same(ib.stmt, a, b, depth);
            lemma_stmt_ok_same(eb.stmt, a, b, depth);
        },
        Stmt::While(wb) => lemma_stmt_ok_same(wb.stmt, a, b, depth + 1),
        _ => {},
    }
}

pub proof fn lemma_items_ok_same(items: Seq<BlockItem>, a: Names, b: Names, local: Set<Seq<char>>, depth: nat)
    requires
        same_consts(a, b),
    ensures
        items_ok(items, a, local, depth) == items_ok(items, b, local, depth),
    decreases items, 0nat,
{
    assert forall|k: int| 0 <= k < items.len() implies item_ok(#[trigger] items[k], items_names(items.take(k), a), items_local(items.take(k), local), depth)
        == item_ok(items[k], items_names(items.take(k), b), items_local(items.take(k), local), depth) by {
        lemma_items_names_same(items.take(k), a, b);
        lemma_item_ok_same(items[k], items_names(items.take(k), a), items_names(items.take(k), b), items_local(items.take(k), local), depth);
    }
}

pub proof fn lemma_item_ok_same(item: BlockItem, a: Names, b: Names, local: Set<Seq<char>>, depth: nat)
    requires
        same_consts(a, b),
    ensures
        item_ok(item, a, local, depth) == item_ok(item, b, local, depth),
    decreases item, 1nat,
{
    match item {
        BlockItem::Stmt(s) => lemma_stmt_ok_same(s, a, b, depth),
        BlockItem::Decl(Decl::Const(cd)) => {
            let defs = cd.def@;
            assert forall|k: int| 0 <= k < defs.len() implies const_def_ok(#[trigger] defs[k], consts_scan(defs.take(k), a), consts_local(defs.take(k), local))
                == const_def_ok(defs[k], consts_scan(defs.take(k), b), consts_local(defs.take(k), local)) by {
                lemma_consts_scan_same(defs.take(k), a, b);
                lemma_fold_same_expr(defs[k].init_val.expr.expr, consts_scan(defs.take(k), a), consts_scan(defs.take(k), b));
            }
        },
        BlockItem::Decl(Decl::Var(vd)) => {
            let defs = vd.def@;
            assert forall|k: int| 0 <= k < defs.len() implies var_def_ok(#[trigger] defs[k], vars_scan(defs.take(k), a), vars_local(defs.take(k), local))
                == var_def_ok(defs[k], vars_scan(defs.take(k), b), vars_local(defs.take(k), local)) by {
                lemma_vars_scan_same(defs.take(k), a, b);
                lemma_readable_same(vars_scan(defs.take(k), a), vars_scan(defs.take(k), b));
            }
        },
    }
}


/// `b` is a block of `f`.
pub open spec fn own_block(blocks: Map<BasicBlock, Function>, f: Function, b: BasicBlock) -> bool {
    blocks.dom().contains(b) && blocks[b] == f
}

/// Code for `f` can be built: the variables in scope are slots of `f`, and
/// the loops around lead to blocks of `f`.
pub open spec fn ready(p: Program, f: Function, m: VariableManager, loops: Seq<LoopTargets>) -> bool {
    &&& ir_funcs(p).contains(f)
    &&& scope_slots(m@, ir_values(p), f)
    &&& m.wf()
    &&& forall|i: int| 0 <= i < loops.len() ==> own_block(ir_blocks(p), f, (#[trigger] loops[i]).entry) && own_block(ir_blocks(p), f, loops[i].end)
}

/// `b` keeps every value, block and function of `a`.
pub open spec fn grown(a: Program, b: Program) -> bool {
    &&& ir_values(a).submap_of(ir_values(b))
    &&& ir_blocks(a).submap_of(ir_blocks(b))
    &&& ir_funcs(b) == ir_funcs(a)
    &&& ir_layout(b) == ir_layout(a)
}

pub(crate) proof fn lemma_grown(a: Program, b: Program, c: Program, f: Function, m: VariableManager, loops: Seq<LoopTargets>)
    requires
        grown(a, b),
    ensures
        grown(a, a),
        grown(b, c) ==> grown(a, c),
        ready(a, f, m, loops) ==> ready(b, f, m, loops),
{
    if ready(a, f, m, loops) {
        lemma_scope_grow(m@, ir_values(a), ir_values(b), f);
        assert forall|i: int| 0 <= i < loops.len() implies own_block(ir_blocks(b), f, (#[trigger] loops[i]).entry) && own_block(ir_blocks(b), f, loops[i].end) by {
            assert(ir_blocks(b).dom().contains(loops[i].entry));
            assert(ir_blocks(b).dom().contains(loops[i].end));
        }
    }
    if grown(b, c) {
        assert forall|k: Value| #[trigger] ir_values(a).dom().contains(k) implies ir_values(c).dom().contains(k) && ir_values(c)[k] == ir_values(a)[k] by {
            lemma_kept(ir_values(a), ir_values(b), k);
            lemma_kept(ir_values(b), ir_values(c), k);
        }
        assert forall|k: BasicBlock| #[trigger] ir_blocks(a).dom().contains(k) implies ir_blocks(c).dom().contains(k) && ir_blocks(c)[k] == ir_blocks(a)[k] by {
            assert(ir_blocks(b).dom().contains(k));
            assert(ir_blocks(c).dom().contains(k));
        }
        assert(ir_values(a).submap_of(ir_values(c)));
        assert(ir_blocks(a).submap_of(ir_blocks(c)));
    }
}

pub(crate) proof fn lemma_same_consts_trans(a: Names, b: Names, c: Names)
    requires
        same_consts(a, b),
        same_consts(b, c),
    ensures
        same_consts(a, c),
{
}

proof fn lemma_flows_cat(x: Seq<BlockFlow>, y: Seq<BlockFlow>, b: BlockFlow)
    ensures
        flows_view(x + y) == flows_view(x) + flows_view(y),
        flows_view(x.push(b)) == flows_view(x).push(FlowV { block: b.block, insts: b.insts@ }),
{
    assert(flows_view(x + y) =~~= flows_view(x) + flows_view(y));
    assert(flows_view(x.push(b)) =~~= flows_view(x).push(FlowV { block: b.block, insts: b.insts@ }));
}

/// Appends `inst` to the current block.
fn push_last(flows: &mut Vec<BlockFlow>, inst: Instruction)
    requires
        old(flows).len() > 0,
    ensures
        final(flows).len() == old(flows).len(),
        flows_view(final(flows)@) == append_last(flows_view(old(flows)@), seq![inst]),
{
    let ghost old_last = old(flows)@.last();
    let mut last = flows.pop().unwrap();
    last.insts.push(inst);
    proof {
        assert(last.insts@ =~= old_last.insts@ + seq![inst]);
    }
    flows.push(last);
    proof {
        let x = flows_view(flows@);
        let y = append_last(flows_view(old(flows)@), seq![inst]);
        assert(x.len() == y.len());
        assert forall|i: int| 0 <= i < x.len() implies x[i] == y[i] by {
            if i < x.len() - 1 {
                assert(flows@[i] == old(flows)@[i]);
            }
        }
        assert(x =~= y);
    }
}

/// A new block, empty and not under construction yet.
pub(crate) fn empty_block(b: BasicBlock) -> (r: Vec<BlockFlow>)
    ensures
        flows_view(r@) == seq![empty_flow(b)],
        r.len() == 1,
{
    let r = vec![BlockFlow { block: b, insts: Vec::new() }];
    proof {
        assert(flows_view(r@) =~~= seq![empty_flow(b)]);
    }
    r
}

/// Builds `e` at the end of the current block.
pub(crate) fn expr_last(e: &Expr, program: &mut Program, f: Function, m: &VariableManager, flows: &mut Vec<BlockFlow>) -> (v: Value)
    requires
        old(flows).len() > 0,
        generable(*old(program), f, m@),
        plain_expr(*e, readable(m@)),
    ensures
        final(flows).len() == old(flows).len(),
        expr_into(*e, f, state_of(*old(program), old(flows)@, *m), state_of(*final(program), final(flows)@, *m), v),
        generable(*final(program), f, m@),
        grown(*old(program), *final(program)),
{
    let mut last = flows.pop().unwrap();
    let ghost before = last.insts@;
    let v = expr_ir(e, program, f, m, &mut last.insts);
    flows.push(last);
    proof {
        let em = emits_expr(*e, m@, ir_values(*program), f, v)->0;
        assert(flows_view(flows@) =~~= append_last(flows_view(old(flows)@), em.insts));
        assert(ir_values(*old(program)).submap_of(ir_values(*program)));
    }
    v
}

/// Places the new value `w` at the end of the current block.
pub(crate) fn place(flows: &mut Vec<BlockFlow>, w: Value)
    requires
        old(flows).len() > 0,
    ensures
        final(flows).len() == old(flows).len(),
        flows_view(final(flows)@) == append_last(flows_view(old(flows)@), placed(w)),
{
    push_last(flows, Instruction::new(w, true));
}

/// Opens a new block of `f` after the current one.
fn open_block(program: &mut Program, f: Function, flows: &mut Vec<BlockFlow>) -> (nb: BasicBlock)
    requires
        ir_funcs(*old(program)).contains(f),
    ensures
        !ir_blocks(*old(program)).dom().contains(nb),
        ir_blocks(*final(program)) == ir_blocks(*old(program)).insert(nb, f),
        ir_values(*final(program)) == ir_values(*old(program)),
        ir_layout(*final(program)) == ir_layout(*old(program)),
        ir_funcs(*final(program)) == ir_funcs(*old(program)),
        flows_view(final(flows)@) == flows_view(old(flows)@).push(empty_flow(nb)),
        final(flows).len() == old(flows).len() + 1,
{
    let nb = new_block(program, f);
    let ghost before = flows@;
    flows.push(BlockFlow { block: nb, insts: Vec::new() });
    proof {
        assert(flows_view(flows@) =~~= flows_view(before).push(empty_flow(nb)));
    }
    nb
}


pub(crate) proof fn lemma_value_added(p0: Program, p1: Program, r: Value, f: Function, kind: IrKind)
    requires
        added(p0, p1, r, f, kind),
    ensures
        grown(p0, p1),
{
    assert(ir_values(p0).submap_of(ir_values(p1)));
}

pub(crate) proof fn lemma_block_added(p0: Program, p1: Program, nb: BasicBlock, f: Function)
    requires
        !ir_blocks(p0).dom().contains(nb),
        ir_blocks(p1) == ir_blocks(p0).insert(nb, f),
        ir_values(p1) == ir_values(p0),
        ir_funcs(p1) == ir_funcs(p0),
        ir_layout(p1) == ir_layout(p0),
    ensures
        grown(p0, p1),
{
    assert(ir_blocks(p0).submap_of(ir_blocks(p1)));
}

/// Builds statement `s` of `f` at the end of the blocks under construction
/// (`flows`, the current one last), with the names `m` and inside the loops
/// `loops` (innermost last). See [`stmt_built`] for the code of each
/// statement.
pub fn stmt_ir(
    s: &Stmt,
    program: &mut Program,
    f: Function,
    m: &mut VariableManager,
    flows: &mut Vec<BlockFlow>,
    loops: &mut Vec<LoopTargets>,
)
    requires
        ready(*old(program), f, *old(m), old(loops)@),
        old(flows).len() > 0,
        stmt_ok(*s, old(m)@, old(loops)@.len()),
    ensures
        ready(*final(program), f, *final(m), final(loops)@),
        final(flows).len() > 0,
        final(loops)@ == old(loops)@,
        final(m).same_as(*old(m)),
        grown(*old(program), *final(program)),
        stmt_built(*s, f, old(loops)@, state_of(*old(program), old(flows)@, *old(m)), state_of(*final(program), final(flows)@, *final(m))),
    decreases *s, 1nat,
{
    let ghost a = state_of(*program, flows@, *m);
    let ghost p0 = *program;
    proof {
        VariableManager::lemma_same_as_refl(*m);
        lemma_grown(p0, p0, p0, f, *m, loops@);
    }
    match s {
        Stmt::Expr(None) => {},
        Stmt::Expr(Some(e)) => {
            let v = expr_last(e, program, f, m, flows);
            proof {
                lemma_grown(p0, *program, *program, f, *m, loops@);
                assert(expr_into(*e, f, a, state_of(*program, flows@, *m), v));
            }
        },
        Stmt::Assign(l, e) => {
            let slot = match m.get(l.ident.as_str()) {
                Some(Variable::Var(var)) => *var.value(),
                _ => {
                    assert(false);
                    return;
                },
            };
            let v = expr_last(e, program, f, m, flows);
            let ghost p1 = *program;
            let ghost m1 = state_of(*program, flows@, *m);
            proof {
                assert(m@.dom().contains(l.ident@));
                assert(slot_value(ir_values(p0), f, slot));
                lemma_kept(ir_values(p0), ir_values(p1), slot);
            }
            let w = new_store(program, f, v, slot);
            place(flows, w);
            proof {
                lemma_value_added(p1, *program, w, f, IrKind::Store(v, slot));
                lemma_grown(p0, p1, *program, f, *m, loops@);
                lemma_grown(p0, *program, *program, f, *m, loops@);
                assert(expr_into(*e, f, a, m1, v));
                assert(one_value(m1, state_of(*program, flows@, *m), w, f, IrKind::Store(v, slot)));
            }
        },
        Stmt::Return(value) => {
            let ret = match value {
                Some(e) => Some(expr_last(e, program, f, m, flows)),
                None => None,
            };
            let ghost p1 = *program;
            let ghost m1 = state_of(*program, flows@, *m);
            let r = new_return(program, f, ret);
            place(flows, r);
            let ghost p2 = *program;
            let ghost m2 = state_of(*program, flows@, *m);
            let nb = open_block(program, f, flows);
            proof {
                lemma_value_added(p1, p2, r, f, IrKind::Return(ret));
                lemma_block_added(p2, *program, nb, f);
                lemma_grown(p0, p1, p2, f, *m, loops@);
                lemma_grown(p0, p2, *program, f, *m, loops@);
                lemma_grown(p0, *program, *program, f, *m, loops@);
                assert(one_value(m1, m2, r, f, IrKind::Return(ret)));
                assert(opened_block(m2, state_of(*program, flows@, *m), nb, f));
                if let Some(e) = value {
                    assert(expr_into(*e, f, a, m1, ret->0));
                }
            }
        },
        Stmt::ControlFlow(c) => {
            let t = loops[loops.len() - 1];
            let target = match c {
                ControlFlow::Break => t.end,
                ControlFlow::Continue => t.entry,
            };
            proof {
                assert(own_block(ir_blocks(p0), f, loops@[loops@.len() - 1].entry));
            }
            let j = new_jump(program, f, target);
            place(flows, j);
            let ghost p2 = *program;
            let ghost m2 = state_of(*program, flows@, *m);
            let nb = open_block(program, f, flows);
            proof {
                lemma_value_added(p0, p2, j, f, IrKind::Jump(target));
                lemma_block_added(p2, *program, nb, f);
                lemma_grown(p0, p2, *program, f, *m, loops@);
                lemma_grown(p0, *program, *program, f, *m, loops@);
                assert(loops@.last() == t);
                assert(one_value(a, m2, j, f, IrKind::Jump(target)));
                assert(opened_block(m2, state_of(*program, flows@, *m), nb, f));
            }
        },
        Stmt::Block(bl) => {
            let ghost outer = *m;
            let mark = m.open_scope();
            let ghost x0 = *m;
            proof {
                lemma_grown(p0, p0, p0, f, *m, loops@);
            }
            items_ir(&bl.items, program, f, m, flows, loops);
            let ghost x1 = state_of(*program, flows@, *m);
            proof {
                VariableManager::lemma_inside_grows(x0, *m, outer, mark);
            }
            m.close_scope(mark, Ghost(outer));
            proof {
                lemma_scope_grow(outer@, ir_values(p0), ir_values(*program), f);
                assert(block_rest(a, state_of(*program, flows@, *m), mark, x0, x1));
            }
        },
        Stmt::If(_) => if_ir(s, program, f, m, flows, loops),
        Stmt::IfElse(_, _) => if_else_ir(s, program, f, m, flows, loops),
        Stmt::While(_) => while_ir(s, program, f, m, flows, loops),
        Stmt::Else(_) => {},
    }
}


fn if_ir(s: &Stmt, program: &mut Program, f: Function, m: &mut VariableManager, flows: &mut Vec<BlockFlow>, loops: &mut Vec<LoopTargets>)
    requires
        s is If,
        ready(*old(program), f, *old(m), old(loops)@),
        old(flows).len() > 0,
        stmt_ok(*s, old(m)@, old(loops)@.len()),
    ensures
        ready(*final(program), f, *final(m), final(loops)@),
        final(flows).len() > 0,
        final(loops)@ == old(loops)@,
        final(m).same_as(*old(m)),
        grown(*old(program), *final(program)),
        stmt_built(*s, f, old(loops)@, state_of(*old(program), old(flows)@, *old(m)), state_of(*final(program), final(flows)@, *final(m))),
    decreases *s, 0nat,
{
    let br = match s {
        Stmt::If(br) => br,
        _ => {
            assert(false);
            return;
        },
    };
    let ghost a = state_of(*program, flows@, *m);
    let ghost p0 = *program;
    let end = new_block(program, f);
    let ghost a1 = state_of(*program, flows@, *m);
    let ghost p1 = *program;
    proof {
        lemma_block_added(p0, p1, end, f);
        lemma_grown(p0, p1, p1, f, *m, loops@);
    }
    let v = expr_last(&br.cond, program, f, m, flows);
    let ghost m1 = state_of(*program, flows@, *m);
    let ghost p2 = *program;
    let then = new_block(program, f);
    let ghost a2 = state_of(*program, flows@, *m);
    let ghost p3 = *program;
    proof {
        lemma_block_added(p2, p3, then, f);
        lemma_grown(p1, p2, p3, f, *m, loops@);
        lemma_grown(p0, p1, p3, f, *m, loops@);
        lemma_grown(p0, p3, p3, f, *m, loops@);
    }
    let mut body = empty_block(then);
    stmt_ir(&br.stmt, program, f, m, &mut body, loops);
    let ghost t1 = state_of(*program, body@, *m);
    let ghost p4 = *program;
    proof {
        VariableManager::lemma_same_as(*m, a.names);
        lemma_grown(p3, p4, p4, f, *m, loops@);
        lemma_grown(p1, p3, p4, f, *m, loops@);
        assert(ir_blocks(p1).dom().contains(end));
        assert(ir_blocks(p3).dom().contains(then));
        assert(grown(p1, p4));
        assert(ir_blocks(p1).submap_of(ir_blocks(p4)));
        assert(ir_blocks(p4).dom().contains(end));
        assert(ir_blocks(p4).dom().contains(then));
        lemma_kept(ir_values(p2), ir_values(p4), v);
    }
    let j = new_jump(program, f, end);
    place(&mut body, j);
    let ghost p5 = *program;
    proof {
        lemma_value_added(p4, p5, j, f, IrKind::Jump(end));
        lemma_grown(p2, p4, p5, f, *m, loops@);
        lemma_kept(ir_values(p2), ir_values(p5), v);
    }
    let w = new_branch(program, f, v, then, end);
    place(flows, w);
    let ghost p6 = *program;
    let ghost fl_w = flows@;
    let ghost body_j = body@;
    flows.append(&mut body);
    let ghost fl_cat = flows@;
    flows.push(BlockFlow { block: end, insts: Vec::new() });
    proof {
        lemma_value_added(p5, p6, w, f, IrKind::Branch(v, then, end));
        lemma_grown(p4, p5, p6, f, *m, loops@);
        lemma_grown(p0, p3, p4, f, *m, loops@);
        lemma_grown(p0, p4, p6, f, *m, loops@);
        lemma_grown(p0, p6, p6, f, *m, loops@);
        lemma_flows_cat(fl_w, body_j, flows@.last());
        let x = append_last(m1.flows, placed(w));
        let y = append_last(t1.flows, placed(j));
        assert((x + y).push(empty_flow(end)) =~= x + y.push(empty_flow(end)));
        assert(flows@ == fl_cat.push(flows@.last()));
        assert(fresh_block(a, a1, end, f));
        assert(expr_into(br.cond, f, a1, m1, v));
        assert(fresh_block(m1, a2, then, f));
        let b = state_of(*program, flows@, *m);
        assert(!t1.vals.dom().contains(j));
        assert(!t1.vals.dom().contains(w));
        assert(j != w);
        assert(b.vals == t1.vals.insert(j, IrInst { func: f, kind: IrKind::Jump(end) }).insert(w, IrInst { func: f, kind: IrKind::Branch(v, then, end) }));
        assert(b.blocks == t1.blocks);
        assert(b.flows == append_last(m1.flows, placed(w)) + append_last(t1.flows, placed(j)).push(empty_flow(end)));
        assert(b.names.same_as(a.names));
        assert(if_rest(br.cond, f, a, state_of(*program, flows@, *m), a1, m1, v, a2, t1, j, w, end, then));
    }
}

fn if_else_ir(s: &Stmt, program: &mut Program, f: Function, m: &mut VariableManager, flows: &mut Vec<BlockFlow>, loops: &mut Vec<LoopTargets>)
    requires
        s is IfElse,
        ready(*old(program), f, *old(m), old(loops)@),
        old(flows).len() > 0,
        stmt_ok(*s, old(m)@, old(loops)@.len()),
    ensures
        ready(*final(program), f, *final(m), final(loops)@),
        final(flows).len() > 0,
        final(loops)@ == old(loops)@,
        final(m).same_as(*old(m)),
        grown(*old(program), *final(program)),
        stmt_built(*s, f, old(loops)@, state_of(*old(program), old(flows)@, *old(m)), state_of(*final(program), final(flows)@, *final(m))),
    decreases *s, 0nat,
{
    let (ib, eb) = match s {
        Stmt::IfElse(ib, eb) => (ib, eb),
        _ => {
            assert(false);
            return;
        },
    };
    let ghost a = state_of(*program, flows@, *m);
    let ghost p0 = *program;
    let end = new_block(program, f);
    let ghost a1 = state_of(*program, flows@, *m);
    let ghost p1 = *program;
    proof {
        lemma_block_added(p0, p1, end, f);
        lemma_grown(p0, p1, p1, f, *m, loops@);
    }
    let v = expr_last(&ib.cond, program, f, m, flows);
    let ghost m1 = state_of(*program, flows@, *m);
    let ghost p2 = *program;
    let then = new_block(program, f);
    let ghost p2a = *program;
    let els = new_block(program, f);
    let ghost a2 = state_of(*program, flows@, *m);
    let ghost p3 = *program;
    proof {
        lemma_block_added(p2, p2a, then, f);
        lemma_block_added(p2a, p3, els, f);
        lemma_grown(p2, p2a, p3, f, *m, loops@);
        lemma_grown(p1, p2, p3, f, *m, loops@);
        lemma_grown(p0, p1, p3, f, *m, loops@);
        lemma_grown(p0, p3, p3, f, *m, loops@);
    }
    let mut body = empty_block(then);
    stmt_ir(&ib.stmt, program, f, m, &mut body, loops);
    let ghost t1 = state_of(*program, body@, *m);
    let ghost p4 = *program;
    proof {
        VariableManager::lemma_same_as(*m, a.names);
        lemma_grown(p3, p4, p4, f, *m, loops@);
        lemma_grown(p1, p3, p4, f, *m, loops@);
        assert(ir_blocks(p1).dom().contains(end));
        assert(grown(p1, p4));
        assert(ir_blocks(p1).submap_of(ir_blocks(p4)));
        assert(ir_blocks(p4).dom().contains(end));
    }
    let j1 = new_jump(program, f, end);
    place(&mut body, j1);
    let ghost p5 = *program;
    let ghost body_j1 = body@;
    body.push(BlockFlow { block: els, insts: Vec::new() });
    proof {
        lemma_value_added(p4, p5, j1, f, IrKind::Jump(end));
        lemma_grown(p4, p5, p5, f, *m, loops@);
        lemma_flows_cat(body_j1, body_j1, body@.last());
        assert(body@ == body_j1.push(body@.last()));
        assert(state_of(*program, body@, *m) == else_start(t1, f, j1, end, els));
    }
    stmt_ir(&eb.stmt, program, f, m, &mut body, loops);
    let ghost e1 = state_of(*program, body@, *m);
    let ghost p6 = *program;
    proof {
        VariableManager::lemma_same_as_trans(*m, t1.names, a.names);
        VariableManager::lemma_same_as(*m, a.names);
        lemma_grown(p5, p6, p6, f, *m, loops@);
        lemma_grown(p4, p5, p6, f, *m, loops@);
        lemma_grown(p1, p4, p6, f, *m, loops@);
        lemma_grown(p3, p4, p6, f, *m, loops@);
        assert(ir_blocks(p1).dom().contains(end));
        assert(ir_blocks(p3).dom().contains(then));
        assert(ir_blocks(p3).dom().contains(els));
        assert(grown(p3, p6));
        assert(grown(p1, p6));
        assert(ir_blocks(p6).dom().contains(end));
        assert(ir_blocks(p6).dom().contains(then));
        assert(ir_blocks(p6).dom().contains(els));
    }
    let j2 = new_jump(program, f, end);
    place(&mut body, j2);
    let ghost p7 = *program;
    proof {
        lemma_value_added(p6, p7, j2, f, IrKind::Jump(end));
        lemma_grown(p6, p7, p7, f, *m, loops@);
        lemma_grown(p2, p6, p7, f, *m, loops@);
        lemma_kept(ir_values(p2), ir_values(p7), v);
    }
    let w = new_branch(program, f, v, then, els);
    place(flows, w);
    let ghost p8 = *program;
    let ghost fl_w = flows@;
    let ghost body_j = body@;
    flows.append(&mut body);
    let ghost fl_cat = flows@;
    flows.push(BlockFlow { block: end, insts: Vec::new() });
    proof {
        lemma_value_added(p7, p8, w, f, IrKind::Branch(v, then, els));
        lemma_grown(p6, p7, p8, f, *m, loops@);
        lemma_grown(p0, p3, p6, f, *m, loops@);
        lemma_grown(p0, p6, p8, f, *m, loops@);
        lemma_grown(p0, p8, p8, f, *m, loops@);
        lemma_flows_cat(fl_w, body_j, flows@.last());
        let x = append_last(m1.flows, placed(w));
        let y = append_last(e1.flows, placed(j2));
        assert((x + y).push(empty_flow(end)) =~= x + y.push(empty_flow(end)));
        assert(flows@ == fl_cat.push(flows@.last()));
        assert(fresh_block(a, a1, end, f));
        assert(expr_into(ib.cond, f, a1, m1, v));
        let b = state_of(*program, flows@, *m);
        assert(!m1.blocks.dom().contains(then) && !m1.blocks.dom().contains(els) && then != els);
        assert(a2 == GenState { blocks: m1.blocks.insert(then, f).insert(els, f), ..m1 });
        assert(!t1.vals.dom().contains(j1));
        assert(!e1.vals.dom().contains(j2) && !e1.vals.dom().contains(w) && j2 != w);
        assert(b.vals == e1.vals.insert(j2, IrInst { func: f, kind: IrKind::Jump(end) }).insert(w, IrInst { func: f, kind: IrKind::Branch(v, then, els) }));
        assert(b.blocks == e1.blocks);
        assert(b.flows == append_last(m1.flows, placed(w)) + append_last(e1.flows, placed(j2)).push(empty_flow(end)));
        assert(b.names.same_as(a.names));
        assert(if_else_rest(ib.cond, f, a, state_of(*program, flows@, *m), a1, m1, v, a2, t1, e1, j1, j2, w, end, then, els));
    }
}

fn while_ir(s: &Stmt, program: &mut Program, f: Function, m: &mut VariableManager, flows: &mut Vec<BlockFlow>, loops: &mut Vec<LoopTargets>)
    requires
        s is While,
        ready(*old(program), f, *old(m), old(loops)@),
        old(flows).len() > 0,
        stmt_ok(*s, old(m)@, old(loops)@.len()),
    ensures
        ready(*final(program), f, *final(m), final(loops)@),
        final(flows).len() > 0,
        final(loops)@ == old(loops)@,
        final(m).same_as(*old(m)),
        grown(*old(program), *final(program)),
        stmt_built(*s, f, old(loops)@, state_of(*old(program), old(flows)@, *old(m)), state_of(*final(program), final(flows)@, *final(m))),
    decreases *s, 0nat,
{
    let wb = match s {
        Stmt::While(wb) => wb,
        _ => {
            assert(false);
            return;
        },
    };
    let ghost a = state_of(*program, flows@, *m);
    let ghost p0 = *program;
    let entry = new_block(program, f);
    let ghost pa = *program;
    let body_b = new_block(program, f);
    let ghost pb = *program;
    let end = new_block(program, f);
    let ghost pc = *program;
    proof {
        lemma_block_added(p0, pa, entry, f);
        lemma_block_added(pa, pb, body_b, f);
        lemma_block_added(pb, pc, end, f);
        lemma_grown(pa, pb, pc, f, *m, loops@);
        lemma_grown(p0, pa, pc, f, *m, loops@);
        lemma_grown(p0, pc, pc, f, *m, loops@);
    }
    let j1 = new_jump(program, f, entry);
    place(flows, j1);
    let ghost p1 = *program;
    let ghost fl_j1 = flows@;
    let mut cond = empty_block(entry);
    let ghost a1 = state_of(*program, cond@, *m);
    proof {
        lemma_value_added(pc, p1, j1, f, IrKind::Jump(entry));
        lemma_grown(p0, pc, p1, f, *m, loops@);
        lemma_grown(p0, p1, p1, f, *m, loops@);
    }
    let v = expr_last(&wb.cond, program, f, m, &mut cond);
    let ghost c1 = state_of(*program, cond@, *m);
    let ghost p2 = *program;
    proof {
        lemma_grown(p1, p2, p2, f, *m, loops@);
        lemma_grown(p0, p1, p2, f, *m, loops@);
        assert(ir_blocks(p2).dom().contains(body_b));
        assert(ir_blocks(p2).dom().contains(end));
    }
    let w = new_branch(program, f, v, body_b, end);
    place(&mut cond, w);
    let ghost cond_w = cond@;
    cond.push(BlockFlow { block: body_b, insts: Vec::new() });
    let ghost p3 = *program;
    proof {
        lemma_value_added(p2, p3, w, f, IrKind::Branch(v, body_b, end));
        lemma_grown(p2, p3, p3, f, *m, loops@);
        lemma_grown(p0, p2, p3, f, *m, loops@);
        lemma_flows_cat(cond_w, cond_w, cond@.last());
        assert(cond@ == cond_w.push(cond@.last()));
        assert(state_of(*program, cond@, *m) == body_start(c1, f, v, w, body_b, end));
    }
    let ghost outer_loops = loops@;
    loops.push(LoopTargets { entry, end });
    proof {
        assert forall|i: int| 0 <= i < loops@.len() implies own_block(ir_blocks(p3), f, (#[trigger] loops@[i]).entry) && own_block(ir_blocks(p3), f, loops@[i].end) by {
            if i < outer_loops.len() {
                assert(loops@[i] == outer_loops[i]);
            } else {
                assert(ir_blocks(p3).dom().contains(entry));
                assert(ir_blocks(p3).dom().contains(end));
            }
        }
    }
    stmt_ir(&wb.stmt, program, f, m, &mut cond, loops);
    let ghost x1 = state_of(*program, cond@, *m);
    let ghost p4 = *program;
    let _ = loops.pop();
    proof {
        assert(loops@ =~= outer_loops);
        VariableManager::lemma_same_as(*m, a.names);
        lemma_grown(p3, p4, p4, f, *m, loops@);
        lemma_grown(p0, p3, p4, f, *m, loops@);
        lemma_grown(pa, p3, p4, f, *m, loops@);
        assert(ir_blocks(p4).dom().contains(entry));
    }
    let j2 = new_jump(program, f, entry);
    place(&mut cond, j2);
    let ghost p5 = *program;
    let ghost cond_j = cond@;
    flows.append(&mut cond);
    let ghost fl_cat = flows@;
    flows.push(BlockFlow { block: end, insts: Vec::new() });
    proof {
        lemma_value_added(p4, p5, j2, f, IrKind::Jump(entry));
        lemma_grown(p0, p4, p5, f, *m, loops@);
        lemma_grown(p0, p5, p5, f, *m, loops@);
        lemma_flows_cat(fl_j1, cond_j, flows@.last());
        let x = append_last(a.flows, placed(j1));
        let y = append_last(x1.flows, placed(j2));
        assert((x + y).push(empty_flow(end)) =~= x + y.push(empty_flow(end)));
        assert(flows@ == fl_cat.push(flows@.last()));
        assert(a1 == GenState {
            vals: a.vals.insert(j1, IrInst { func: f, kind: IrKind::Jump(entry) }),
            blocks: a.blocks.insert(entry, f).insert(body_b, f).insert(end, f),
            flows: seq![empty_flow(entry)],
            names: a.names,
        });
        assert(expr_into(wb.cond, f, a1, c1, v));
        let b = state_of(*program, flows@, *m);
        assert(!a.blocks.dom().contains(entry) && !a.blocks.dom().contains(body_b) && !a.blocks.dom().contains(end));
        assert(entry != body_b && entry != end && body_b != end);
        assert(!a.vals.dom().contains(j1));
        assert(!c1.vals.dom().contains(w));
        assert(!x1.vals.dom().contains(j2));
        assert(b.vals == x1.vals.insert(j2, IrInst { func: f, kind: IrKind::Jump(entry) }));
        assert(b.blocks == x1.blocks);
        assert(b.flows == append_last(a.flows, placed(j1)) + append_last(x1.flows, placed(j2)).push(empty_flow(end)));
        assert(b.names.same_as(a.names));
        assert(while_rest(wb.cond, f, a, state_of(*program, flows@, *m), a1, j1, c1, v, w, x1, j2, entry, body_b, end));
    }
}


proof fn lemma_items_ok_at(items: Seq<BlockItem>, names: Names, local: Set<Seq<char>>, depth: nat, i: int)
    requires
        items_ok(items, names, local, depth),
        0 <= i < items.len(),
    ensures
        item_ok(items[i], items_names(items.take(i), names), items_local(items.take(i), local), depth),
{
    reveal(items_ok);
}

proof fn lemma_items_step(items: Seq<BlockItem>, i: int, n0: Names, l0: Set<Seq<char>>)
    requires
        0 <= i < items.len(),
    ensures
        items_names(items.take(i + 1), n0) == item_names(items[i], items_names(items.take(i), n0)),
        items_local(items.take(i + 1), l0) == item_local(items[i], items_local(items.take(i), l0)),
{
    let t = items.take(i + 1);
    assert(t.drop_last() =~= items.take(i));
    assert(t.last() == items[i]);
}

/// Every variable of `b` is one of `a`.
pub open spec fn vars_kept(a: Names, b: Names) -> bool {
    forall|k: Seq<char>| #[trigger] b.dom().contains(k) && b[k] is Var ==> a.dom().contains(k) && a[k] == b[k]
}

pub(crate) proof fn lemma_vars_kept(a: Names, b: Names, vals: Map<Value, IrInst>, f: Function)
    requires
        scope_slots(a, vals, f),
        vars_kept(a, b),
    ensures
        scope_slots(b, vals, f),
{
    assert forall|k: Seq<char>| #[trigger] b.dom().contains(k) implies (b[k] matches Variable::Var(var) ==> slot_value(vals, f, var.value)) by {
        if b[k] is Var {
            assert(a.dom().contains(k));
        }
    }
}

/// Builds the items of a block in order (see [`items_built`]).
#[verifier::rlimit(60)]
pub fn items_ir(
    items: &Vec<BlockItem>,
    program: &mut Program,
    f: Function,
    m: &mut VariableManager,
    flows: &mut Vec<BlockFlow>,
    loops: &mut Vec<LoopTargets>,
)
    requires
        ready(*old(program), f, *old(m), old(loops)@),
        old(flows).len() > 0,
        items_ok(items@, old(m)@, old(m).local(), old(loops)@.len()),
    ensures
        ready(*final(program), f, *final(m), final(loops)@),
        final(flows).len() > 0,
        final(loops)@ == old(loops)@,
        final(m).grows(*old(m)),
        grown(*old(program), *final(program)),
        items_built(items@, f, old(loops)@, state_of(*old(program), old(flows)@, *old(m)), state_of(*final(program), final(flows)@, *final(m))),
    decreases items@, 0nat,
{
    let ghost a0 = state_of(*program, flows@, *m);
    let ghost n0 = m@;
    let ghost l0 = m.local();
    let ghost p0 = *program;
    let ghost m0 = *m;
    proof {
        VariableManager::lemma_grows(*m, *m, *m);
        lemma_grown(p0, p0, p0, f, *m, loops@);
        assert(items@.take(0) =~= Seq::<BlockItem>::empty());
    }
    let ghost mut st: Seq<GenState> = seq![a0];
    let mut i: usize = 0;
    while i < items.len()
        invariant
            0 <= i <= items.len(),
            ready(*program, f, *m, loops@),
            flows.len() > 0,
            loops@ == old(loops)@,
            m.grows(m0),
            grown(p0, *program),
            st.len() == i + 1,
            st[0] == a0,
            st.last() == state_of(*program, flows@, *m),
            forall|j: int| 0 <= j < i ==> item_built(#[trigger] items@[j], f, loops@, st[j], st[j + 1]),
            same_consts(m@, items_names(items@.take(i as int), n0)),
            m.local() == items_local(items@.take(i as int), l0),
            items_ok(items@, n0, l0, loops@.len()),
        decreases items.len() - i,
    {
        let ghost mid = state_of(*program, flows@, *m);
        let ghost mprev = *m;
        let ghost pprev = *program;
        proof {
            lemma_items_ok_at(items@, n0, l0, loops@.len(), i as int);
            lemma_item_ok_same(items@[i as int], m@, items_names(items@.take(i as int), n0), m.local(), loops@.len());
        }
        item_ir(&items[i], program, f, m, flows, loops);
        proof {
            let t = items@.take(i as int + 1);
            lemma_items_step(items@, i as int, n0, l0);
            let old_st = st;
            st = st.push(state_of(*program, flows@, *m));
            assert forall|j: int| 0 <= j < i + 1 implies item_built(#[trigger] items@[j], f, loops@, st[j], st[j + 1]) by {
                if j < i {
                    assert(st[j] == old_st[j] && st[j + 1] == old_st[j + 1]);
                }
            }
            lemma_items_names_item(items@[i as int], mprev@, items_names(items@.take(i as int), n0));
            lemma_same_consts_trans(m@, item_names(items@[i as int], mprev@), items_names(t, n0));
            VariableManager::lemma_grows(m0, mprev, *m);
            lemma_grown(p0, pprev, *program, f, *m, loops@);
        }
        i = i + 1;
    }
    proof {
        assert(items_chain(items@, f, loops@, st));
        assert(chain_ends(st, a0, state_of(*program, flows@, *m)));
    }
}

proof fn lemma_items_names_item(item: BlockItem, a: Names, b: Names)
    requires
        same_consts(a, b),
    ensures
        same_consts(item_names(item, a), item_names(item, b)),
{
    match item {
        BlockItem::Stmt(_) => {},
        BlockItem::Decl(Decl::Const(cd)) => lemma_consts_scan_same(cd.def@, a, b),
        BlockItem::Decl(Decl::Var(vd)) => lemma_vars_scan_same(vd.def@, a, b),
    }
}

/// Builds one item of a block (see [`item_built`]).
fn item_ir(
    item: &BlockItem,
    program: &mut Program,
    f: Function,
    m: &mut VariableManager,
    flows: &mut Vec<BlockFlow>,
    loops: &mut Vec<LoopTargets>,
)
    requires
        ready(*old(program), f, *old(m), old(loops)@),
        old(flows).len() > 0,
        item_ok(*item, old(m)@, old(m).local(), old(loops)@.len()),
    ensures
        ready(*final(program), f, *final(m), final(loops)@),
        final(flows).len() > 0,
        final(loops)@ == old(loops)@,
        final(m).grows(*old(m)),
        grown(*old(program), *final(program)),
        item_built(*item, f, old(loops)@, state_of(*old(program), old(flows)@, *old(m)), state_of(*final(program), final(flows)@, *final(m))),
        same_consts(final(m)@, item_names(*item, old(m)@)),
        final(m).local() == item_local(*item, old(m).local()),
    decreases *item, 0nat,
{
    let ghost a = state_of(*program, flows@, *m);
    let ghost p0 = *program;
    let ghost m0 = *m;
    match item {
        BlockItem::Stmt(st) => {
            stmt_ir(st, program, f, m, flows, loops);
            proof {
                VariableManager::lemma_same_as(*m, m0);
                VariableManager::lemma_grows(m0, *m, *m);
            }
        },
        BlockItem::Decl(Decl::Const(cd)) => {
            const_decl_ir(cd, m, Ghost(a));
            proof {
                lemma_vars_kept(m0@, m@, ir_values(p0), f);
                VariableManager::lemma_grows(m0, *m, *m);
            }
        },
        BlockItem::Decl(Decl::Var(vd)) => {
            var_decl_ir(vd, program, f, m, flows);
            proof {
                lemma_grown(p0, *program, *program, f, m0, loops@);
                assert forall|i: int| 0 <= i < loops@.len() implies own_block(ir_blocks(*program), f, (#[trigger] loops@[i]).entry) && own_block(ir_blocks(*program), f, loops@[i].end) by {
                    assert(own_block(ir_blocks(p0), f, loops@[i].entry));
                    assert(own_block(ir_blocks(p0), f, loops@[i].end));
                }
            }
        },
    }
}

/// `b` keeps the blocks under construction of `a`, in place, and maybe
/// more after them.
pub open spec fn keeps_blocks(a: Seq<FlowV>, b: Seq<FlowV>) -> bool {
    &&& a.len() <= b.len()
    &&& forall|i: int| 0 <= i < a.len() ==> (#[trigger] b[i]).block == a[i].block
    &&& forall|i: int| 0 <= i < a.len() - 1 ==> #[trigger] b[i] == a[i]
}

proof fn lemma_append_last_keeps(fl: Seq<FlowV>, x: Seq<Instruction>)
    requires
        fl.len() > 0,
    ensures
        keeps_blocks(fl, append_last(fl, x)),
        append_last(fl, x).len() == fl.len(),
{
    assert forall|i: int| 0 <= i < fl.len() implies (#[trigger] append_last(fl, x)[i]).block == fl[i].block by {
        if i == fl.len() - 1 {
        } else {
        }
    }
    assert forall|i: int| 0 <= i < fl.len() - 1 implies #[trigger] append_last(fl, x)[i] == fl[i] by {
    }
}

proof fn lemma_keeps_trans(a: Seq<FlowV>, b: Seq<FlowV>, c: Seq<FlowV>)
    requires
        keeps_blocks(a, b),
        keeps_blocks(b, c),
    ensures
        keeps_blocks(a, c),
{
    assert forall|i: int| 0 <= i < a.len() implies (#[trigger] c[i]).block == a[i].block by {
        assert(b[i].block == a[i].block);
    }
    assert forall|i: int| 0 <= i < a.len() - 1 implies #[trigger] c[i] == a[i] by {
        assert(b[i] == a[i]);
    }
}

proof fn lemma_keeps_cat(a: Seq<FlowV>, x: Seq<FlowV>, y: Seq<FlowV>)
    requires
        keeps_blocks(a, x),
    ensures
        keeps_blocks(a, x + y),
{
    assert forall|i: int| 0 <= i < a.len() implies (#[trigger] (x + y)[i]).block == a[i].block by {
        assert((x + y)[i] == x[i]);
    }
    assert forall|i: int| 0 <= i < a.len() - 1 implies #[trigger] (x + y)[i] == a[i] by {
        assert((x + y)[i] == x[i]);
    }
}

/// Building a statement keeps the blocks under construction where they were
/// and only adds blocks after them.
pub proof fn lemma_stmt_keeps(s: Stmt, f: Function, loops: Seq<LoopTargets>, a: GenState, b: GenState)
    requires
        stmt_built(s, f, loops, a, b),
        a.flows.len() > 0,
    ensures
        keeps_blocks(a.flows, b.flows),
    decreases s, 0nat, 0nat,
{
    match s {
        Stmt::Expr(None) => {},
        Stmt::Expr(Some(e)) => {
            let v = choose|v: Value| #[trigger] expr_into(e, f, a, b, v);
            lemma_append_last_keeps(a.flows, emits_expr(e, a.names@, b.vals, f, v)->0.insts);
        },
        Stmt::Assign(l, e) => {
            if let Some(Variable::Var(var)) = manager_get(a.names@, l.ident@) {
                let (m1, v, w) = choose|m1: GenState, v: Value, w: Value|
                    #[trigger] expr_into(e, f, a, m1, v) && #[trigger] one_value(m1, b, w, f, IrKind::Store(v, var.value));
                lemma_append_last_keeps(a.flows, emits_expr(e, a.names@, m1.vals, f, v)->0.insts);
                lemma_append_last_keeps(m1.flows, placed(w));
                lemma_keeps_trans(a.flows, m1.flows, b.flows);
            }
        },
        Stmt::Return(value) => {
            let m0 = match value {
                None => a,
                Some(e) => {
                    let (m1, v) = choose|m1: GenState, v: Value| #[trigger] expr_into(e, f, a, m1, v) && returned(m1, b, f, Some(v));
                    lemma_append_last_keeps(a.flows, emits_expr(e, a.names@, m1.vals, f, v)->0.insts);
                    m1
                },
            };
            if value is None {
                assert(returned(m0, b, f, None));
            }
            lemma_returned_keeps(m0, b, f, a);
        },
        Stmt::ControlFlow(c) => {
            let target = match c {
                ControlFlow::Break => loops.last().end,
                ControlFlow::Continue => loops.last().entry,
            };
            let (m1, j, nb) = choose|m1: GenState, j: Value, nb: BasicBlock|
                #[trigger] one_value(a, m1, j, f, IrKind::Jump(target)) && #[trigger] opened_block(m1, b, nb, f);
            lemma_append_last_keeps(a.flows, placed(j));
            lemma_keeps_cat(m1.flows, m1.flows, seq![empty_flow(nb)]);
            lemma_keeps_trans(a.flows, m1.flows, b.flows);
        },
        Stmt::Block(bl) => {
            let (mark, x0, x1) = choose|mark: usize, x0: VariableManager, x1: GenState|
                #[trigger] block_rest(a, b, mark, x0, x1) && items_built(bl.items@, f, loops, with_names(a, x0), x1);
            lemma_items_keeps(bl.items@, f, loops, with_names(a, x0), x1);
        },
        Stmt::If(br) => {
            let (a1, m1, v, a2, t1, j, w, end, then) = choose|a1: GenState, m1: GenState, v: Value, a2: GenState, t1: GenState, j: Value, w: Value, end: BasicBlock, then: BasicBlock|
                #[trigger] if_rest(br.cond, f, a, b, a1, m1, v, a2, t1, j, w, end, then)
                    && stmt_built(br.stmt, f, loops, with_flows(a2, seq![empty_flow(then)]), t1);
            lemma_append_last_keeps(a1.flows, emits_expr(br.cond, a1.names@, m1.vals, f, v)->0.insts);
            lemma_append_last_keeps(m1.flows, placed(w));
            lemma_keeps_trans(a.flows, m1.flows, append_last(m1.flows, placed(w)));
            lemma_keeps_cat(a.flows, append_last(m1.flows, placed(w)), append_last(t1.flows, placed(j)).push(empty_flow(end)));
        },
        Stmt::IfElse(ib, eb) => {
            let (a1, m1, v, a2, t1, e1, j1, j2, w, end, then, els) = choose|a1: GenState, m1: GenState, v: Value, a2: GenState, t1: GenState, e1: GenState,
                j1: Value, j2: Value, w: Value, end: BasicBlock, then: BasicBlock, els: BasicBlock|
                #[trigger] if_else_rest(ib.cond, f, a, b, a1, m1, v, a2, t1, e1, j1, j2, w, end, then, els)
                    && stmt_built(ib.stmt, f, loops, with_flows(a2, seq![empty_flow(then)]), t1)
                    && stmt_built(eb.stmt, f, loops, else_start(t1, f, j1, end, els), e1);
            lemma_append_last_keeps(a1.flows, emits_expr(ib.cond, a1.names@, m1.vals, f, v)->0.insts);
            lemma_append_last_keeps(m1.flows, placed(w));
            lemma_keeps_trans(a.flows, m1.flows, append_last(m1.flows, placed(w)));
            lemma_keeps_cat(a.flows, append_last(m1.flows, placed(w)), append_last(e1.flows, placed(j2)).push(empty_flow(end)));
        },
        Stmt::While(wb) => {
            let (a1, j1, c1, v, w, x1, j2, entry, body, end) = choose|a1: GenState, j1: Value, c1: GenState, v: Value, w: Value, x1: GenState, j2: Value,
                entry: BasicBlock, body: BasicBlock, end: BasicBlock|
                #[trigger] while_rest(wb.cond, f, a, b, a1, j1, c1, v, w, x1, j2, entry, body, end)
                    && stmt_built(wb.stmt, f, loops.push(LoopTargets { entry, end }), body_start(c1, f, v, w, body, end), x1);
            lemma_append_last_keeps(a.flows, placed(j1));
            lemma_keeps_cat(a.flows, append_last(a.flows, placed(j1)), append_last(x1.flows, placed(j2)).push(empty_flow(end)));
        },
        Stmt::Else(_) => {},
    }
}

proof fn lemma_returned_keeps(m0: GenState, b: GenState, f: Function, a: GenState)
    requires
        exists|r: Option<Value>| returned(m0, b, f, r),
        keeps_blocks(a.flows, m0.flows),
        m0.flows.len() > 0,
    ensures
        keeps_blocks(a.flows, b.flows),
{
    let r = choose|r: Option<Value>| returned(m0, b, f, r);
    let (m1, x, nb) = choose|m1: GenState, x: Value, nb: BasicBlock|
        #[trigger] one_value(m0, m1, x, f, IrKind::Return(r)) && #[trigger] opened_block(m1, b, nb, f);
    lemma_append_last_keeps(m0.flows, placed(x));
    lemma_keeps_cat(m1.flows, m1.flows, seq![empty_flow(nb)]);
    lemma_keeps_trans(m0.flows, m1.flows, b.flows);
    lemma_keeps_trans(a.flows, m0.flows, b.flows);
}

pub proof fn lemma_items_keeps(items: Seq<BlockItem>, f: Function, loops: Seq<LoopTargets>, a: GenState, b: GenState)
    requires
        items_built(items, f, loops, a, b),
        a.flows.len() > 0,
    ensures
        keeps_blocks(a.flows, b.flows),
    decreases items, 1nat, 0nat,
{
    let st = choose|st: Seq<GenState>| #[trigger] chain_ends(st, a, b) && items_chain(items, f, loops, st);
    lemma_chain_keeps(items, f, loops, st, items.len() as int);
}

proof fn lemma_chain_keeps(items: Seq<BlockItem>, f: Function, loops: Seq<LoopTargets>, st: Seq<GenState>, k: int)
    requires
        items_chain(items, f, loops, st),
        0 <= k <= items.len(),
        st[0].flows.len() > 0,
    ensures
        keeps_blocks(st[0].flows, st[k].flows),
    decreases items, 0nat, k,
{
    if k > 0 {
        lemma_chain_keeps(items, f, loops, st, k - 1);
        assert(item_built(items[k - 1], f, loops, st[k - 1], st[k]));
        lemma_item_keeps(items[k - 1], f, loops, st[k - 1], st[k]);
        lemma_keeps_trans(st[0].flows, st[k - 1].flows, st[k].flows);
    }
}

proof fn lemma_item_keeps(item: BlockItem, f: Function, loops: Seq<LoopTargets>, a: GenState, b: GenState)
    requires
        item_built(item, f, loops, a, b),
        a.flows.len() > 0,
    ensures
        keeps_blocks(a.flows, b.flows),
    decreases item, 0nat, 0nat,
{
    match item {
        BlockItem::Stmt(s) => lemma_stmt_keeps(s, f, loops, a, b),
        BlockItem::Decl(Decl::Const(cd)) => {
            let st = choose|st: Seq<GenState>| #[trigger] const_chain(cd.def@, st) && st[0] == a && st.last() == b;
            assert(b.flows == a.flows) by {
                lemma_const_chain_flows(cd.def@, st, cd.def@.len() as int);
            }
        },
        BlockItem::Decl(Decl::Var(vd)) => {
            let st = choose|st: Seq<GenState>| #[trigger] var_chain(vd.def@, f, st) && st[0] == a && st.last() == b;
            lemma_var_chain_keeps(vd.def@, f, st, vd.def@.len() as int);
        },
    }
}

proof fn lemma_const_chain_flows(defs: Seq<ConstDef>, st: Seq<GenState>, k: int)
    requires
        const_chain(defs, st),
        0 <= k <= defs.len(),
    ensures
        st[k].flows == st[0].flows,
        st[k].vals == st[0].vals,
    decreases k,
{
    if k > 0 {
        lemma_const_chain_flows(defs, st, k - 1);
        assert(const_def_built(defs[k - 1], st[k - 1], st[k]));
    }
}

proof fn lemma_var_chain_keeps(defs: Seq<VarDef>, f: Function, st: Seq<GenState>, k: int)
    requires
        var_chain(defs, f, st),
        0 <= k <= defs.len(),
        st[0].flows.len() > 0,
    ensures
        keeps_blocks(st[0].flows, st[k].flows),
    decreases k,
{
    if k > 0 {
        lemma_var_chain_keeps(defs, f, st, k - 1);
        assert(var_def_built(defs[k - 1], f, st[k - 1], st[k]));
        let d = defs[k - 1];
        let (a, b) = (st[k - 1], st[k]);
        let (m1, slot, m2) = choose|m1: GenState, slot: Value, m2: GenState|
            #[trigger] one_value(a, m1, slot, f, IrKind::Alloc) && #[trigger] var_defined(d, slot, m1, m2) && match d.init_val {
                None => b == m2,
                Some(iv) => exists|m3: GenState, v: Value, w: Value|
                    #[trigger] expr_into(iv.expr, f, m2, m3, v) && #[trigger] one_value(m3, b, w, f, IrKind::Store(v, slot)),
            };
        lemma_keeps_trans(st[0].flows, a.flows, a.flows);
        lemma_append_last_keeps(a.flows, placed(slot));
        if let Some(iv) = d.init_val {
            let (m3, v, w) = choose|m3: GenState, v: Value, w: Value|
                #[trigger] expr_into(iv.expr, f, m2, m3, v) && #[trigger] one_value(m3, b, w, f, IrKind::Store(v, slot));
            lemma_append_last_keeps(m2.flows, emits_expr(iv.expr, m2.names@, m3.vals, f, v)->0.insts);
            lemma_append_last_keeps(m3.flows, placed(w));
            lemma_keeps_trans(m2.flows, m3.flows, b.flows);
        }
        lemma_keeps_trans(a.flows, m1.flows, b.flows);
        lemma_keeps_trans(st[0].flows, a.flows, b.flows);
    }
}

proof fn lemma_one_value_grows(a: GenState, b: GenState, w: Value, f: Function, kind: IrKind)
    requires
        one_value(a, b, w, f, kind),
    ensures
        a.vals.submap_of(b.vals),
{
    lemma_fresh_insert(a.vals, w, IrInst { func: f, kind });
}

/// Building a statement keeps every value made before, as it was.
pub proof fn lemma_stmt_grows(s: Stmt, f: Function, loops: Seq<LoopTargets>, a: GenState, b: GenState)
    requires
        stmt_built(s, f, loops, a, b),
    ensures
        a.vals.submap_of(b.vals),
    decreases s, 0nat, 0nat,
{
    match s {
        Stmt::Expr(None) => {},
        Stmt::Expr(Some(e)) => {},
        Stmt::Assign(l, e) => {
            if let Some(Variable::Var(var)) = manager_get(a.names@, l.ident@) {
                let (m1, v, w) = choose|m1: GenState, v: Value, w: Value|
                    #[trigger] expr_into(e, f, a, m1, v) && #[trigger] one_value(m1, b, w, f, IrKind::Store(v, var.value));
                lemma_one_value_grows(m1, b, w, f, IrKind::Store(v, var.value));
                lemma_trans(a.vals, m1.vals, b.vals);
            }
        },
        Stmt::Return(value) => {
            let (m0, r) = match value {
                None => (a, None),
                Some(e) => {
                    let (m1, v) = choose|m1: GenState, v: Value| #[trigger] expr_into(e, f, a, m1, v) && returned(m1, b, f, Some(v));
                    (m1, Some(v))
                },
            };
            let (m1, x, nb) = choose|m1: GenState, x: Value, nb: BasicBlock|
                #[trigger] one_value(m0, m1, x, f, IrKind::Return(r)) && #[trigger] opened_block(m1, b, nb, f);
            lemma_one_value_grows(m0, m1, x, f, IrKind::Return(r));
            lemma_trans(a.vals, m0.vals, m1.vals);
        },
        Stmt::ControlFlow(c) => {
            let target = match c {
                ControlFlow::Break => loops.last().end,
                ControlFlow::Continue => loops.last().entry,
            };
            let (m1, j, nb) = choose|m1: GenState, j: Value, nb: BasicBlock|
                #[trigger] one_value(a, m1, j, f, IrKind::Jump(target)) && #[trigger] opened_block(m1, b, nb, f);
            lemma_one_value_grows(a, m1, j, f, IrKind::Jump(target));
        },
        Stmt::Block(bl) => {
            let (mark, x0, x1) = choose|mark: usize, x0: VariableManager, x1: GenState|
                #[trigger] block_rest(a, b, mark, x0, x1) && items_built(bl.items@, f, loops, with_names(a, x0), x1);
            lemma_items_grows(bl.items@, f, loops, with_names(a, x0), x1);
        },
        Stmt::If(br) => {
            let (a1, m1, v, a2, t1, j, w, end, then) = choose|a1: GenState, m1: GenState, v: Value, a2: GenState, t1: GenState, j: Value, w: Value, end: BasicBlock, then: BasicBlock|
                #[trigger] if_rest(br.cond, f, a, b, a1, m1, v, a2, t1, j, w, end, then)
                    && stmt_built(br.stmt, f, loops, with_flows(a2, seq![empty_flow(then)]), t1);
            lemma_stmt_grows(br.stmt, f, loops, with_flows(a2, seq![empty_flow(then)]), t1);
            lemma_trans(a.vals, m1.vals, t1.vals);
            lemma_fresh_insert(t1.vals, j, IrInst { func: f, kind: IrKind::Jump(end) });
            lemma_fresh_insert(t1.vals.insert(j, IrInst { func: f, kind: IrKind::Jump(end) }), w, IrInst { func: f, kind: IrKind::Branch(v, then, end) });
            lemma_trans(a.vals, t1.vals, t1.vals.insert(j, IrInst { func: f, kind: IrKind::Jump(end) }));
            lemma_trans(a.vals, t1.vals.insert(j, IrInst { func: f, kind: IrKind::Jump(end) }), b.vals);
        },
        Stmt::IfElse(ib, eb) => {
            let (a1, m1, v, a2, t1, e1, j1, j2, w, end, then, els) = choose|a1: GenState, m1: GenState, v: Value, a2: GenState, t1: GenState, e1: GenState,
                j1: Value, j2: Value, w: Value, end: BasicBlock, then: BasicBlock, els: BasicBlock|
                #[trigger] if_else_rest(ib.cond, f, a, b, a1, m1, v, a2, t1, e1, j1, j2, w, end, then, els)
                    && stmt_built(ib.stmt, f, loops, with_flows(a2, seq![empty_flow(then)]), t1)
                    && stmt_built(eb.stmt, f, loops, else_start(t1, f, j1, end, els), e1);
            lemma_stmt_grows(ib.stmt, f, loops, with_flows(a2, seq![empty_flow(then)]), t1);
            let es = else_start(t1, f, j1, end, els);
            lemma_stmt_grows(eb.stmt, f, loops, es, e1);
            lemma_trans(a.vals, m1.vals, t1.vals);
            lemma_fresh_insert(t1.vals, j1, IrInst { func: f, kind: IrKind::Jump(end) });
            lemma_trans(a.vals, t1.vals, es.vals);
            lemma_trans(a.vals, es.vals, e1.vals);
            let e2 = e1.vals.insert(j2, IrInst { func: f, kind: IrKind::Jump(end) });
            lemma_fresh_insert(e1.vals, j2, IrInst { func: f, kind: IrKind::Jump(end) });
            lemma_fresh_insert(e2, w, IrInst { func: f, kind: IrKind::Branch(v, then, els) });
            lemma_trans(a.vals, e1.vals, e2);
            lemma_trans(a.vals, e2, b.vals);
        },
        Stmt::While(wb) => {
            let (a1, j1, c1, v, w, x1, j2, entry, body, end) = choose|a1: GenState, j1: Value, c1: GenState, v: Value, w: Value, x1: GenState, j2: Value,
                entry: BasicBlock, body: BasicBlock, end: BasicBlock|
                #[trigger] while_rest(wb.cond, f, a, b, a1, j1, c1, v, w, x1, j2, entry, body, end)
                    && stmt_built(wb.stmt, f, loops.push(LoopTargets { entry, end }), body_start(c1, f, v, w, body, end), x1);
            let bs = body_start(c1, f, v, w, body, end);
            lemma_stmt_grows(wb.stmt, f, loops.push(LoopTargets { entry, end }), bs, x1);
            lemma_fresh_insert(a.vals, j1, IrInst { func: f, kind: IrKind::Jump(entry) });
            lemma_trans(a.vals, a1.vals, c1.vals);
            lemma_fresh_insert(c1.vals, w, IrInst { func: f, kind: IrKind::Branch(v, body, end) });
            lemma_trans(a.vals, c1.vals, bs.vals);
            lemma_trans(a.vals, bs.vals, x1.vals);
            lemma_fresh_insert(x1.vals, j2, IrInst { func: f, kind: IrKind::Jump(entry) });
            lemma_trans(a.vals, x1.vals, b.vals);
        },
        Stmt::Else(_) => {},
    }
}

pub proof fn lemma_items_grows(items: Seq<BlockItem>, f: Function, loops: Seq<LoopTargets>, a: GenState, b: GenState)
    requires
        items_built(items, f, loops, a, b),
    ensures
        a.vals.submap_of(b.vals),
    decreases items, 1nat, 0nat,
{
    let st = choose|st: Seq<GenState>| #[trigger] chain_ends(st, a, b) && items_chain(items, f, loops, st);
    lemma_chain_grows(items, f, loops, st, items.len() as int);
}

proof fn lemma_chain_grows(items: Seq<BlockItem>, f: Function, loops: Seq<LoopTargets>, st: Seq<GenState>, k: int)
    requires
        items_chain(items, f, loops, st),
        0 <= k <= items.len(),
    ensures
        st[0].vals.submap_of(st[k].vals),
    decreases items, 0nat, k,
{
    if k > 0 {
        lemma_chain_grows(items, f, loops, st, k - 1);
        assert(item_built(items[k - 1], f, loops, st[k - 1], st[k]));
        lemma_item_grows(items[k - 1], f, loops, st[k - 1], st[k]);
        lemma_trans(st[0].vals, st[k - 1].vals, st[k].vals);
    }
}

proof fn lemma_item_grows(item: BlockItem, f: Function, loops: Seq<LoopTargets>, a: GenState, b: GenState)
    requires
        item_built(item, f, loops, a, b),
    ensures
        a.vals.submap_of(b.vals),
    decreases item, 0nat, 0nat,
{
    match item {
        BlockItem::Stmt(s) => lemma_stmt_grows(s, f, loops, a, b),
        BlockItem::Decl(Decl::Const(cd)) => {
            let st = choose|st: Seq<GenState>| #[trigger] const_chain(cd.def@, st) && st[0] == a && st.last() == b;
            lemma_const_chain_flows(cd.def@, st, cd.def@.len() as int);
        },
        BlockItem::Decl(Decl::Var(vd)) => {
            let st = choose|st: Seq<GenState>| #[trigger] var_chain(vd.def@, f, st) && st[0] == a && st.last() == b;
            lemma_var_chain_grows(vd.def@, f, st, vd.def@.len() as int);
        },
    }
}

proof fn lemma_var_chain_grows(defs: Seq<VarDef>, f: Function, st: Seq<GenState>, k: int)
    requires
        var_chain(defs, f, st),
        0 <= k <= defs.len(),
    ensures
        st[0].vals.submap_of(st[k].vals),
    decreases k,
{
    if k > 0 {
        lemma_var_chain_grows(defs, f, st, k - 1);
        assert(var_def_built(defs[k - 1], f, st[k - 1], st[k]));
        let d = defs[k - 1];
        let (a, b) = (st[k - 1], st[k]);
        let (m1, slot, m2) = choose|m1: GenState, slot: Value, m2: GenState|
            #[trigger] one_value(a, m1, slot, f, IrKind::Alloc) && #[trigger] var_defined(d, slot, m1, m2) && match d.init_val {
                None => b == m2,
                Some(iv) => exists|m3: GenState, v: Value, w: Value|
                    #[trigger] expr_into(iv.expr, f, m2, m3, v) && #[trigger] one_value(m3, b, w, f, IrKind::Store(v, slot)),
            };
        lemma_one_value_grows(a, m1, slot, f, IrKind::Alloc);
        if let Some(iv) = d.init_val {
            let (m3, v, w) = choose|m3: GenState, v: Value, w: Value|
                #[trigger] expr_into(iv.expr, f, m2, m3, v) && #[trigger] one_value(m3, b, w, f, IrKind::Store(v, slot));
            lemma_one_value_grows(m3, b, w, f, IrKind::Store(v, slot));
            lemma_trans(m2.vals, m3.vals, b.vals);
        }
        lemma_trans(a.vals, m1.vals, b.vals);
        lemma_trans(st[0].vals, a.vals, b.vals);
    }
}

/// The block at position `n - 1` of `b` (the block that was current) ends
/// with the branch `w` on `v`, of `f`, to `x` when `v` is nonzero and to
/// `y` otherwise.
pub open spec fn ends_with_branch(b: GenState, n: int, f: Function, w: Value, v: Value, x: BasicBlock, y: BasicBlock) -> bool {
    &&& 0 < n <= b.flows.len()
    &&& b.flows[n - 1].insts.len() > 0
    &&& b.flows[n - 1].insts.last() == (Instruction { inst: w, insert: true })
    &&& b.vals.dom().contains(w)
    &&& b.vals[w] == (IrInst { func: f, kind: IrKind::Branch(v, x, y) })
}

/// The block at position `n - 1` of `b` ends with the value `w` of `f`, of
/// kind `kind`.
pub open spec fn ends_with_value(b: GenState, n: int, f: Function, w: Value, kind: IrKind) -> bool {
    &&& 0 < n <= b.flows.len()
    &&& b.flows[n - 1].insts.len() > 0
    &&& b.flows[n - 1].insts.last() == (Instruction { inst: w, insert: true })
    &&& b.vals.dom().contains(w)
    &&& b.vals[w] == (IrInst { func: f, kind })
}

/// The block at position `n - 1` of `b` ends with the jump `j`, of `f`, to
/// `x`.
pub open spec fn ends_with_jump(b: GenState, n: int, f: Function, j: Value, x: BasicBlock) -> bool {
    &&& 0 < n <= b.flows.len()
    &&& b.flows[n - 1].insts.len() > 0
    &&& b.flows[n - 1].insts.last() == (Instruction { inst: j, insert: true })
    &&& b.vals.dom().contains(j)
    &&& b.vals[j] == (IrInst { func: f, kind: IrKind::Jump(x) })
}

/// Law: `if (c) s else t` ends the block that was current with a branch
/// that goes, when `c` is nonzero, to the block right after it, where the
/// code of `s` starts, and otherwise to a later block `k`, where the code of
/// `t` starts, neither of them the last block (which follows both parts);
/// the code of `s` is built starting in the first of the two, and that of
/// `t` in the second.
pub proof fn law_if_else_branches(ib: Box<IfBranch>, eb: Box<ElseBranch>, f: Function, loops: Seq<LoopTargets>, a: GenState, b: GenState)
    requires
        stmt_built(Stmt::IfElse(ib, eb), f, loops, a, b),
        a.flows.len() > 0,
    ensures
        keeps_blocks(a.flows, b.flows),
        exists|w: Value, v: Value, k: int|
            #[trigger] ends_with_branch(b, a.flows.len() as int, f, w, v, b.flows[a.flows.len() as int].block, b.flows[k].block) && a.flows.len()
                < k < b.flows.len() - 1 && b.flows[a.flows.len() as int].block != b.flows[k].block && b.flows[a.flows.len() as int].block
                != b.flows.last().block && b.flows[k].block != b.flows.last().block,
{
    lemma_stmt_keeps(Stmt::IfElse(ib, eb), f, loops, a, b);
    let (a1, m1, v, a2, t1, e1, j1, j2, w, end, then, els) = choose|a1: GenState, m1: GenState, v: Value, a2: GenState, t1: GenState, e1: GenState,
        j1: Value, j2: Value, w: Value, end: BasicBlock, then: BasicBlock, els: BasicBlock|
        #[trigger] if_else_rest(ib.cond, f, a, b, a1, m1, v, a2, t1, e1, j1, j2, w, end, then, els)
            && stmt_built(ib.stmt, f, loops, with_flows(a2, seq![empty_flow(then)]), t1)
            && stmt_built(eb.stmt, f, loops, else_start(t1, f, j1, end, els), e1);
    let n = a.flows.len() as int;
    let start_t = with_flows(a2, seq![empty_flow(then)]);
    lemma_stmt_keeps(ib.stmt, f, loops, start_t, t1);
    let es = else_start(t1, f, j1, end, els);
    lemma_append_last_keeps(t1.flows, placed(j1));
    lemma_keeps_cat(t1.flows, append_last(t1.flows, placed(j1)), seq![empty_flow(els)]);
    assert(es.flows[t1.flows.len() as int] == empty_flow(els));
    lemma_stmt_keeps(eb.stmt, f, loops, es, e1);
    lemma_append_last_keeps(a1.flows, emits_expr(ib.cond, a1.names@, m1.vals, f, v)->0.insts);
    let left = append_last(m1.flows, placed(w));
    let right = append_last(e1.flows, placed(j2)).push(empty_flow(end));
    lemma_append_last_keeps(e1.flows, placed(j2));
    assert(b.flows == left + right);
    assert(left.len() == n);
    assert(b.flows[n] == right[0]);
    assert(right[0].block == e1.flows[0].block);
    assert(e1.flows[0].block == t1.flows[0].block);
    assert(t1.flows[0].block == then);
    let k = n + t1.flows.len();
    assert(b.flows[k] == right[t1.flows.len() as int]);
    assert(b.flows[k].block == els);
    assert(b.flows.last() == empty_flow(end));
    assert(left[n - 1].insts == m1.flows[n - 1].insts + placed(w));
    assert(ends_with_branch(b, n, f, w, v, then, els));
}

/// Law: `if (c) s` ends the block that was current with a branch that goes,
/// when `c` is nonzero, to the block right after it, where the code of `s`
/// starts, and otherwise to the last block, which follows the code of `s`.
pub proof fn law_if_branches(br: Box<IfBranch>, f: Function, loops: Seq<LoopTargets>, a: GenState, b: GenState)
    requires
        stmt_built(Stmt::If(br), f, loops, a, b),
        a.flows.len() > 0,
    ensures
        keeps_blocks(a.flows, b.flows),
        a.flows.len() < b.flows.len() - 1,
        exists|w: Value, v: Value|
            #[trigger] ends_with_branch(b, a.flows.len() as int, f, w, v, b.flows[a.flows.len() as int].block, b.flows.last().block),
        b.flows[a.flows.len() as int].block != b.flows.last().block,
{
    lemma_stmt_keeps(Stmt::If(br), f, loops, a, b);
    let (a1, m1, v, a2, t1, j, w, end, then) = choose|a1: GenState, m1: GenState, v: Value, a2: GenState, t1: GenState, j: Value, w: Value, end: BasicBlock, then: BasicBlock|
        #[trigger] if_rest(br.cond, f, a, b, a1, m1, v, a2, t1, j, w, end, then)
            && stmt_built(br.stmt, f, loops, with_flows(a2, seq![empty_flow(then)]), t1);
    let n = a.flows.len() as int;
    lemma_stmt_keeps(br.stmt, f, loops, with_flows(a2, seq![empty_flow(then)]), t1);
    lemma_append_last_keeps(a1.flows, emits_expr(br.cond, a1.names@, m1.vals, f, v)->0.insts);
    let left = append_last(m1.flows, placed(w));
    let right = append_last(t1.flows, placed(j)).push(empty_flow(end));
    lemma_append_last_keeps(t1.flows, placed(j));
    assert(b.flows == left + right);
    assert(b.flows[n] == right[0]);
    assert(right[0].block == t1.flows[0].block);
    assert(t1.flows[0].block == then);
    assert(b.flows[n].block == then);
    assert(b.flows.last() == empty_flow(end));
    assert(left[n - 1].insts == m1.flows[n - 1].insts + placed(w));
    assert(b.flows[n - 1] == left[n - 1]);
    assert(b.vals[w] == (IrInst { func: f, kind: IrKind::Branch(v, then, end) }));
    assert(ends_with_branch(b, n, f, w, v, then, end));
    assert(ends_with_branch(b, a.flows.len() as int, f, w, v, b.flows[a.flows.len() as int].block, b.flows.last().block));
}

/// Law: `while (c) s` ends the block that was current with a jump to the
/// block right after it, where `c` is computed; that block ends with a
/// branch that goes, when `c` is nonzero, to the block after it, where the
/// code of `s` starts, and otherwise to the last block, which follows the
/// loop.
pub proof fn law_while_branches(wb: Box<WhileBranch>, f: Function, loops: Seq<LoopTargets>, a: GenState, b: GenState)
    requires
        stmt_built(Stmt::While(wb), f, loops, a, b),
        a.flows.len() > 0,
    ensures
        keeps_blocks(a.flows, b.flows),
        a.flows.len() + 1 < b.flows.len() - 1,
        exists|j: Value| #[trigger] ends_with_jump(b, a.flows.len() as int, f, j, b.flows[a.flows.len() as int].block),
        exists|w: Value, v: Value|
            #[trigger] ends_with_branch(b, a.flows.len() + 1 as int, f, w, v, b.flows[a.flows.len() + 1 as int].block, b.flows.last().block),
        b.flows[a.flows.len() + 1 as int].block != b.flows.last().block,
        exists|s0: GenState, x1: GenState|
            #[trigger] stmt_built(
                wb.stmt,
                f,
                loops.push(LoopTargets { entry: b.flows[a.flows.len() as int].block, end: b.flows.last().block }),
                s0,
                x1,
            ) && s0.flows.last() == empty_flow(b.flows[a.flows.len() + 1 as int].block),
{
    lemma_stmt_keeps(Stmt::While(wb), f, loops, a, b);
    let (a1, j1, c1, v, w, x1, j2, entry, body, end) = choose|a1: GenState, j1: Value, c1: GenState, v: Value, w: Value, x1: GenState, j2: Value,
        entry: BasicBlock, body: BasicBlock, end: BasicBlock|
        #[trigger] while_rest(wb.cond, f, a, b, a1, j1, c1, v, w, x1, j2, entry, body, end)
            && stmt_built(wb.stmt, f, loops.push(LoopTargets { entry, end }), body_start(c1, f, v, w, body, end), x1);
    let n = a.flows.len() as int;
    let bs = body_start(c1, f, v, w, body, end);
    lemma_append_last_keeps(a1.flows, emits_expr(wb.cond, a1.names@, c1.vals, f, v)->0.insts);
    assert(c1.flows.len() == 1);
    assert(bs.flows.len() == 2);
    lemma_stmt_keeps(wb.stmt, f, loops.push(LoopTargets { entry, end }), bs, x1);
    let left = append_last(a.flows, placed(j1));
    let right = append_last(x1.flows, placed(j2)).push(empty_flow(end));
    lemma_append_last_keeps(x1.flows, placed(j2));
    assert(b.flows == left + right);
    assert(b.flows[n] == right[0]);
    assert(b.flows[n + 1] == right[1]);
    assert(right[0].block == entry);
    assert(right[1].block == body);
    assert(b.flows.last() == empty_flow(end));
    assert(left[n - 1].insts == a.flows[n - 1].insts + placed(j1));
    lemma_stmt_grows(wb.stmt, f, loops.push(LoopTargets { entry, end }), bs, x1);
    assert(a1.vals.submap_of(c1.vals));
    assert(a1.vals.dom().contains(j1));
    lemma_kept(a1.vals, c1.vals, j1);
    assert(bs.vals.dom().contains(j1) && bs.vals.dom().contains(w));
    lemma_kept(bs.vals, x1.vals, j1);
    lemma_kept(bs.vals, x1.vals, w);
    assert(bs.vals[w] == (IrInst { func: f, kind: IrKind::Branch(v, body, end) }));
    assert(bs.vals[j1] == (IrInst { func: f, kind: IrKind::Jump(entry) }));
    assert(x1.flows[0] == bs.flows[0]);
    assert(b.flows[n] == right[0]);
    assert(bs.flows[0].insts.last() == (Instruction { inst: w, insert: true }));
    assert(ends_with_branch(b, n + 1, f, w, v, body, end));
    assert(ends_with_branch(b, a.flows.len() + 1 as int, f, w, v, b.flows[a.flows.len() + 1 as int].block, b.flows.last().block));
    assert(ends_with_jump(b, n, f, j1, entry));
    assert(ends_with_jump(b, a.flows.len() as int, f, j1, b.flows[a.flows.len() as int].block));
    assert(bs.flows.last() == empty_flow(body));
    assert(LoopTargets { entry: b.flows[a.flows.len() as int].block, end: b.flows.last().block } == LoopTargets { entry, end });
    assert(stmt_built(
        wb.stmt,
        f,
        loops.push(LoopTargets { entry: b.flows[a.flows.len() as int].block, end: b.flows.last().block }),
        bs,
        x1,
    ));
}

/// Law: `break` ends the current block with a jump to the end of the
/// innermost loop, and `continue` with a jump to its entry; what follows
/// goes into one new block.
pub proof fn law_break_continue_targets(c: ControlFlow, f: Function, loops: Seq<LoopTargets>, a: GenState, b: GenState)
    requires
        stmt_built(Stmt::ControlFlow(c), f, loops, a, b),
        a.flows.len() > 0,
    ensures
        loops.len() > 0,
        b.flows.len() == a.flows.len() + 1,
        c is Break ==> exists|j: Value| #[trigger] ends_with_jump(b, a.flows.len() as int, f, j, loops.last().end),
        c is Continue ==> exists|j: Value| #[trigger] ends_with_jump(b, a.flows.len() as int, f, j, loops.last().entry),
{
    let target = match c {
        ControlFlow::Break => loops.last().end,
        ControlFlow::Continue => loops.last().entry,
    };
    let (m1, j, nb) = choose|m1: GenState, j: Value, nb: BasicBlock|
        #[trigger] one_value(a, m1, j, f, IrKind::Jump(target)) && #[trigger] opened_block(m1, b, nb, f);
    let n = a.flows.len() as int;
    assert(b.flows[n - 1] == m1.flows[n - 1]);
    assert(m1.flows[n - 1].insts == a.flows[n - 1].insts + placed(j));
    assert(b.vals == m1.vals);
    assert(ends_with_jump(b, n, f, j, target));
}

/// Law: `return e;` ends the block that was current with a return of the
/// value that computes `e`, `return;` with a return of nothing; what
/// follows goes into one new block.
pub proof fn law_return_built(value: Option<Expr>, f: Function, loops: Seq<LoopTargets>, a: GenState, b: GenState)
    requires
        stmt_built(Stmt::Return(value), f, loops, a, b),
        a.flows.len() > 0,
    ensures
        b.flows.len() == a.flows.len() + 1,
        value is None ==> exists|w: Value| #[trigger] ends_with_value(b, a.flows.len() as int, f, w, IrKind::Return(None)),
        value matches Some(e) ==> exists|w: Value, x: Value|
            #[trigger] ends_with_value(b, a.flows.len() as int, f, w, IrKind::Return(Some(x))) && emits_expr(e, a.names@, b.vals, f, x) is Some,
{
    let n = a.flows.len() as int;
    match value {
        None => {
            let (m1, r, nb) = choose|m1: GenState, r: Value, nb: BasicBlock|
                #[trigger] one_value(a, m1, r, f, IrKind::Return(None)) && #[trigger] opened_block(m1, b, nb, f);
            assert(b.flows[n - 1] == m1.flows[n - 1]);
            assert(ends_with_value(b, n, f, r, IrKind::Return(None)));
        },
        Some(e) => {
            let (m0, x) = choose|m0: GenState, x: Value| #[trigger] expr_into(e, f, a, m0, x) && returned(m0, b, f, Some(x));
            let (m1, r, nb) = choose|m1: GenState, r: Value, nb: BasicBlock|
                #[trigger] one_value(m0, m1, r, f, IrKind::Return(Some(x))) && #[trigger] opened_block(m1, b, nb, f);
            assert(m0.flows.len() == n);
            assert(b.flows[n - 1] == m1.flows[n - 1]);
            assert(ends_with_value(b, n, f, r, IrKind::Return(Some(x))));
            lemma_fresh_insert(m0.vals, r, IrInst { func: f, kind: IrKind::Return(Some(x)) });
            lemma_emits_expr_grow(e, a.names@, m0.vals, b.vals, f, x);
        },
    }
}

/// Law: an assignment to a variable ends with a store, into the variable's
/// slot, of the value that computes the assigned expression.
pub proof fn law_assign_built(l: LVal, e: Expr, f: Function, loops: Seq<LoopTargets>, a: GenState, b: GenState)
    requires
        stmt_built(Stmt::Assign(l, e), f, loops, a, b),
        a.flows.len() > 0,
    ensures
        manager_get(a.names@, l.ident@) is Some,
        manager_get(a.names@, l.ident@)->0 is Var,
        b.flows.len() == a.flows.len(),
        exists|w: Value, x: Value|
            #[trigger] ends_with_value(b, a.flows.len() as int, f, w, IrKind::Store(x, manager_get(a.names@, l.ident@)->0->Var_0.value))
                && emits_expr(e, a.names@, b.vals, f, x) is Some,
{
    let n = a.flows.len() as int;
    let var = manager_get(a.names@, l.ident@)->0->Var_0;
    let (m1, x, w) = choose|m1: GenState, x: Value, w: Value|
        #[trigger] expr_into(e, f, a, m1, x) && #[trigger] one_value(m1, b, w, f, IrKind::Store(x, var.value));
    assert(m1.flows.len() == n);
    assert(ends_with_value(b, n, f, w, IrKind::Store(x, var.value)));
    lemma_fresh_insert(m1.vals, w, IrInst { func: f, kind: IrKind::Store(x, var.value) });
    lemma_emits_expr_grow(e, a.names@, m1.vals, b.vals, f, x);
}

} // verus!
