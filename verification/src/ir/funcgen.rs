//! Building the koopa IR of a function body: its items go into blocks that
//! start at a new entry block, in a scope of their own; then the blocks that
//! got no instruction are dropped, and each block is cut after the
//! instruction that ends it.
use vstd::prelude::*;
use vstd::string::{StrSliceExecFns, StringExecFns};

use koopa::ir::{BasicBlock, Function, Program, Type, Value};

use crate::ir::func::{close_with_return, ends_with_return, placed, trim_insts};
use crate::ir::meta::{manager_get, ConstValue, Instruction, Variable, VariableManager};
use crate::ir::expr::same_consts;
use crate::ir::irgen::{lemma_kept, lemma_scope_grow, Names};
use crate::ir::program::{
    ends_in, func_params, has_block, i32_type, ir_blocks, ir_func_sigs, ir_funcs, ir_layout, ir_params, ir_values,
    layout_push_block, layout_push_inst, new_alloc, new_block, new_func, new_store, param_name, push_block, push_inst,
    slot_value, FuncSig, IrInst, IrKind,
};
use crate::ir::stmtgen::{
    any_var, empty_block, empty_flow, flows_view, grown, items_built, items_ir, items_ok, lemma_block_added, lemma_grown,
    lemma_items_ok_same, lemma_value_added, one_value, place, ready, state_of, var_of, with_names, BlockFlow, FlowV, GenState,
    LoopTargets,
};
use crate::parse::ast::{BType, Block, BlockItem, FuncDef, FuncFParam, Stmt};

verus! {

/// A function body's items, ending with a `return` (`return;` is added
/// unless the last item already is one).
pub open spec fn closed_items(items: Seq<BlockItem>) -> Seq<BlockItem> {
    if ends_with_return(items) {
        items
    } else {
        items.push(BlockItem::Stmt(Stmt::Return(None)))
    }
}

/// The blocks a function body leaves: those that got any instruction, each
/// with its instructions as placed (see [`placed`]).
pub open spec fn finished(fl: Seq<FlowV>, ends: spec_fn(Value) -> bool) -> Seq<FlowV>
    decreases fl.len(),
{
    if fl.len() == 0 {
        Seq::empty()
    } else {
        let rest = finished(fl.drop_last(), ends);
        if fl.last().insts.len() > 0 {
            rest.push(FlowV { block: fl.last().block, insts: placed(fl.last().insts, ends) })
        } else {
            rest
        }
    }
}

/// `x0` is `m` with a new, empty scope opened.
pub open spec fn scope_opened(x0: VariableManager, m: VariableManager, mark: usize) -> bool {
    &&& x0.inside(m, mark)
    &&& x0@ == m@
    &&& x0.local() == Set::<Seq<char>>::empty()
}

/// The names of the parameters of `f` in its body: their IR names without
/// the leading `@`.
pub open spec fn body_param_names(p: Program, f: Function) -> Seq<Seq<char>> {
    ir_func_sigs(p)[f].params.map_values(|s: Seq<char>| s.drop_first())
}

/// The parameter named `name` is defined as a variable with the slot `slot`
/// (and some type).
pub open spec fn param_defined(name: Seq<char>, slot: Value, a: GenState, b: GenState) -> bool {
    &&& b == with_names(a, b.names)
    &&& b.names.pushed(a.names)
    &&& b.names.wf()
    &&& b.names.local() == a.names.local().insert(name)
    &&& exists|ty: Type| b.names@ == a.names@.insert(name, #[trigger] var_of(slot, ty))
}

/// A parameter of `f`, of value `pv`, gets a new slot, its value is stored
/// there, and its name is defined with that slot.
pub open spec fn param_built(name: Seq<char>, pv: Value, f: Function, a: GenState, b: GenState) -> bool {
    exists|m1: GenState, slot: Value, m2: GenState, w: Value|
        #[trigger] one_value(a, m1, slot, f, IrKind::Alloc) && #[trigger] one_value(m2, b, w, f, IrKind::Store(pv, slot))
            && param_defined(name, slot, m1, m2)
}

/// `st` are the states before and after each parameter.
pub open spec fn params_chain(names: Seq<Seq<char>>, pvs: Seq<Value>, f: Function, st: Seq<GenState>) -> bool {
    &&& st.len() == names.len() + 1
    &&& forall|i: int| 0 <= i < names.len() ==> param_built(#[trigger] names[i], pvs[i], f, st[i], st[i + 1])
}

/// The names after the parameters `names` are defined.
pub open spec fn params_scan(names: Seq<Seq<char>>, n: Names) -> Names
    decreases names.len(),
{
    if names.len() == 0 {
        n
    } else {
        params_scan(names.drop_last(), n).insert(names.last(), any_var())
    }
}

/// The parameters of `f` in `p` are ready for its body: each an `i32` value
/// of `f` with a name (`@` and at least one character), no two names alike.
pub open spec fn params_ready(p: Program, f: Function) -> bool {
    &&& ir_params(p).dom().contains(f)
    &&& ir_func_sigs(p).dom().contains(f)
    &&& ir_params(p)[f].len() == ir_func_sigs(p)[f].params.len()
    &&& forall|i: int| 0 <= i < ir_params(p)[f].len() ==> ir_values(p).dom().contains(#[trigger] ir_params(p)[f][i])
        && ir_values(p)[ir_params(p)[f][i]] == (IrInst { func: f, kind: IrKind::Param(i) })
    &&& forall|i: int| 0 <= i < ir_func_sigs(p)[f].params.len() ==> (#[trigger] ir_func_sigs(p)[f].params[i]).len() > 1
    &&& forall|i: int, j: int| 0 <= i < j < ir_func_sigs(p)[f].params.len() ==> #[trigger] body_param_names(p, f)[i] != #[trigger] body_param_names(p, f)[j]
}

/// The body `items` of `f`, built from the program `p` and the names `m`: a
/// new entry block `entry` is opened; in a new scope, each parameter gets a
/// slot there holding its value, under its name; then the closed items are
/// built, outside any loop, up to the state `b`.
pub open spec fn body_built(items: Seq<BlockItem>, f: Function, p: Program, m: VariableManager, entry: BasicBlock, b: GenState) -> bool {
    &&& !ir_blocks(p).dom().contains(entry)
    &&& exists|x0: VariableManager, mark: usize, st: Seq<GenState>|
        #[trigger] scope_opened(x0, m, mark) && #[trigger] params_chain(body_param_names(p, f), ir_params(p)[f], f, st) && st[0] == (GenState {
            vals: ir_values(p),
            blocks: ir_blocks(p).insert(entry, f),
            flows: seq![empty_flow(entry)],
            names: x0,
        }) && items_built(closed_items(items), f, Seq::empty(), st.last(), b)
}

/// The names of the parameters of `f` in its body, read from the program.
fn body_names(program: &Program, f: Function) -> (r: Vec<String>)
    requires
        ir_funcs(*program).contains(f),
        params_ready(*program, f),
    ensures
        r.len() == body_param_names(*program, f).len(),
        forall|j: int| 0 <= j < r.len() ==> (#[trigger] r@[j])@ == body_param_names(*program, f)[j],
{
    let ghost names = body_param_names(*program, f);
    let np = func_params(program, f).len();
    let mut out: Vec<String> = Vec::new();
    let mut i: usize = 0;
    while i < np
        invariant
            i <= np,
            np == ir_params(*program)[f].len(),
            ir_funcs(*program).contains(f),
            params_ready(*program, f),
            names == body_param_names(*program, f),
            out.len() == i,
            forall|j: int| 0 <= j < i ==> (#[trigger] out@[j])@ == names[j],
        decreases np - i,
    {
        let full = match param_name(program, f, i) {
            Some(s) => s,
            None => {
                assert(false);
                String::new()
            },
        };
        proof {
            assert(ir_func_sigs(*program)[f].params[i as int].len() > 1);
        }
        let len = full.as_str().unicode_len();
        let name = String::from_str(full.as_str().substring_char(1, len));
        proof {
            assert(name@ =~= names[i as int]);
        }
        out.push(name);
        i = i + 1;
    }
    out
}

/// Gives each parameter a slot in the current block, stores its value there
/// and defines its name with that slot (see [`param_built`]); `st` are the
/// states before and after each.
fn params_ir(
    pvs: &Vec<Value>,
    bnames: &Vec<String>,
    program: &mut Program,
    f: Function,
    manager: &mut VariableManager,
    flows: &mut Vec<BlockFlow>,
) -> (st: Ghost<Seq<GenState>>)
    requires
        ready(*old(program), f, *old(manager), Seq::empty()),
        old(flows).len() > 0,
        old(manager).local() == Set::<Seq<char>>::empty(),
        pvs.len() == bnames.len(),
        forall|j: int| 0 <= j < pvs.len() ==> ir_values(*old(program)).dom().contains(#[trigger] pvs@[j])
            && ir_values(*old(program))[pvs@[j]] == (IrInst { func: f, kind: IrKind::Param(j) }),
        forall|i: int, j: int| 0 <= i < j < bnames.len() ==> (#[trigger] bnames@[i])@ != (#[trigger] bnames@[j])@,
    ensures
        ready(*final(program), f, *final(manager), Seq::empty()),
        final(flows).len() > 0,
        grown(*old(program), *final(program)),
        final(manager).grows(*old(manager)),
        same_consts(final(manager)@, params_scan(bnames@.map_values(|s: String| s@), old(manager)@)),
        final(manager).local() == bnames@.map_values(|s: String| s@).to_set(),
        params_chain(bnames@.map_values(|s: String| s@), pvs@, f, st@),
        st@[0] == state_of(*old(program), old(flows)@, *old(manager)),
        st@.last() == state_of(*final(program), final(flows)@, *final(manager)),
{
    let ghost names = bnames@.map_values(|s: String| s@);
    let ghost p0 = *program;
    let ghost x0 = *manager;
    let ghost a = state_of(*program, flows@, *manager);
    let np = pvs.len();
    let ghost mut st: Seq<GenState> = seq![a];
    proof {
        VariableManager::lemma_grows(x0, x0, x0);
        lemma_grown(p0, p0, p0, f, x0, Seq::empty());
        VariableManager::lemma_same_as_refl(x0);
    }
    let mut i: usize = 0;
    proof {
        assert(names.take(0) =~= Seq::<Seq<char>>::empty());
        assert(names.take(0).to_set() =~= Set::<Seq<char>>::empty());
    }
    while i < np
        invariant
            i <= np,
            np == pvs.len(),
            pvs.len() == bnames.len(),
            names == bnames@.map_values(|s: String| s@),
            forall|j: int| 0 <= j < pvs.len() ==> ir_values(p0).dom().contains(#[trigger] pvs@[j])
                && ir_values(p0)[pvs@[j]] == (IrInst { func: f, kind: IrKind::Param(j) }),
            forall|i: int, j: int| 0 <= i < j < bnames.len() ==> (#[trigger] bnames@[i])@ != (#[trigger] bnames@[j])@,
            names.len() == np,
            ready(*program, f, *manager, Seq::empty()),
            flows.len() > 0,
            grown(p0, *program),
            manager.grows(x0),
            same_consts(manager@, params_scan(names.take(i as int), x0@)),
            manager.local() == names.take(i as int).to_set(),
            st.len() == i + 1,
            st[0] == a,
            st.last() == state_of(*program, flows@, *manager),
            forall|j: int| 0 <= j < i ==> param_built(#[trigger] names[j], pvs@[j], f, st[j], st[j + 1]),
        decreases np - i,
    {
        let pv = pvs[i];
        let ghost s0 = state_of(*program, flows@, *manager);
        let ghost pk = *program;
        let ghost before = *manager;
        let name = bnames[i].clone();
        let slot = new_alloc(program, f);
        place(flows, slot);
        let ghost m1 = state_of(*program, flows@, *manager);
        let ghost pa = *program;
        let ty = i32_type();
        let res = manager.define_var(name, slot, ty);
        let ghost m2 = state_of(*program, flows@, *manager);
        proof {
            assert(!names.take(i as int).to_set().contains(names[i as int])) by {
                if names.take(i as int).to_set().contains(names[i as int]) {
                    let j = names.take(i as int).index_of(names[i as int]);
                    assert(names[j] == bnames@[j]@);
                    assert(names[i as int] == bnames@[i as int]@);
                }
            }
            assert(res is Ok);
            lemma_value_added(pk, pa, slot, f, IrKind::Alloc);
            lemma_grown(p0, pk, pa, f, before, Seq::empty());
            lemma_kept(ir_values(p0), ir_values(pa), pv);
            assert(ir_values(p0)[pvs@[i as int]] == (IrInst { func: f, kind: IrKind::Param(i as int) }));
        }
        let w = new_store(program, f, pv, slot);
        place(flows, w);
        proof {
            lemma_value_added(pa, *program, w, f, IrKind::Store(pv, slot));
            lemma_grown(p0, pa, *program, f, before, Seq::empty());
            lemma_scope_grow(before@, ir_values(pk), ir_values(*program), f);
            assert forall|x: Seq<char>| #[trigger] manager@.dom().contains(x) implies (manager@[x] matches Variable::Var(var) ==> slot_value(ir_values(*program), f, var.value)) by {
                if x != names[i as int] {
                    assert(before@.dom().contains(x));
                }
            }
            assert(manager@ == before@.insert(names[i as int], var_of(slot, ty)));
            assert(param_defined(names[i as int], slot, m1, m2));
            assert(one_value(s0, m1, slot, f, IrKind::Alloc));
            assert(one_value(m2, state_of(*program, flows@, *manager), w, f, IrKind::Store(pv, slot)));
            assert(param_built(names[i as int], pvs@[i as int], f, s0, state_of(*program, flows@, *manager)));
            let old_st = st;
            st = st.push(state_of(*program, flows@, *manager));
            assert forall|j: int| 0 <= j < i + 1 implies param_built(#[trigger] names[j], pvs@[j], f, st[j], st[j + 1]) by {
                if j < i {
                    assert(st[j] == old_st[j] && st[j + 1] == old_st[j + 1]);
                }
            }
            let t = names.take(i as int + 1);
            assert(t.drop_last() =~= names.take(i as int));
            assert(t.last() == names[i as int]);
            assert(t.to_set() =~= names.take(i as int).to_set().insert(names[i as int]));
            VariableManager::lemma_grows(before, *manager, *manager);
            VariableManager::lemma_grows(x0, before, *manager);
        }
        i = i + 1;
    }
    proof {
        assert(names.take(np as int) =~= names);
    }
    Ghost(st)
}

/// Builds the body of `f` (see [`body_built`]) and returns its blocks as
/// they go into the function (see [`finished`]). The names in scope are as
/// before afterwards.
pub fn func_scope(scope: Block, program: &mut Program, f: Function, manager: &mut VariableManager) -> (r: Vec<BlockFlow>)
    requires
        ready(*old(program), f, *old(manager), Seq::empty()),
        params_ready(*old(program), f),
        items_ok(
            closed_items(scope.items@),
            params_scan(body_param_names(*old(program), f), old(manager)@),
            body_param_names(*old(program), f).to_set(),
            0,
        ),
    ensures
        final(manager).same_as(*old(manager)),
        grown(*old(program), *final(program)),
        exists|entry: BasicBlock, b: GenState|
            #[trigger] body_built(scope.items@, f, *old(program), *old(manager), entry, b) && flows_view(r@) == finished(
                b.flows,
                |v: Value| ends_in(ir_values(*final(program)), f, v),
            ),
{
    let ghost p0 = *program;
    let ghost items0 = scope.items@;
    let pvs = func_params(program, f);
    let bnames = body_names(program, f);
    let mut scope = scope;
    close_with_return(&mut scope);
    let ghost outer = *manager;
    let mark = manager.open_scope();
    let ghost x0 = *manager;
    let entry = new_block(program, f);
    let ghost p1 = *program;
    let mut flows = empty_block(entry);
    let mut loops: Vec<LoopTargets> = Vec::new();
    let ghost a = state_of(*program, flows@, *manager);
    proof {
        lemma_block_added(p0, p1, entry, f);
        lemma_grown(p0, p1, p1, f, outer, Seq::empty());
        assert(loops@ =~= Seq::<LoopTargets>::empty());
        assert(scope.items@ == closed_items(items0));
        VariableManager::lemma_grows(x0, x0, x0);
    }
    let ghost names = body_param_names(p0, f);
    proof {
        assert(bnames@.map_values(|s: String| s@) =~= names);
        assert forall|j: int| 0 <= j < pvs.len() implies ir_values(p1).dom().contains(#[trigger] pvs@[j])
            && ir_values(p1)[pvs@[j]] == (IrInst { func: f, kind: IrKind::Param(j) }) by {
            assert(pvs@[j] == ir_params(p0)[f][j]);
        }
        assert forall|i: int, j: int| 0 <= i < j < bnames.len() implies (#[trigger] bnames@[i])@ != (#[trigger] bnames@[j])@ by {
            assert(bnames@[i]@ == names[i] && bnames@[j]@ == names[j]);
        }
    }
    let st = params_ir(&pvs, &bnames, program, f, manager, &mut flows);
    let ghost m_params = *manager;
    let ghost pp = *program;
    proof {
        lemma_items_ok_same(closed_items(items0), manager@, params_scan(names, outer@), manager.local(), 0);
        lemma_grown(p1, *program, *program, f, *manager, Seq::empty());
    }
    items_ir(&scope.items, program, f, manager, &mut flows, &mut loops);
    let ghost b = state_of(*program, flows@, *manager);
    proof {
        VariableManager::lemma_grows(x0, m_params, *manager);
        VariableManager::lemma_inside_grows(x0, *manager, outer, mark);
    }
    manager.close_scope(mark, Ghost(outer));
    let ghost p2 = *program;
    proof {
        lemma_grown(p1, pp, p2, f, outer, Seq::empty());
        lemma_grown(p0, p1, p2, f, outer, Seq::empty());
        assert(scope_opened(x0, outer, mark));
        assert(st@[0] == GenState { vals: ir_values(p0), blocks: ir_blocks(p0).insert(entry, f), flows: seq![empty_flow(entry)], names: x0 });
        assert(params_chain(body_param_names(p0, f), ir_params(p0)[f], f, st@));
        assert(body_built(items0, f, p0, outer, entry, b));
    }
    let prog: &Program = program;
    let ghost ends = |v: Value| ends_in(ir_values(*prog), f, v);
    let mut out: Vec<BlockFlow> = Vec::new();
    let n = flows.len();
    let mut i: usize = 0;
    proof {
        assert(flows_view(flows@).take(0) =~= Seq::<FlowV>::empty());
        assert(flows_view(out@) =~= Seq::<FlowV>::empty());
    }
    while i < n
        invariant
            n == flows.len(),
            i <= n,
            ir_funcs(*prog).contains(f),
            ends == (|v: Value| ends_in(ir_values(*prog), f, v)),
            flows_view(out@) == finished(flows_view(flows@).take(i as int), ends),
        decreases n - i,
    {
        let bf = &flows[i];
        let ghost t = flows_view(flows@).take(i as int + 1);
        proof {
            assert(t.drop_last() =~= flows_view(flows@).take(i as int));
            assert(t.last() == FlowV { block: flows@[i as int].block, insts: flows@[i as int].insts@ });
        }
        if bf.insts.len() > 0 {
            let kept = trim_insts(&bf.insts, prog, f);
            let ghost before = out@;
            out.push(BlockFlow { block: bf.block, insts: kept });
            proof {
                assert(flows_view(out@) =~~= flows_view(before).push(FlowV { block: flows@[i as int].block, insts: kept@ }));
            }
        }
        i = i + 1;
    }
    proof {
        assert(flows_view(flows@).take(n as int) =~= flows_view(flows@));
    }
    out
}

/// The IR name of a function or parameter named `ident` in the source.
pub open spec fn ir_name(ident: Seq<char>) -> Seq<char> {
    "@"@ + ident
}

/// The IR names of the parameters of a function definition.
pub open spec fn param_names(d: FuncDef) -> Seq<Seq<char>> {
    match d.fparams {
        None => Seq::empty(),
        Some(ps) => ps.params@.map_values(|p: FuncFParam| ir_name(p.ident@)),
    }
}

/// Every parameter of `d` is an `int` with a name.
pub open spec fn params_ok(d: FuncDef) -> bool {
    d.fparams matches Some(ps) ==> forall|i: int|
        0 <= i < ps.params.len() ==> (#[trigger] ps.params@[i]).ty == BType::Int && ps.params@[i].ident@.len() > 0
}

fn prefixed(ident: &String) -> (r: String)
    ensures
        r@ == ir_name(ident@),
        r@.len() == ident@.len() + 1 && r@[0] == '@',
{
    let mut r = String::from_str("@");
    proof {
        reveal_strlit("@");
    }
    r.append(ident.as_str());
    r
}

/// Adds the function of `decl` to the program: named `@` and its name, with
/// an `i32` parameter named `@` and its name for each of its parameters,
/// returning an `i32` or nothing as declared; the name is bound to the new
/// function in scope, and recorded as defined when `is_def` holds.
pub fn register_func(
    decl: &FuncDef,
    program: &mut Program,
    manager: &mut VariableManager,
    defined: &mut Vec<String>,
    is_def: bool,
) -> (r: Function)
    requires
        old(manager).wf(),
        is_def ==> forall|i: int| 0 <= i < old(defined).len() ==> (#[trigger] old(defined)@[i])@ != decl.ident@,
        manager_get(old(manager)@, decl.ident@) matches Some(v) ==> (v matches Variable::Const(ConstValue::Function(_))),
        !old(manager).local().contains(decl.ident@),
        decl.ident@.len() > 0,
        params_ok(*decl),
    ensures
        !ir_funcs(*old(program)).contains(r),
        ir_funcs(*final(program)) == ir_funcs(*old(program)).insert(r),
        ir_func_sigs(*final(program)) == ir_func_sigs(*old(program)).insert(
            r,
            FuncSig { name: ir_name(decl.ident@), params: param_names(*decl), returns_int: decl.ret_type == BType::Int },
        ),
        ir_values(*old(program)).submap_of(ir_values(*final(program))),
        ir_blocks(*final(program)) == ir_blocks(*old(program)),
        ir_layout(*final(program)) == ir_layout(*old(program)).insert(r, Seq::empty()),
        final(manager)@ == old(manager)@.insert(decl.ident@, Variable::Const(ConstValue::Function(r))),
        final(manager).pushed(*old(manager)),
        final(manager).local() == old(manager).local().insert(decl.ident@),
        final(manager).wf(),
        is_def ==> final(defined)@ == old(defined)@.push(decl.ident),
        !is_def ==> final(defined)@ == old(defined)@,
{
    if is_def {
        defined.push(decl.ident.clone());
    }
    let name = prefixed(&decl.ident);
    let mut params: Vec<String> = Vec::new();
    match &decl.fparams {
        None => {},
        Some(ps) => {
            let mut i: usize = 0;
            while i < ps.params.len()
                invariant
                    i <= ps.params.len(),
                    params.len() == i,
                    forall|j: int| 0 <= j < i ==> (#[trigger] params@[j])@ == ir_name(ps.params@[j].ident@) && params@[j]@.len() > 1
                        && params@[j]@[0] == '@',
                    params_ok(*decl),
                    decl.fparams == Some(*ps),
                decreases ps.params.len() - i,
            {
                params.push(prefixed(&ps.params[i].ident));
                i = i + 1;
            }
        },
    }
    let ghost names = params@;
    let returns_int = match decl.ret_type {
        BType::Int => true,
        BType::Void => false,
    };
    let r = new_func(program, name, params, returns_int);
    proof {
        assert(names.map_values(|p: String| p@) =~= param_names(*decl));
    }
    let res = manager.define_const(decl.ident.clone(), ConstValue::Function(r));
    proof {
        assert(res is Ok);
    }
    r
}

/// A layout with the blocks `bbs` appended in order (each unless there).
pub open spec fn blocks_laid(l: Seq<(BasicBlock, Seq<Value>)>, bbs: Seq<FlowV>) -> Seq<(BasicBlock, Seq<Value>)>
    decreases bbs.len(),
{
    if bbs.len() == 0 {
        l
    } else {
        push_block(blocks_laid(l, bbs.drop_last()), bbs.last().block)
    }
}

/// A layout with the instructions `insts` appended to the block `bb`.
pub open spec fn insts_laid(l: Seq<(BasicBlock, Seq<Value>)>, bb: BasicBlock, insts: Seq<Instruction>) -> Seq<(BasicBlock, Seq<Value>)>
    decreases insts.len(),
{
    if insts.len() == 0 {
        l
    } else {
        push_inst(insts_laid(l, bb, insts.drop_last()), bb, insts.last().inst)
    }
}

/// A layout with the instructions of each of `bbs` appended to its block.
pub open spec fn all_insts_laid(l: Seq<(BasicBlock, Seq<Value>)>, bbs: Seq<FlowV>) -> Seq<(BasicBlock, Seq<Value>)>
    decreases bbs.len(),
{
    if bbs.len() == 0 {
        l
    } else {
        insts_laid(all_insts_laid(l, bbs.drop_last()), bbs.last().block, bbs.last().insts)
    }
}

/// A layout with the blocks `bbs` placed: first the blocks in order, then
/// the instructions of each.
pub open spec fn laid_out(l: Seq<(BasicBlock, Seq<Value>)>, bbs: Seq<FlowV>) -> Seq<(BasicBlock, Seq<Value>)> {
    all_insts_laid(blocks_laid(l, bbs), bbs)
}

proof fn lemma_push_block_has(l: Seq<(BasicBlock, Seq<Value>)>, bb: BasicBlock, x: BasicBlock)
    ensures
        has_block(push_block(l, bb), bb),
        has_block(l, x) ==> has_block(push_block(l, bb), x),
{
    if !has_block(l, bb) {
        let n = l.len() as int;
        assert(push_block(l, bb)[n].0 == bb);
    }
    if has_block(l, x) {
        let i = choose|i: int| 0 <= i < l.len() && #[trigger] l[i].0 == x;
        assert(push_block(l, bb)[i].0 == x);
    }
}

proof fn lemma_push_inst_has(l: Seq<(BasicBlock, Seq<Value>)>, bb: BasicBlock, v: Value, x: BasicBlock)
    requires
        has_block(l, x),
    ensures
        has_block(push_inst(l, bb, v), x),
{
    let i = choose|i: int| 0 <= i < l.len() && #[trigger] l[i].0 == x;
    assert(push_inst(l, bb, v)[i].0 == x);
}

/// Builds the body of `f` (see [`func_scope`]) and places its blocks, and
/// their instructions, in the layout of `f`.
pub fn ast_to_func(func: FuncDef, program: &mut Program, f: Function, manager: &mut VariableManager)
    requires
        ready(*old(program), f, *old(manager), Seq::empty()),
        params_ready(*old(program), f),
        items_ok(
            closed_items(func.block.items@),
            params_scan(body_param_names(*old(program), f), old(manager)@),
            body_param_names(*old(program), f).to_set(),
            0,
        ),
        ir_layout(*old(program)).dom().contains(f),
    ensures
        final(manager).same_as(*old(manager)),
        exists|entry: BasicBlock, b: GenState|
            #[trigger] body_built(func.block.items@, f, *old(program), *old(manager), entry, b) && ir_layout(*final(program)) == ir_layout(
                *old(program),
            ).insert(
                f,
                laid_out(ir_layout(*old(program))[f], finished(b.flows, |v: Value| ends_in(ir_values(*final(program)), f, v))),
            ),
{
    let ghost p0 = *program;
    let ghost m0 = *manager;
    let ghost items = func.block.items@;
    let blocks = func_scope(func.block, program, f, manager);
    let ghost p1 = *program;
    let ghost (entry, b) = choose|entry: BasicBlock, b: GenState|
        #[trigger] body_built(items, f, p0, m0, entry, b) && flows_view(blocks@) == finished(
            b.flows,
            |v: Value| ends_in(ir_values(p1), f, v),
        );
    let ghost view = flows_view(blocks@);
    let ghost l0 = ir_layout(p1)[f];
    let n = blocks.len();
    let mut i: usize = 0;
    proof {
        assert(view.take(0) =~= Seq::<FlowV>::empty());
    }
    while i < n
        invariant
            n == blocks.len(),
            view == flows_view(blocks@),
            i <= n,
            ir_funcs(*program).contains(f),
            ir_layout(*program) == ir_layout(p1).insert(f, blocks_laid(l0, view.take(i as int))),
            ir_values(*program) == ir_values(p1),
            forall|j: int| 0 <= j < i ==> has_block(ir_layout(*program)[f], #[trigger] view[j].block),
        decreases n - i,
    {
        let ghost before = ir_layout(*program)[f];
        let _ = layout_push_block(program, f, blocks[i].block);
        proof {
            let t = view.take(i as int + 1);
            assert(t.drop_last() =~= view.take(i as int));
            assert(t.last() == view[i as int]);
            assert forall|j: int| 0 <= j < i + 1 implies has_block(ir_layout(*program)[f], #[trigger] view[j].block) by {
                lemma_push_block_has(before, view[i as int].block, view[j].block);
            }
        }
        i = i + 1;
    }
    proof {
        assert(view.take(n as int) =~= view);
        assert(view.take(0) =~= Seq::<FlowV>::empty());
    }
    let ghost l1 = ir_layout(*program)[f];
    let mut i: usize = 0;
    while i < n
        invariant
            n == blocks.len(),
            view == flows_view(blocks@),
            i <= n,
            ir_funcs(*program).contains(f),
            ir_layout(*program) == ir_layout(p1).insert(f, all_insts_laid(l1, view.take(i as int))),
            ir_values(*program) == ir_values(p1),
            forall|j: int| 0 <= j < n ==> has_block(ir_layout(*program)[f], #[trigger] view[j].block),
        decreases n - i,
    {
        let bf = &blocks[i];
        let ghost start = ir_layout(*program)[f];
        let m = bf.insts.len();
        let mut k: usize = 0;
        proof {
            assert(bf.insts@.take(0) =~= Seq::<Instruction>::empty());
        }
        while k < m
            invariant
                m == bf.insts.len(),
                k <= m,
                bf == &blocks[i as int],
                i < n,
                n == blocks.len(),
                view == flows_view(blocks@),
                ir_funcs(*program).contains(f),
                ir_layout(*program) == ir_layout(p1).insert(f, insts_laid(start, bf.block, bf.insts@.take(k as int))),
                ir_values(*program) == ir_values(p1),
                forall|j: int| 0 <= j < n ==> has_block(ir_layout(*program)[f], #[trigger] view[j].block),
            decreases m - k,
        {
            let ghost before = ir_layout(*program)[f];
            proof {
                assert(view[i as int].block == bf.block);
            }
            layout_push_inst(program, f, bf.block, bf.insts[k].inst);
            proof {
                let t = bf.insts@.take(k as int + 1);
                assert(t.drop_last() =~= bf.insts@.take(k as int));
                assert(t.last() == bf.insts@[k as int]);
                assert forall|j: int| 0 <= j < n implies has_block(ir_layout(*program)[f], #[trigger] view[j].block) by {
                    lemma_push_inst_has(before, bf.block, bf.insts@[k as int].inst, view[j].block);
                }
            }
            k = k + 1;
        }
        proof {
            assert(bf.insts@.take(m as int) =~= bf.insts@);
            let t = view.take(i as int + 1);
            assert(t.drop_last() =~= view.take(i as int));
            assert(t.last() == view[i as int]);
        }
        i = i + 1;
    }
    proof {
        assert(view.take(n as int) =~= view);
        assert(body_built(items, f, p0, m0, entry, b));
    }
}

} // verus!
