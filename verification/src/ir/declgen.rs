//! Building the koopa IR of declarations in a block: constants are folded
//! into the names in scope, variables get a slot and their initial value.
use vstd::prelude::*;

use koopa::ir::{Function, Program};

use crate::ir::expr::{fold_expr, same_consts};
use crate::ir::irgen::{generable, lemma_kept, lemma_scope_grow, readable};
use crate::ir::meta::{ConstValue, Variable, VariableManager};
use crate::ir::program::{i32_type, ir_values, new_alloc, new_store, slot_value, IrKind};
use crate::ir::stmtgen::{
    any_var, const_chain, const_def_built, const_def_ok, const_defs_built, const_defs_ok, consts_local, consts_scan, expr_into,
    expr_last, grown, lemma_grown, lemma_readable_same, lemma_value_added, one_value, place, state_of, var_def_built, var_def_ok,
    var_chain, var_defined, var_defs_built, var_defs_ok, var_of, vars_kept, vars_local, vars_scan, with_names, BlockFlow,
    GenState,
};
use crate::ir::irgen::Names;
use crate::parse::ast::{BType, ConstDecl, ConstDef, VarDecl, VarDef};

verus! {

pub(crate) proof fn lemma_consts_scan_step(defs: Seq<ConstDef>, k: int, n0: Names, l0: Set<Seq<char>>)
    requires
        0 <= k < defs.len(),
    ensures
        consts_scan(defs.take(k + 1), n0) == consts_scan(defs.take(k), n0).insert(
            defs[k].ident@,
            Variable::Const(ConstValue::Int(fold_expr(defs[k].init_val.expr.expr, consts_scan(defs.take(k), n0))->Const_0)),
        ),
        consts_local(defs.take(k + 1), l0) == consts_local(defs.take(k), l0).insert(defs[k].ident@),
{
    let t = defs.take(k + 1);
    assert(t.drop_last() =~= defs.take(k));
    assert(t.last() == defs[k]);
}

pub(crate) proof fn lemma_vars_scan_step(defs: Seq<VarDef>, k: int, n0: Names, l0: Set<Seq<char>>)
    requires
        0 <= k < defs.len(),
    ensures
        vars_scan(defs.take(k + 1), n0) == vars_scan(defs.take(k), n0).insert(defs[k].ident@, any_var()),
        vars_local(defs.take(k + 1), l0) == vars_local(defs.take(k), l0).insert(defs[k].ident@),
{
    let t = defs.take(k + 1);
    assert(t.drop_last() =~= defs.take(k));
    assert(t.last() == defs[k]);
}

/// Defines the constants of a declaration one after the other (see
/// [`const_defs_built`]); `g` is the state they are built in.
#[verifier::rlimit(60)]
pub(crate) fn const_decl_ir(cd: &ConstDecl, m: &mut VariableManager, Ghost(g): Ghost<GenState>)
    requires
        old(m).wf(),
        g.names == *old(m),
        cd.ty == BType::Int,
        const_defs_ok(cd.def@, old(m)@, old(m).local()),
    ensures
        final(m).wf(),
        final(m).grows(*old(m)),
        final(m)@ == consts_scan(cd.def@, old(m)@),
        final(m).local() == consts_local(cd.def@, old(m).local()),
        vars_kept(old(m)@, final(m)@),
        const_defs_built(cd.def@, g, with_names(g, *final(m))),
{
    let ghost defs = cd.def@;
    let ghost n0 = m@;
    let ghost l0 = m.local();
    let ghost m0 = *m;
    proof {
        VariableManager::lemma_grows(*m, *m, *m);
        assert(defs.take(0) =~= Seq::<ConstDef>::empty());
        assert(g == with_names(g, *m));
    }
    let ghost mut st: Seq<GenState> = seq![g];
    let mut k: usize = 0;
    while k < cd.def.len()
        invariant
            0 <= k <= cd.def.len(),
            defs == cd.def@,
            m.wf(),
            m.grows(m0),
            m@ == consts_scan(defs.take(k as int), n0),
            m.local() == consts_local(defs.take(k as int), l0),
            vars_kept(n0, m@),
            st.len() == k + 1,
            st[0] == g,
            st.last() == with_names(g, *m),
            forall|i: int| 0 <= i < k ==> const_def_built(#[trigger] defs[i], st[i], st[i + 1]),
            const_defs_ok(defs, n0, l0),
            g.names == m0,
        decreases cd.def.len() - k,
    {
        let d = &cd.def[k];
        let ghost before = *m;
        proof {
            assert(const_def_ok(defs[k as int], consts_scan(defs.take(k as int), n0), consts_local(defs.take(k as int), l0)));
        }
        let c = match d.init_val.expr.expr.const_eval_i32(m) {
            Some(c) => c,
            None => {
                assert(false);
                0
            },
        };
        let r = m.define_const(d.ident.clone(), ConstValue::Int(c));
        proof {
            assert(r is Ok);
            assert(const_def_built(defs[k as int], with_names(g, before), with_names(g, *m)));
            let old_st = st;
            st = st.push(with_names(g, *m));
            assert forall|i: int| 0 <= i < k + 1 implies const_def_built(#[trigger] defs[i], st[i], st[i + 1]) by {
                if i < k {
                    assert(st[i] == old_st[i] && st[i + 1] == old_st[i + 1]);
                }
            }
            lemma_consts_scan_step(defs, k as int, n0, l0);
            VariableManager::lemma_grows(before, *m, *m);
            VariableManager::lemma_grows(m0, before, *m);
        }
        k = k + 1;
    }
    proof {
        assert(defs.take(defs.len() as int) =~= defs);
        assert(const_chain(defs, st));
    }
}

/// Defines the variables of a declaration one after the other (see
/// [`var_defs_built`]).
pub(crate) fn var_decl_ir(vd: &VarDecl, program: &mut Program, f: Function, m: &mut VariableManager, flows: &mut Vec<BlockFlow>)
    requires
        old(m).wf(),
        generable(*old(program), f, old(m)@),
        old(flows).len() > 0,
        vd.ty == BType::Int,
        var_defs_ok(vd.def@, old(m)@, old(m).local()),
    ensures
        final(m).wf(),
        final(m).grows(*old(m)),
        generable(*final(program), f, final(m)@),
        grown(*old(program), *final(program)),
        final(flows).len() > 0,
        same_consts(final(m)@, vars_scan(vd.def@, old(m)@)),
        final(m).local() == vars_local(vd.def@, old(m).local()),
        var_defs_built(vd.def@, f, state_of(*old(program), old(flows)@, *old(m)), state_of(*final(program), final(flows)@, *final(m))),
{
    let ghost defs = vd.def@;
    let ghost n0 = m@;
    let ghost l0 = m.local();
    let ghost m0 = *m;
    let ghost p0 = *program;
    let ghost a0 = state_of(*program, flows@, *m);
    proof {
        VariableManager::lemma_grows(*m, *m, *m);
        lemma_grown(p0, p0, p0, f, *m, Seq::empty());
        assert(defs.take(0) =~= Seq::<VarDef>::empty());
    }
    let ghost mut st: Seq<GenState> = seq![a0];
    let mut k: usize = 0;
    while k < vd.def.len()
        invariant
            0 <= k <= vd.def.len(),
            defs == vd.def@,
            m.wf(),
            m.grows(m0),
            generable(*program, f, m@),
            grown(p0, *program),
            flows.len() > 0,
            same_consts(m@, vars_scan(defs.take(k as int), n0)),
            m.local() == vars_local(defs.take(k as int), l0),
            st.len() == k + 1,
            st[0] == a0,
            st.last() == state_of(*program, flows@, *m),
            forall|i: int| 0 <= i < k ==> var_def_built(#[trigger] defs[i], f, st[i], st[i + 1]),
            var_defs_ok(defs, n0, l0),
        decreases vd.def.len() - k,
    {
        let d = &vd.def[k];
        let ghost mid = state_of(*program, flows@, *m);
        let ghost before = *m;
        let ghost pk = *program;
        proof {
            assert(var_def_ok(defs[k as int], vars_scan(defs.take(k as int), n0), vars_local(defs.take(k as int), l0)));
        }
        let slot = new_alloc(program, f);
        place(flows, slot);
        let ghost m1 = state_of(*program, flows@, *m);
        let ghost p1 = *program;
        let ty = i32_type();
        let r = m.define_var(d.ident.clone(), slot, ty);
        let ghost m2 = state_of(*program, flows@, *m);
        proof {
            assert(r is Ok);
            lemma_value_added(pk, p1, slot, f, IrKind::Alloc);
            lemma_grown(p0, pk, p1, f, before, Seq::empty());
            lemma_scope_grow(before@, ir_values(pk), ir_values(p1), f);
            assert(slot_value(ir_values(p1), f, slot));
            assert forall|x: Seq<char>| #[trigger] m@.dom().contains(x) implies (m@[x] matches Variable::Var(var) ==> slot_value(ir_values(p1), f, var.value)) by {
                if x != d.ident@ {
                    assert(before@.dom().contains(x));
                }
            }
            assert(m@ == before@.insert(d.ident@, var_of(slot, ty)));
            assert(var_defined(defs[k as int], slot, m1, m2));
            lemma_readable_same(before@, vars_scan(defs.take(k as int), n0));
            assert(readable(m@) =~= readable(before@).insert(d.ident@));
        }
        match &d.init_val {
            None => {},
            Some(iv) => {
                let v = expr_last(&iv.expr, program, f, m, flows);
                let ghost m3 = state_of(*program, flows@, *m);
                let ghost p3 = *program;
                proof {
                    lemma_kept(ir_values(p1), ir_values(p3), slot);
                }
                let w = new_store(program, f, v, slot);
                place(flows, w);
                proof {
                    lemma_value_added(p3, *program, w, f, IrKind::Store(v, slot));
                    lemma_grown(p1, p3, *program, f, *m, Seq::empty());
                    lemma_grown(p3, *program, *program, f, *m, Seq::empty());
                    lemma_scope_grow(m@, ir_values(p3), ir_values(*program), f);
                    assert(expr_into(iv.expr, f, m2, m3, v));
                    assert(one_value(m3, state_of(*program, flows@, *m), w, f, IrKind::Store(v, slot)));
                }
            },
        }
        proof {
            assert(one_value(mid, m1, slot, f, IrKind::Alloc));
            assert(var_def_built(defs[k as int], f, mid, state_of(*program, flows@, *m)));
            let old_st = st;
            st = st.push(state_of(*program, flows@, *m));
            assert forall|i: int| 0 <= i < k + 1 implies var_def_built(#[trigger] defs[i], f, st[i], st[i + 1]) by {
                if i < k {
                    assert(st[i] == old_st[i] && st[i + 1] == old_st[i + 1]);
                }
            }
            lemma_vars_scan_step(defs, k as int, n0, l0);
            VariableManager::lemma_grows(before, *m, *m);
            VariableManager::lemma_grows(m0, before, *m);
            lemma_grown(p0, p1, *program, f, *m, Seq::empty());
            lemma_grown(p0, pk, p1, f, *m, Seq::empty());
        }
        k = k + 1;
    }
    proof {
        assert(defs.take(defs.len() as int) =~= defs);
        assert(var_chain(defs, f, st));
    }
}

} // verus!
