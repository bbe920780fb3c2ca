//! Building the koopa IR of expressions: each operation becomes a new value
//! of the function, listed in the order the instructions run.
use vstd::prelude::*;

use koopa::ir::{Function, Program, Value};

use crate::ir::meta::{manager_get, ConstValue, Instruction, Variable, VariableManager};
use crate::ir::program::{
    added, int_value, ir_blocks, ir_funcs, ir_layout, ir_values, new_binary, new_integer, new_load, slot_value, IrInst, IrKind,
};
use crate::parse::ast::{
    AddExpr, AddOp, EqExpr, EqOp, Expr, LAndExpr, LOrExpr, LVal, MulExpr, MulOp, PrimaryExpr, RelExpr, RelOp,
    UnaryExpr, UnaryOp,
};
use crate::riscv::expr::BinaryOp;
use crate::riscv::eval::ir_binary_value;
use crate::ir::expr::{fold_add_op, fold_eq_op, fold_mul_op, fold_rel_op, trunc_div, trunc_rem, Folded};

verus! {

/// The names in scope, as a map.
pub type Names = Map<Seq<char>, Variable>;

/// What building an expression gives: the instructions listed, in order,
/// and every value created.
pub struct Emitted {
    pub insts: Seq<Instruction>,
    pub made: Set<Value>,
}

pub open spec fn eq_op_ir(op: EqOp) -> BinaryOp {
    match op {
        EqOp::Eq => BinaryOp::Eq,
        EqOp::NotEq => BinaryOp::NotEq,
    }
}

pub open spec fn rel_op_ir(op: RelOp) -> BinaryOp {
    match op {
        RelOp::Lt => BinaryOp::Lt,
        RelOp::Gt => BinaryOp::Gt,
        RelOp::Le => BinaryOp::Le,
        RelOp::Ge => BinaryOp::Ge,
    }
}

pub open spec fn add_op_ir(op: AddOp) -> BinaryOp {
    match op {
        AddOp::Add => BinaryOp::Add,
        AddOp::Sub => BinaryOp::Sub,
    }
}

pub open spec fn mul_op_ir(op: MulOp) -> BinaryOp {
    match op {
        MulOp::Mul => BinaryOp::Mul,
        MulOp::Div => BinaryOp::Div,
        MulOp::Mod => BinaryOp::Mod,
    }
}

fn eq_op_ir_exec(op: EqOp) -> (r: BinaryOp)
    ensures
        r == eq_op_ir(op),
{
    match op {
        EqOp::Eq => BinaryOp::Eq,
        EqOp::NotEq => BinaryOp::NotEq,
    }
}

fn rel_op_ir_exec(op: RelOp) -> (r: BinaryOp)
    ensures
        r == rel_op_ir(op),
{
    match op {
        RelOp::Lt => BinaryOp::Lt,
        RelOp::Gt => BinaryOp::Gt,
        RelOp::Le => BinaryOp::Le,
        RelOp::Ge => BinaryOp::Ge,
    }
}

fn add_op_ir_exec(op: AddOp) -> (r: BinaryOp)
    ensures
        r == add_op_ir(op),
{
    match op {
        AddOp::Add => BinaryOp::Add,
        AddOp::Sub => BinaryOp::Sub,
    }
}

fn mul_op_ir_exec(op: MulOp) -> (r: BinaryOp)
    ensures
        r == mul_op_ir(op),
{
    match op {
        MulOp::Mul => BinaryOp::Mul,
        MulOp::Div => BinaryOp::Div,
        MulOp::Mod => BinaryOp::Mod,
    }
}

/// The operands of `v` when it is operation `op` of `f`.
pub open spec fn binary_parts(vals: Map<Value, IrInst>, f: Function, v: Value, op: BinaryOp) -> Option<(Value, Value)> {
    if vals.dom().contains(v) && vals[v].func == f {
        match vals[v].kind {
            IrKind::Binary(o, a, b) => if o == op {
                Some((a, b))
            } else {
                None
            },
            _ => None,
        }
    } else {
        None
    }
}

/// `v` is the integer constant `c` of `f`.
pub open spec fn const_of(vals: Map<Value, IrInst>, f: Function, v: Value, c: i32) -> bool {
    vals.dom().contains(v) && vals[v] == IrInst { func: f, kind: IrKind::Integer(c) }
}

/// Both operands' code, then the operation `v`.
pub open spec fn joined_emits(x: Option<Emitted>, y: Option<Emitted>, v: Value) -> Option<Emitted> {
    match (x, y) {
        (Some(s), Some(t)) => Some(Emitted { insts: s.insts + t.insts + seq![Instruction { inst: v, insert: true }], made: s.made + t.made + set![v] }),
        _ => None,
    }
}

/// The operand's code, then the operation `v` against the constant `z`
/// (which is created and not listed).
pub open spec fn wrapped_emits(x: Option<Emitted>, v: Value, z: Value) -> Option<Emitted> {
    match x {
        Some(s) => Some(Emitted { insts: s.insts.push(Instruction { inst: v, insert: true }), made: s.made + set![v, z] }),
        None => None,
    }
}

/// One listed value `v`, placed or not.
pub open spec fn single(v: Value, insert: bool) -> Option<Emitted> {
    Some(Emitted { insts: seq![Instruction { inst: v, insert }], made: set![v] })
}

/// `v` computes `e` in `f`, given the values `vals`: the code listed and
/// the values created. `None` where it does not. A name that is an integer
/// constant is the constant (not placed); a variable is a load from its
/// slot; `-a` is `0 - a` and `!a` is `a == 0`.
pub open spec fn emits_expr(e: Expr, m: Names, vals: Map<Value, IrInst>, f: Function, v: Value) -> Option<Emitted>
    decreases e,
{
    emits_lor(*e.expr, m, vals, f, v)
}

pub open spec fn emits_lor(e: LOrExpr, m: Names, vals: Map<Value, IrInst>, f: Function, v: Value) -> Option<Emitted>
    decreases e,
{
    match e {
        LOrExpr::And(a) => emits_land(a, m, vals, f, v),
        LOrExpr::Binary(_, _) => None,
    }
}

pub open spec fn emits_land(e: LAndExpr, m: Names, vals: Map<Value, IrInst>, f: Function, v: Value) -> Option<Emitted>
    decreases e,
{
    match e {
        LAndExpr::Eq(a) => emits_eq(a, m, vals, f, v),
        LAndExpr::Binary(_, _) => None,
    }
}

pub open spec fn emits_unary(e: UnaryExpr, m: Names, vals: Map<Value, IrInst>, f: Function, v: Value) -> Option<Emitted>
    decreases e,
{
    match e {
        UnaryExpr::Primary(p) => emits_primary(p, m, vals, f, v),
        UnaryExpr::UnaryOp(op, a) => match op {
            UnaryOp::Pos => emits_unary(*a, m, vals, f, v),
            UnaryOp::Neg => match binary_parts(vals, f, v, BinaryOp::Sub) {
                Some((z, x)) => if const_of(vals, f, z, 0) {
                    wrapped_emits(emits_unary(*a, m, vals, f, x), v, z)
                } else {
                    None
                },
                None => None,
            },
            UnaryOp::Not => match binary_parts(vals, f, v, BinaryOp::Eq) {
                Some((x, z)) => if const_of(vals, f, z, 0) {
                    wrapped_emits(emits_unary(*a, m, vals, f, x), v, z)
                } else {
                    None
                },
                None => None,
            },
        },
        UnaryExpr::Call(_) => None,
    }
}

pub open spec fn emits_primary(e: PrimaryExpr, m: Names, vals: Map<Value, IrInst>, f: Function, v: Value) -> Option<Emitted>
    decreases e,
{
    match e {
        PrimaryExpr::Num(n) => if const_of(vals, f, v, n.val) {
            single(v, false)
        } else {
            None
        },
        PrimaryExpr::Expr(inner) => emits_expr(*inner, m, vals, f, v),
        PrimaryExpr::LVal(l) => emits_lval(l, m, vals, f, v),
    }
}

pub open spec fn emits_lval(l: LVal, m: Names, vals: Map<Value, IrInst>, f: Function, v: Value) -> Option<Emitted> {
    match manager_get(m, l.ident@) {
        Some(Variable::Const(ConstValue::Int(c))) => if const_of(vals, f, v, c) {
            single(v, false)
        } else {
            None
        },
        Some(Variable::Var(var)) => if vals.dom().contains(v) && vals[v] == (IrInst { func: f, kind: IrKind::Load(var.value) }) {
            single(v, true)
        } else {
            None
        },
        Some(Variable::Const(ConstValue::Function(_))) => None,
        None => None,
    }
}

/// The expressions built here: no `&&`, `||` or call, and every name in
/// scope.
pub open spec fn plain_expr(e: Expr, m: Set<Seq<char>>) -> bool
    decreases e,
{
    plain_lor(*e.expr, m)
}

pub open spec fn plain_lor(e: LOrExpr, m: Set<Seq<char>>) -> bool
    decreases e,
{
    match e {
        LOrExpr::And(a) => plain_land(a, m),
        LOrExpr::Binary(_, _) => false,
    }
}

pub open spec fn plain_land(e: LAndExpr, m: Set<Seq<char>>) -> bool
    decreases e,
{
    match e {
        LAndExpr::Eq(a) => plain_eq(a, m),
        LAndExpr::Binary(_, _) => false,
    }
}

pub open spec fn plain_unary(e: UnaryExpr, m: Set<Seq<char>>) -> bool
    decreases e,
{
    match e {
        UnaryExpr::Primary(p) => plain_primary(p, m),
        UnaryExpr::UnaryOp(_, a) => plain_unary(*a, m),
        UnaryExpr::Call(_) => false,
    }
}

pub open spec fn plain_primary(e: PrimaryExpr, m: Set<Seq<char>>) -> bool
    decreases e,
{
    match e {
        PrimaryExpr::Num(_) => true,
        PrimaryExpr::Expr(inner) => plain_expr(*inner, m),
        PrimaryExpr::LVal(l) => m.contains(l.ident@),
    }
}

/// The names whose value an expression can read: the variables and the
/// integer constants in scope.
pub open spec fn readable(m: Names) -> Set<Seq<char>> {
    Set::new(|k: Seq<char>| m.dom().contains(k) && !(m[k] matches Variable::Const(ConstValue::Function(_))))
}

/// Every variable in scope is a slot of `f`.
pub open spec fn scope_slots(m: Names, vals: Map<Value, IrInst>, f: Function) -> bool {
    forall|k: Seq<char>| #[trigger] m.dom().contains(k) ==> (m[k] matches Variable::Var(var) ==> slot_value(vals, f, var.value))
}

/// Code for `f` can be built with the names `m`.
pub open spec fn generable(p: Program, f: Function, m: Names) -> bool {
    &&& ir_funcs(p).contains(f)
    &&& scope_slots(m, ir_values(p), f)
}

/// Building code went from `before` to `after`, appending the listed
/// instructions to the list, creating exactly the listed values (fresh
/// ones), touching no other value, and leaving an integer `r`.
pub open spec fn generated(
    before: Program,
    after: Program,
    f: Function,
    m: Names,
    i_before: Seq<Instruction>,
    i_after: Seq<Instruction>,
    r: Value,
    em: Option<Emitted>,
) -> bool {
    &&& em is Some
    &&& i_after == i_before + em->0.insts
    &&& ir_values(after).dom() == ir_values(before).dom() + em->0.made
    &&& em->0.made.disjoint(ir_values(before).dom())
    &&& ir_values(before).submap_of(ir_values(after))
    &&& ir_funcs(after) == ir_funcs(before)
    &&& ir_blocks(after) == ir_blocks(before)
    &&& ir_layout(after) == ir_layout(before)
    &&& int_value(ir_values(after), f, r)
    &&& generable(after, f, m)
}

/// A value kept by a growing map.
pub(crate) proof fn lemma_kept(vals: Map<Value, IrInst>, vals2: Map<Value, IrInst>, k: Value)
    requires
        vals.submap_of(vals2),
        vals.dom().contains(k),
    ensures
        vals2.dom().contains(k),
        vals2[k] == vals[k],
{
    assert(vals2.dom().contains(k));
}

/// Adding a fresh value keeps the others.
pub(crate) proof fn lemma_fresh_insert(vals: Map<Value, IrInst>, k: Value, x: IrInst)
    requires
        !vals.dom().contains(k),
    ensures
        vals.submap_of(vals.insert(k, x)),
{
    assert forall|w: Value| #[trigger] vals.dom().contains(w) implies vals.insert(k, x).dom().contains(w) && vals[w] == vals.insert(k, x)[w] by {
        assert(w != k);
    }
}

pub(crate) proof fn lemma_trans(a: Map<Value, IrInst>, b: Map<Value, IrInst>, c: Map<Value, IrInst>)
    requires
        a.submap_of(b),
        b.submap_of(c),
    ensures
        a.submap_of(c),
{
    assert forall|w: Value| #[trigger] a.dom().contains(w) implies c.dom().contains(w) && a[w] == c[w] by {
        lemma_kept(a, b, w);
        lemma_kept(b, c, w);
    }
}

pub(crate) proof fn lemma_scope_grow(m: Names, vals: Map<Value, IrInst>, vals2: Map<Value, IrInst>, f: Function)
    requires
        scope_slots(m, vals, f),
        vals.submap_of(vals2),
    ensures
        scope_slots(m, vals2, f),
{
    assert forall|k: Seq<char>| #[trigger] m.dom().contains(k) implies (m[k] matches Variable::Var(var) ==> slot_value(vals2, f, var.value)) by {
        if let Variable::Var(var) = m[k] {
            lemma_kept(vals, vals2, var.value);
        }
    }
}

/// The operation `v` on two operands built one after the other.
proof fn lemma_generated_binary(
    p0: Program,
    p1: Program,
    p2: Program,
    p3: Program,
    f: Function,
    m: Names,
    i0: Seq<Instruction>,
    i1: Seq<Instruction>,
    i2: Seq<Instruction>,
    i3: Seq<Instruction>,
    a: Value,
    b: Value,
    v: Value,
    ea: Option<Emitted>,
    eb: Option<Emitted>,
    op: BinaryOp,
)
    requires
        generated(p0, p1, f, m, i0, i1, a, ea),
        generated(p1, p2, f, m, i1, i2, b, eb),
        added(p2, p3, v, f, IrKind::Binary(op, a, b)),
        i3 == i2.push(Instruction { inst: v, insert: true }),
    ensures
        binary_parts(ir_values(p3), f, v, op) == Some((a, b)),
        generated(p0, p3, f, m, i0, i3, v, joined_emits(ea, eb, v)),
{
    let x = joined_emits(ea, eb, v)->0;
    assert(i3 =~= i0 + x.insts);
    assert(ir_values(p3).dom() =~= ir_values(p0).dom() + x.made);
    assert(x.made.disjoint(ir_values(p0).dom())) by {
        assert forall|w: Value| x.made.contains(w) implies !ir_values(p0).dom().contains(w) by {
            if eb->0.made.contains(w) {
                assert(!ir_values(p1).dom().contains(w));
            }
        }
    }
    lemma_scope_grow(m, ir_values(p2), ir_values(p3), f);
}

/// `op` on `a` and `b`, listed and placed.
fn binary_step(program: &mut Program, f: Function, op: BinaryOp, a: Value, b: Value, insts: &mut Vec<Instruction>) -> (v: Value)
    requires
        ir_funcs(*old(program)).contains(f),
        int_value(ir_values(*old(program)), f, a),
        int_value(ir_values(*old(program)), f, b),
    ensures
        added(*old(program), *final(program), v, f, IrKind::Binary(op, a, b)),
        final(insts)@ == old(insts)@.push(Instruction { inst: v, insert: true }),
{
    let v = new_binary(program, f, op, a, b);
    insts.push(Instruction::new(v, true));
    v
}

pub open spec fn emits_eq(e: EqExpr, m: Names, vals: Map<Value, IrInst>, f: Function, v: Value) -> Option<Emitted>
    decreases e,
{
    match e {
        EqExpr::Rel(a) => emits_rel(a, m, vals, f, v),
        EqExpr::Binary(l, op, r) => match binary_parts(vals, f, v, eq_op_ir(op)) {
            Some((a, b)) => joined_emits(emits_eq(*l, m, vals, f, a), emits_rel(*r, m, vals, f, b), v),
            None => None,
        },
    }
}

pub open spec fn plain_eq(e: EqExpr, m: Set<Seq<char>>) -> bool
    decreases e,
{
    match e {
        EqExpr::Rel(a) => plain_rel(a, m),
        EqExpr::Binary(l, _, r) => plain_eq(*l, m) && plain_rel(*r, m),
    }
}

pub proof fn lemma_emits_eq_grow(e: EqExpr, m: Names, vals: Map<Value, IrInst>, vals2: Map<Value, IrInst>, f: Function, v: Value)
    requires
        vals.submap_of(vals2),
        emits_eq(e, m, vals, f, v) is Some,
    ensures
        emits_eq(e, m, vals2, f, v) == emits_eq(e, m, vals, f, v),
    decreases e,
{
    match e {
        EqExpr::Rel(a) => lemma_emits_rel_grow(a, m, vals, vals2, f, v),
        EqExpr::Binary(l, op, r) => {
            let (a, b) = binary_parts(vals, f, v, eq_op_ir(op))->0;
            lemma_kept(vals, vals2, v);
            lemma_emits_eq_grow(*l, m, vals, vals2, f, a);
            lemma_emits_rel_grow(*r, m, vals, vals2, f, b);
        },
    }
}

fn eq_ir(e: &EqExpr, program: &mut Program, f: Function, m: &VariableManager, insts: &mut Vec<Instruction>) -> (r: Value)
    requires
        generable(*old(program), f, m@),
        plain_eq(*e, readable(m@)),
    ensures
        generated(*old(program), *final(program), f, m@, old(insts)@, final(insts)@, r, emits_eq(*e, m@, ir_values(*final(program)), f, r)),
    decreases e,
{
    match e {
        EqExpr::Rel(a) => rel_ir(a, program, f, m, insts),
        EqExpr::Binary(l, op, r) => {
            let ghost p0 = *program;
            let ghost i0 = insts@;
            let a = eq_ir(l, program, f, m, insts);
            let ghost p1 = *program;
            let ghost i1 = insts@;
            let b = rel_ir(r, program, f, m, insts);
            let ghost p2 = *program;
            let ghost i2 = insts@;
            proof {
                lemma_kept(ir_values(p1), ir_values(p2), a);
            }
            let v = binary_step(program, f, eq_op_ir_exec(*op), a, b, insts);
            proof {
                lemma_fresh_insert(ir_values(p2), v, IrInst { func: f, kind: IrKind::Binary(eq_op_ir(*op), a, b) });
                lemma_trans(ir_values(p1), ir_values(p2), ir_values(*program));
                lemma_emits_eq_grow(**l, m@, ir_values(p1), ir_values(*program), f, a);
                lemma_emits_rel_grow(**r, m@, ir_values(p2), ir_values(*program), f, b);
                lemma_generated_binary(p0, p1, p2, *program, f, m@, i0, i1, i2, insts@, a, b, v,
                    emits_eq(**l, m@, ir_values(p1), f, a), emits_rel(**r, m@, ir_values(p2), f, b), eq_op_ir(*op));
            }
            v
        },
    }
}

pub open spec fn emits_rel(e: RelExpr, m: Names, vals: Map<Value, IrInst>, f: Function, v: Value) -> Option<Emitted>
    decreases e,
{
    match e {
        RelExpr::Add(a) => emits_add(a, m, vals, f, v),
        RelExpr::Binary(l, op, r) => match binary_parts(vals, f, v, rel_op_ir(op)) {
            Some((a, b)) => joined_emits(emits_rel(*l, m, vals, f, a), emits_add(*r, m, vals, f, b), v),
            None => None,
        },
    }
}

pub open spec fn plain_rel(e: RelExpr, m: Set<Seq<char>>) -> bool
    decreases e,
{
    match e {
        RelExpr::Add(a) => plain_add(a, m),
        RelExpr::Binary(l, _, r) => plain_rel(*l, m) && plain_add(*r, m),
    }
}

pub proof fn lemma_emits_rel_grow(e: RelExpr, m: Names, vals: Map<Value, IrInst>, vals2: Map<Value, IrInst>, f: Function, v: Value)
    requires
        vals.submap_of(vals2),
        emits_rel(e, m, vals, f, v) is Some,
    ensures
        emits_rel(e, m, vals2, f, v) == emits_rel(e, m, vals, f, v),
    decreases e,
{
    match e {
        RelExpr::Add(a) => lemma_emits_add_grow(a, m, vals, vals2, f, v),
        RelExpr::Binary(l, op, r) => {
            let (a, b) = binary_parts(vals, f, v, rel_op_ir(op))->0;
            lemma_kept(vals, vals2, v);
            lemma_emits_rel_grow(*l, m, vals, vals2, f, a);
            lemma_emits_add_grow(*r, m, vals, vals2, f, b);
        },
    }
}

fn rel_ir(e: &RelExpr, program: &mut Program, f: Function, m: &VariableManager, insts: &mut Vec<Instruction>) -> (r: Value)
    requires
        generable(*old(program), f, m@),
        plain_rel(*e, readable(m@)),
    ensures
        generated(*old(program), *final(program), f, m@, old(insts)@, final(insts)@, r, emits_rel(*e, m@, ir_values(*final(program)), f, r)),
    decreases e,
{
    match e {
        RelExpr::Add(a) => add_ir(a, program, f, m, insts),
        RelExpr::Binary(l, op, r) => {
            let ghost p0 = *program;
            let ghost i0 = insts@;
            let a = rel_ir(l, program, f, m, insts);
            let ghost p1 = *program;
            let ghost i1 = insts@;
            let b = add_ir(r, program, f, m, insts);
            let ghost p2 = *program;
            let ghost i2 = insts@;
            proof {
                lemma_kept(ir_values(p1), ir_values(p2), a);
            }
            let v = binary_step(program, f, rel_op_ir_exec(*op), a, b, insts);
            proof {
                lemma_fresh_insert(ir_values(p2), v, IrInst { func: f, kind: IrKind::Binary(rel_op_ir(*op), a, b) });
                lemma_trans(ir_values(p1), ir_values(p2), ir_values(*program));
                lemma_emits_rel_grow(**l, m@, ir_values(p1), ir_values(*program), f, a);
                lemma_emits_add_grow(**r, m@, ir_values(p2), ir_values(*program), f, b);
                lemma_generated_binary(p0, p1, p2, *program, f, m@, i0, i1, i2, insts@, a, b, v,
                    emits_rel(**l, m@, ir_values(p1), f, a), emits_add(**r, m@, ir_values(p2), f, b), rel_op_ir(*op));
            }
            v
        },
    }
}

pub open spec fn emits_add(e: AddExpr, m: Names, vals: Map<Value, IrInst>, f: Function, v: Value) -> Option<Emitted>
    decreases e,
{
    match e {
        AddExpr::Mul(a) => emits_mul(a, m, vals, f, v),
        AddExpr::Binary(l, op, r) => match binary_parts(vals, f, v, add_op_ir(op)) {
            Some((a, b)) => joined_emits(emits_add(*l, m, vals, f, a), emits_mul(*r, m, vals, f, b), v),
            None => None,
        },
    }
}

pub open spec fn plain_add(e: AddExpr, m: Set<Seq<char>>) -> bool
    decreases e,
{
    match e {
        AddExpr::Mul(a) => plain_mul(a, m),
        AddExpr::Binary(l, _, r) => plain_add(*l, m) && plain_mul(*r, m),
    }
}

pub proof fn lemma_emits_add_grow(e: AddExpr, m: Names, vals: Map<Value, IrInst>, vals2: Map<Value, IrInst>, f: Function, v: Value)
    requires
        vals.submap_of(vals2),
        emits_add(e, m, vals, f, v) is Some,
    ensures
        emits_add(e, m, vals2, f, v) == emits_add(e, m, vals, f, v),
    decreases e,
{
    match e {
        AddExpr::Mul(a) => lemma_emits_mul_grow(a, m, vals, vals2, f, v),
        AddExpr::Binary(l, op, r) => {
            let (a, b) = binary_parts(vals, f, v, add_op_ir(op))->0;
            lemma_kept(vals, vals2, v);
            lemma_emits_add_grow(*l, m, vals, vals2, f, a);
            lemma_emits_mul_grow(*r, m, vals, vals2, f, b);
        },
    }
}

fn add_ir(e: &AddExpr, program: &mut Program, f: Function, m: &VariableManager, insts: &mut Vec<Instruction>) -> (r: Value)
    requires
        generable(*old(program), f, m@),
        plain_add(*e, readable(m@)),
    ensures
        generated(*old(program), *final(program), f, m@, old(insts)@, final(insts)@, r, emits_add(*e, m@, ir_values(*final(program)), f, r)),
    decreases e,
{
    match e {
        AddExpr::Mul(a) => mul_ir(a, program, f, m, insts),
        AddExpr::Binary(l, op, r) => {
            let ghost p0 = *program;
            let ghost i0 = insts@;
            let a = add_ir(l, program, f, m, insts);
            let ghost p1 = *program;
            let ghost i1 = insts@;
            let b = mul_ir(r, program, f, m, insts);
            let ghost p2 = *program;
            let ghost i2 = insts@;
            proof {
                lemma_kept(ir_values(p1), ir_values(p2), a);
            }
            let v = binary_step(program, f, add_op_ir_exec(*op), a, b, insts);
            proof {
                lemma_fresh_insert(ir_values(p2), v, IrInst { func: f, kind: IrKind::Binary(add_op_ir(*op), a, b) });
                lemma_trans(ir_values(p1), ir_values(p2), ir_values(*program));
                lemma_emits_add_grow(**l, m@, ir_values(p1), ir_values(*program), f, a);
                lemma_emits_mul_grow(**r, m@, ir_values(p2), ir_values(*program), f, b);
                lemma_generated_binary(p0, p1, p2, *program, f, m@, i0, i1, i2, insts@, a, b, v,
                    emits_add(**l, m@, ir_values(p1), f, a), emits_mul(**r, m@, ir_values(p2), f, b), add_op_ir(*op));
            }
            v
        },
    }
}

pub open spec fn emits_mul(e: MulExpr, m: Names, vals: Map<Value, IrInst>, f: Function, v: Value) -> Option<Emitted>
    decreases e,
{
    match e {
        MulExpr::Unary(a) => emits_unary(a, m, vals, f, v),
        MulExpr::Binary(l, op, r) => match binary_parts(vals, f, v, mul_op_ir(op)) {
            Some((a, b)) => joined_emits(emits_mul(*l, m, vals, f, a), emits_unary(*r, m, vals, f, b), v),
            None => None,
        },
    }
}

pub open spec fn plain_mul(e: MulExpr, m: Set<Seq<char>>) -> bool
    decreases e,
{
    match e {
        MulExpr::Unary(a) => plain_unary(a, m),
        MulExpr::Binary(l, _, r) => plain_mul(*l, m) && plain_unary(*r, m),
    }
}

pub proof fn lemma_emits_mul_grow(e: MulExpr, m: Names, vals: Map<Value, IrInst>, vals2: Map<Value, IrInst>, f: Function, v: Value)
    requires
        vals.submap_of(vals2),
        emits_mul(e, m, vals, f, v) is Some,
    ensures
        emits_mul(e, m, vals2, f, v) == emits_mul(e, m, vals, f, v),
    decreases e,
{
    match e {
        MulExpr::Unary(a) => lemma_emits_unary_grow(a, m, vals, vals2, f, v),
        MulExpr::Binary(l, op, r) => {
            let (a, b) = binary_parts(vals, f, v, mul_op_ir(op))->0;
            lemma_kept(vals, vals2, v);
            lemma_emits_mul_grow(*l, m, vals, vals2, f, a);
            lemma_emits_unary_grow(*r, m, vals, vals2, f, b);
        },
    }
}

fn mul_ir(e: &MulExpr, program: &mut Program, f: Function, m: &VariableManager, insts: &mut Vec<Instruction>) -> (r: Value)
    requires
        generable(*old(program), f, m@),
        plain_mul(*e, readable(m@)),
    ensures
        generated(*old(program), *final(program), f, m@, old(insts)@, final(insts)@, r, emits_mul(*e, m@, ir_values(*final(program)), f, r)),
    decreases e,
{
    match e {
        MulExpr::Unary(a) => unary_ir(a, program, f, m, insts),
        MulExpr::Binary(l, op, r) => {
            let ghost p0 = *program;
            let ghost i0 = insts@;
            let a = mul_ir(l, program, f, m, insts);
            let ghost p1 = *program;
            let ghost i1 = insts@;
            let b = unary_ir(r, program, f, m, insts);
            let ghost p2 = *program;
            let ghost i2 = insts@;
            proof {
                lemma_kept(ir_values(p1), ir_values(p2), a);
            }
            let v = binary_step(program, f, mul_op_ir_exec(*op), a, b, insts);
            proof {
                lemma_fresh_insert(ir_values(p2), v, IrInst { func: f, kind: IrKind::Binary(mul_op_ir(*op), a, b) });
                lemma_trans(ir_values(p1), ir_values(p2), ir_values(*program));
                lemma_emits_mul_grow(**l, m@, ir_values(p1), ir_values(*program), f, a);
                lemma_emits_unary_grow(**r, m@, ir_values(p2), ir_values(*program), f, b);
                lemma_generated_binary(p0, p1, p2, *program, f, m@, i0, i1, i2, insts@, a, b, v,
                    emits_mul(**l, m@, ir_values(p1), f, a), emits_unary(**r, m@, ir_values(p2), f, b), mul_op_ir(*op));
            }
            v
        },
    }
}

pub proof fn lemma_emits_expr_grow(e: Expr, m: Names, vals: Map<Value, IrInst>, vals2: Map<Value, IrInst>, f: Function, v: Value)
    requires
        vals.submap_of(vals2),
        emits_expr(e, m, vals, f, v) is Some,
    ensures
        emits_expr(e, m, vals2, f, v) == emits_expr(e, m, vals, f, v),
    decreases e,
{
    lemma_emits_lor_grow(*e.expr, m, vals, vals2, f, v);
}

pub proof fn lemma_emits_lor_grow(e: LOrExpr, m: Names, vals: Map<Value, IrInst>, vals2: Map<Value, IrInst>, f: Function, v: Value)
    requires
        vals.submap_of(vals2),
        emits_lor(e, m, vals, f, v) is Some,
    ensures
        emits_lor(e, m, vals2, f, v) == emits_lor(e, m, vals, f, v),
    decreases e,
{
    if let LOrExpr::And(a) = e {
        lemma_emits_land_grow(a, m, vals, vals2, f, v);
    }
}

pub proof fn lemma_emits_land_grow(e: LAndExpr, m: Names, vals: Map<Value, IrInst>, vals2: Map<Value, IrInst>, f: Function, v: Value)
    requires
        vals.submap_of(vals2),
        emits_land(e, m, vals, f, v) is Some,
    ensures
        emits_land(e, m, vals2, f, v) == emits_land(e, m, vals, f, v),
    decreases e,
{
    if let LAndExpr::Eq(a) = e {
        lemma_emits_eq_grow(a, m, vals, vals2, f, v);
    }
}

pub proof fn lemma_emits_unary_grow(e: UnaryExpr, m: Names, vals: Map<Value, IrInst>, vals2: Map<Value, IrInst>, f: Function, v: Value)
    requires
        vals.submap_of(vals2),
        emits_unary(e, m, vals, f, v) is Some,
    ensures
        emits_unary(e, m, vals2, f, v) == emits_unary(e, m, vals, f, v),
    decreases e,
{
    match e {
        UnaryExpr::Primary(p) => lemma_emits_primary_grow(p, m, vals, vals2, f, v),
        UnaryExpr::UnaryOp(op, a) => match op {
            UnaryOp::Pos => lemma_emits_unary_grow(*a, m, vals, vals2, f, v),
            UnaryOp::Neg => {
                let (z, x) = binary_parts(vals, f, v, BinaryOp::Sub)->0;
                lemma_kept(vals, vals2, v);
                lemma_kept(vals, vals2, z);
                lemma_emits_unary_grow(*a, m, vals, vals2, f, x);
            },
            UnaryOp::Not => {
                let (x, z) = binary_parts(vals, f, v, BinaryOp::Eq)->0;
                lemma_kept(vals, vals2, v);
                lemma_kept(vals, vals2, z);
                lemma_emits_unary_grow(*a, m, vals, vals2, f, x);
            },
        },
        UnaryExpr::Call(_) => {},
    }
}

pub proof fn lemma_emits_primary_grow(e: PrimaryExpr, m: Names, vals: Map<Value, IrInst>, vals2: Map<Value, IrInst>, f: Function, v: Value)
    requires
        vals.submap_of(vals2),
        emits_primary(e, m, vals, f, v) is Some,
    ensures
        emits_primary(e, m, vals2, f, v) == emits_primary(e, m, vals, f, v),
    decreases e,
{
    match e {
        PrimaryExpr::Num(_) => {
            lemma_kept(vals, vals2, v);
        },
        PrimaryExpr::Expr(inner) => lemma_emits_expr_grow(*inner, m, vals, vals2, f, v),
        PrimaryExpr::LVal(_) => {
            lemma_kept(vals, vals2, v);
        },
    }
}

fn expr_ir_inner(e: &Expr, program: &mut Program, f: Function, m: &VariableManager, insts: &mut Vec<Instruction>) -> (r: Value)
    requires
        generable(*old(program), f, m@),
        plain_expr(*e, readable(m@)),
    ensures
        generated(*old(program), *final(program), f, m@, old(insts)@, final(insts)@, r, emits_expr(*e, m@, ir_values(*final(program)), f, r)),
    decreases e,
{
    match &*e.expr {
        LOrExpr::And(a) => match a {
            LAndExpr::Eq(x) => eq_ir(x, program, f, m, insts),
            LAndExpr::Binary(_, _) => {
                vstd::pervasive::unreached()
            },
        },
        LOrExpr::Binary(_, _) => {
            vstd::pervasive::unreached()
        },
    }
}

/// A value of `f` holding the constant `c`, listed and not placed.
fn constant_step(program: &mut Program, f: Function, c: i32, m: &VariableManager, insts: &mut Vec<Instruction>) -> (v: Value)
    requires
        generable(*old(program), f, m@),
    ensures
        const_of(ir_values(*final(program)), f, v, c),
        generated(*old(program), *final(program), f, m@, old(insts)@, final(insts)@, v, single(v, false)),
{
    let v = new_integer(program, f, c);
    insts.push(Instruction::new(v, false));
    proof {
        lemma_fresh_insert(ir_values(*old(program)), v, IrInst { func: f, kind: IrKind::Integer(c) });
        assert(insts@ =~= old(insts)@ + single(v, false)->0.insts);
        assert(ir_values(*program).dom() =~= ir_values(*old(program)).dom() + set![v]);
        lemma_scope_grow(m@, ir_values(*old(program)), ir_values(*program), f);
    }
    v
}

fn lval_ir(l: &LVal, program: &mut Program, f: Function, m: &VariableManager, insts: &mut Vec<Instruction>) -> (r: Value)
    requires
        generable(*old(program), f, m@),
        readable(m@).contains(l.ident@),
    ensures
        generated(*old(program), *final(program), f, m@, old(insts)@, final(insts)@, r, emits_lval(*l, m@, ir_values(*final(program)), f, r)),
{
    match m.get(l.ident.as_str()) {
        Some(Variable::Const(ConstValue::Int(c))) => constant_step(program, f, *c, m, insts),
        Some(Variable::Const(ConstValue::Function(_))) => {
            assert(false);
            constant_step(program, f, 0, m, insts)
        },
        Some(Variable::Var(var)) => {
            proof {
                assert(m@.dom().contains(l.ident@));
            }
            let v = new_load(program, f, var.value);
            insts.push(Instruction::new(v, true));
            proof {
                lemma_fresh_insert(ir_values(*old(program)), v, IrInst { func: f, kind: IrKind::Load(var.value) });
                assert(insts@ =~= old(insts)@ + single(v, true)->0.insts);
                assert(ir_values(*program).dom() =~= ir_values(*old(program)).dom() + set![v]);
                lemma_scope_grow(m@, ir_values(*old(program)), ir_values(*program), f);
            }
            v
        },
        None => {
            proof {
                assert(false);
            }
            constant_step(program, f, 0, m, insts)
        },
    }
}

fn primary_ir(e: &PrimaryExpr, program: &mut Program, f: Function, m: &VariableManager, insts: &mut Vec<Instruction>) -> (r: Value)
    requires
        generable(*old(program), f, m@),
        plain_primary(*e, readable(m@)),
    ensures
        generated(*old(program), *final(program), f, m@, old(insts)@, final(insts)@, r, emits_primary(*e, m@, ir_values(*final(program)), f, r)),
    decreases e,
{
    match e {
        PrimaryExpr::Num(n) => constant_step(program, f, n.val, m, insts),
        PrimaryExpr::Expr(inner) => expr_ir_inner(inner, program, f, m, insts),
        PrimaryExpr::LVal(l) => lval_ir(l, program, f, m, insts),
    }
}

/// `op` on `x` against a new constant 0 (`0 - x` when `zero_first`, else
/// `x == 0`).
fn against_zero(program: &mut Program, f: Function, m: &VariableManager, x: Value, zero_first: bool, insts: &mut Vec<Instruction>) -> (r: (Value, Value))
    requires
        generable(*old(program), f, m@),
        int_value(ir_values(*old(program)), f, x),
    ensures
        ({
            let (v, z) = r;
            let op = if zero_first { BinaryOp::Sub } else { BinaryOp::Eq };
            let kind = if zero_first { IrKind::Binary(op, z, x) } else { IrKind::Binary(op, x, z) };
            &&& !ir_values(*old(program)).dom().contains(z)
            &&& !ir_values(*old(program)).dom().contains(v)
            &&& z != v
            &&& ir_values(*final(program)) == ir_values(*old(program)).insert(z, IrInst { func: f, kind: IrKind::Integer(0) }).insert(v, IrInst { func: f, kind })
            &&& ir_funcs(*final(program)) == ir_funcs(*old(program))
            &&& ir_blocks(*final(program)) == ir_blocks(*old(program))
            &&& ir_layout(*final(program)) == ir_layout(*old(program))
            &&& final(insts)@ == old(insts)@.push(Instruction { inst: v, insert: true })
        }),
{
    let z = new_integer(program, f, 0);
    let v = if zero_first {
        new_binary(program, f, BinaryOp::Sub, z, x)
    } else {
        new_binary(program, f, BinaryOp::Eq, x, z)
    };
    insts.push(Instruction::new(v, true));
    (v, z)
}

fn unary_ir(e: &UnaryExpr, program: &mut Program, f: Function, m: &VariableManager, insts: &mut Vec<Instruction>) -> (r: Value)
    requires
        generable(*old(program), f, m@),
        plain_unary(*e, readable(m@)),
    ensures
        generated(*old(program), *final(program), f, m@, old(insts)@, final(insts)@, r, emits_unary(*e, m@, ir_values(*final(program)), f, r)),
    decreases e,
{
    match e {
        UnaryExpr::Primary(p) => primary_ir(p, program, f, m, insts),
        UnaryExpr::UnaryOp(op, a) => {
            let ghost p0 = *program;
            let ghost i0 = insts@;
            let x = unary_ir(a, program, f, m, insts);
            let ghost p1 = *program;
            let ghost i1 = insts@;
            let ghost ex = emits_unary(**a, m@, ir_values(p1), f, x);
            match op {
                UnaryOp::Pos => x,
                _ => {
                    let zero_first = match op {
                        UnaryOp::Neg => true,
                        _ => false,
                    };
                    let (v, z) = against_zero(program, f, m, x, zero_first, insts);
                    proof {
                        let vals1 = ir_values(p1);
                        let vals2 = ir_values(*program);
                        let mid = vals1.insert(z, IrInst { func: f, kind: IrKind::Integer(0) });
                        lemma_fresh_insert(vals1, z, IrInst { func: f, kind: IrKind::Integer(0) });
                        lemma_fresh_insert(mid, v, vals2[v]);
                        assert(vals2 == mid.insert(v, vals2[v]));
                        lemma_trans(vals1, mid, vals2);
                        lemma_trans(ir_values(p0), vals1, vals2);
                        lemma_emits_unary_grow(**a, m@, vals1, vals2, f, x);
                        let w = wrapped_emits(ex, v, z)->0;
                        assert(insts@ =~= i0 + w.insts);
                        assert(vals2.dom() =~= ir_values(p0).dom() + w.made);
                        lemma_scope_grow(m@, vals1, vals2, f);
                    }
                    v
                },
            }
        },
        UnaryExpr::Call(_) => {
            vstd::pervasive::unreached()
        },
    }
}

/// Builds the code of `e`, an expression without `&&`, `||` or calls whose
/// names are all in scope, into function `f`: appends its instructions to
/// `insts` and gives the value that holds its result (see [`emits_expr`]).
pub fn expr_ir(e: &Expr, program: &mut Program, f: Function, m: &VariableManager, insts: &mut Vec<Instruction>) -> (r: Value)
    requires
        generable(*old(program), f, m@),
        plain_expr(*e, readable(m@)),
    ensures
        generated(*old(program), *final(program), f, m@, old(insts)@, final(insts)@, r, emits_expr(*e, m@, ir_values(*final(program)), f, r)),
{
    expr_ir_inner(e, program, f, m, insts)
}

/// Law: the IR operation built for each comparison computes that
/// comparison of its operands: 1 exactly when it holds, else 0.
pub proof fn law_ir_compares(a: i32, b: i32)
    ensures
        ir_binary_value(rel_op_ir(RelOp::Lt), a, b) == Some(if a < b { 1i32 } else { 0i32 }),
        ir_binary_value(rel_op_ir(RelOp::Gt), a, b) == Some(if a > b { 1i32 } else { 0i32 }),
        ir_binary_value(rel_op_ir(RelOp::Le), a, b) == Some(if a <= b { 1i32 } else { 0i32 }),
        ir_binary_value(rel_op_ir(RelOp::Ge), a, b) == Some(if a >= b { 1i32 } else { 0i32 }),
        ir_binary_value(eq_op_ir(EqOp::Eq), a, b) == Some(if a == b { 1i32 } else { 0i32 }),
        ir_binary_value(eq_op_ir(EqOp::NotEq), a, b) == Some(if a != b { 1i32 } else { 0i32 }),
{
}

/// Law: where constant folding gives a value, the IR operation built for
/// the same operator computes that value at run time: folding and building
/// agree on every operator.
pub proof fn law_fold_agrees_with_ir(a: i32, b: i32, rel: RelOp, eq: EqOp, add: AddOp, mul: MulOp)
    ensures
        fold_rel_op(rel, a, b) == Folded::Const(ir_binary_value(rel_op_ir(rel), a, b)->0),
        ir_binary_value(rel_op_ir(rel), a, b) is Some,
        fold_eq_op(eq, a, b) == Folded::Const(ir_binary_value(eq_op_ir(eq), a, b)->0),
        ir_binary_value(eq_op_ir(eq), a, b) is Some,
        fold_add_op(add, a, b) matches Folded::Const(v) ==> ir_binary_value(add_op_ir(add), a, b) == Some(v),
        fold_mul_op(mul, a, b) matches Folded::Const(v) ==> ir_binary_value(mul_op_ir(mul), a, b) == Some(v),
{
}

/// `v` is the operation `op` of `f` on `x` and `y`, in that order.
pub open spec fn operation_of(vals: Map<Value, IrInst>, f: Function, v: Value, op: BinaryOp, x: Value, y: Value) -> bool {
    vals.dom().contains(v) && vals[v] == (IrInst { func: f, kind: IrKind::Binary(op, x, y) })
}

/// Law: a comparison `l op r` is built as one IR operation whose left
/// operand computes `l` and whose right operand computes `r`, and that
/// operation gives 1 exactly when the comparison holds of the two values.
pub proof fn law_rel_expr_built(l: Box<RelExpr>, op: RelOp, r: Box<AddExpr>, m: Names, vals: Map<Value, IrInst>, f: Function, v: Value)
    requires
        emits_rel(RelExpr::Binary(l, op, r), m, vals, f, v) is Some,
    ensures
        exists|x: Value, y: Value, bop: BinaryOp| {
            &&& #[trigger] operation_of(vals, f, v, bop, x, y)
            &&& emits_rel(*l, m, vals, f, x) is Some
            &&& emits_add(*r, m, vals, f, y) is Some
            &&& op is Lt ==> forall|a: i32, b: i32| ir_binary_value(bop, a, b) == Some(if a < b { 1i32 } else { 0i32 })
            &&& op is Gt ==> forall|a: i32, b: i32| ir_binary_value(bop, a, b) == Some(if a > b { 1i32 } else { 0i32 })
            &&& op is Le ==> forall|a: i32, b: i32| ir_binary_value(bop, a, b) == Some(if a <= b { 1i32 } else { 0i32 })
            &&& op is Ge ==> forall|a: i32, b: i32| ir_binary_value(bop, a, b) == Some(if a >= b { 1i32 } else { 0i32 })
        },
{
    let (x, y) = binary_parts(vals, f, v, rel_op_ir(op))->0;
    assert(operation_of(vals, f, v, rel_op_ir(op), x, y));
}

/// Law: an equality test `l op r` is built as one IR operation whose left
/// operand computes `l` and whose right operand computes `r`, and that
/// operation gives 1 exactly when the test holds of the two values.
pub proof fn law_eq_expr_built(l: Box<EqExpr>, op: EqOp, r: Box<RelExpr>, m: Names, vals: Map<Value, IrInst>, f: Function, v: Value)
    requires
        emits_eq(EqExpr::Binary(l, op, r), m, vals, f, v) is Some,
    ensures
        exists|x: Value, y: Value, bop: BinaryOp| {
            &&& #[trigger] operation_of(vals, f, v, bop, x, y)
            &&& emits_eq(*l, m, vals, f, x) is Some
            &&& emits_rel(*r, m, vals, f, y) is Some
            &&& op is Eq ==> forall|a: i32, b: i32| ir_binary_value(bop, a, b) == Some(if a == b { 1i32 } else { 0i32 })
            &&& op is NotEq ==> forall|a: i32, b: i32| ir_binary_value(bop, a, b) == Some(if a != b { 1i32 } else { 0i32 })
        },
{
    let (x, y) = binary_parts(vals, f, v, eq_op_ir(op))->0;
    assert(operation_of(vals, f, v, eq_op_ir(op), x, y));
}

/// Law: a sum or difference `l op r` is built as one IR operation whose
/// left operand computes `l` and whose right operand computes `r`, and that
/// operation adds or subtracts them, wrapping around.
pub proof fn law_add_expr_built(l: Box<AddExpr>, op: AddOp, r: Box<MulExpr>, m: Names, vals: Map<Value, IrInst>, f: Function, v: Value)
    requires
        emits_add(AddExpr::Binary(l, op, r), m, vals, f, v) is Some,
    ensures
        exists|x: Value, y: Value, bop: BinaryOp| {
            &&& #[trigger] operation_of(vals, f, v, bop, x, y)
            &&& emits_add(*l, m, vals, f, x) is Some
            &&& emits_mul(*r, m, vals, f, y) is Some
            &&& op is Add ==> forall|a: i32, b: i32| ir_binary_value(bop, a, b) == Some((a + b) as i32)
            &&& op is Sub ==> forall|a: i32, b: i32| ir_binary_value(bop, a, b) == Some((a - b) as i32)
        },
{
    let (x, y) = binary_parts(vals, f, v, add_op_ir(op))->0;
    assert(operation_of(vals, f, v, add_op_ir(op), x, y));
}

/// Law: a product, quotient or remainder `l op r` is built as one IR
/// operation whose left operand computes `l` and whose right operand
/// computes `r`; the operation multiplies (wrapping around), or, for a
/// nonzero divisor, gives the quotient or the remainder of a division that
/// rounds toward zero: together they rebuild the dividend, the remainder
/// smaller than the divisor in size and zero or of the dividend's sign.
pub proof fn law_mul_expr_built(l: Box<MulExpr>, op: MulOp, r: Box<UnaryExpr>, m: Names, vals: Map<Value, IrInst>, f: Function, v: Value)
    requires
        emits_mul(MulExpr::Binary(l, op, r), m, vals, f, v) is Some,
    ensures
        exists|x: Value, y: Value, bop: BinaryOp| {
            &&& #[trigger] operation_of(vals, f, v, bop, x, y)
            &&& emits_mul(*l, m, vals, f, x) is Some
            &&& emits_unary(*r, m, vals, f, y) is Some
            &&& op is Mul ==> forall|a: i32, b: i32| ir_binary_value(bop, a, b) == Some((a * b) as i32)
            &&& op is Div ==> forall|a: i32, b: i32|
                b != 0 && !(a == i32::MIN && b == -1) ==> #[trigger] ir_binary_value(bop, a, b) == Some(trunc_div(a as int, b as int) as i32)
            &&& op is Mod ==> forall|a: i32, b: i32|
                b != 0 && !(a == i32::MIN && b == -1) ==> #[trigger] ir_binary_value(bop, a, b) == Some(trunc_rem(a as int, b as int) as i32)
        },
{
    let (x, y) = binary_parts(vals, f, v, mul_op_ir(op))->0;
    assert(operation_of(vals, f, v, mul_op_ir(op), x, y));
}

/// Law: `-a` is built as the IR operation `0 - a` on the value of `a` (so
/// it negates, wrapping around), `!a` as the operation `a == 0` (1 exactly
/// when `a` is 0), and `+a` as `a` itself.
pub proof fn law_unary_expr_built(op: UnaryOp, a: Box<UnaryExpr>, m: Names, vals: Map<Value, IrInst>, f: Function, v: Value)
    requires
        emits_unary(UnaryExpr::UnaryOp(op, a), m, vals, f, v) is Some,
    ensures
        op is Pos ==> emits_unary(*a, m, vals, f, v) is Some,
        op is Neg ==> exists|z: Value, x: Value, bop: BinaryOp| {
            &&& #[trigger] operation_of(vals, f, v, bop, z, x)
            &&& const_of(vals, f, z, 0)
            &&& emits_unary(*a, m, vals, f, x) is Some
            &&& forall|n: i32| #[trigger] ir_binary_value(bop, 0, n) == Some((0 - n) as i32)
        },
        op is Not ==> exists|x: Value, z: Value, bop: BinaryOp| {
            &&& #[trigger] operation_of(vals, f, v, bop, x, z)
            &&& const_of(vals, f, z, 0)
            &&& emits_unary(*a, m, vals, f, x) is Some
            &&& forall|n: i32| #[trigger] ir_binary_value(bop, n, 0) == Some(if n == 0 { 1i32 } else { 0i32 })
        },
{
    match op {
        UnaryOp::Pos => {},
        UnaryOp::Neg => {
            let (z, x) = binary_parts(vals, f, v, BinaryOp::Sub)->0;
            assert(operation_of(vals, f, v, BinaryOp::Sub, z, x));
        },
        UnaryOp::Not => {
            let (x, z) = binary_parts(vals, f, v, BinaryOp::Eq)->0;
            assert(operation_of(vals, f, v, BinaryOp::Eq, x, z));
        },
    }
}

} // verus!
