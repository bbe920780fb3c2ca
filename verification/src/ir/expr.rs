//! Evaluating expressions at compile time.
use vstd::prelude::*;

use crate::ir::meta::{manager_get, ConstValue, Variable, VariableManager};
use crate::parse::ast::{
    AddExpr, AddOp, ConstExpr, ConstInitVal, EqExpr, EqOp, Expr, InitVal, LAndExpr, LOrExpr, LVal,
    MulExpr, MulOp, Number, PrimaryExpr, RelExpr, RelOp, UnaryExpr, UnaryOp,
};

verus! {

/// The outcome of evaluating an expression at compile time.
pub enum Folded {
    /// The expression is a constant with this value.
    Const(i32),
    /// The expression reads a variable or calls a function.
    NotConst,
    /// The evaluation overflows `i32` or divides by zero: the compiler panics.
    Fault,
}

/// The names in scope, as a map.
pub type Scope = Map<Seq<char>, Variable>;

pub open spec fn i32_result(v: int) -> Folded {
    if i32::MIN <= v <= i32::MAX {
        Folded::Const(v as i32)
    } else {
        Folded::Fault
    }
}

pub open spec fn bool_value(b: bool) -> Folded {
    if b {
        Folded::Const(1)
    } else {
        Folded::Const(0)
    }
}

/// Division rounding toward zero, as in C and Rust.
pub open spec fn trunc_div(x: int, d: int) -> int {
    if x == 0 {
        0
    } else if x > 0 && d > 0 {
        x / d
    } else if x < 0 && d < 0 {
        (-x) / (-d)
    } else if x < 0 {
        -((-x) / d)
    } else {
        -(x / (-d))
    }
}

/// The remainder that goes with [`trunc_div`]: it has the sign of the dividend.
pub open spec fn trunc_rem(x: int, d: int) -> int {
    if x == 0 {
        0
    } else if x > 0 && d > 0 {
        x % d
    } else if x < 0 && d < 0 {
        -((-x) % (-d))
    } else if x < 0 {
        -((-x) % d)
    } else {
        x % (-d)
    }
}

/// Evaluates `l` and, only when it is a constant, `r`; then combines the two
/// values with `f`.
pub open spec fn fold_binary(l: Folded, r: Folded, f: spec_fn(i32, i32) -> Folded) -> Folded {
    match l {
        Folded::Fault => Folded::Fault,
        Folded::NotConst => Folded::NotConst,
        Folded::Const(a) => match r {
            Folded::Fault => Folded::Fault,
            Folded::NotConst => Folded::NotConst,
            Folded::Const(b) => f(a, b),
        },
    }
}

pub open spec fn fold_mul_op(op: MulOp, a: i32, b: i32) -> Folded {
    match op {
        MulOp::Mul => i32_result(a * b),
        MulOp::Div => if b == 0 {
            Folded::Fault
        } else {
            i32_result(trunc_div(a as int, b as int))
        },
        MulOp::Mod => if b == 0 || (a == i32::MIN && b == -1) {
            Folded::Fault
        } else {
            i32_result(trunc_rem(a as int, b as int))
        },
    }
}

pub open spec fn fold_add_op(op: AddOp, a: i32, b: i32) -> Folded {
    match op {
        AddOp::Add => i32_result(a + b),
        AddOp::Sub => i32_result(a - b),
    }
}

pub open spec fn fold_rel_op(op: RelOp, a: i32, b: i32) -> Folded {
    match op {
        RelOp::Lt => bool_value(a < b),
        RelOp::Gt => bool_value(a > b),
        RelOp::Le => bool_value(a <= b),
        RelOp::Ge => bool_value(a >= b),
    }
}

pub open spec fn fold_eq_op(op: EqOp, a: i32, b: i32) -> Folded {
    match op {
        EqOp::Eq => bool_value(a == b),
        EqOp::NotEq => bool_value(a != b),
    }
}

pub open spec fn fold_expr(e: Expr, m: Scope) -> Folded
    decreases e,
{
    fold_lor(*e.expr, m)
}

pub open spec fn fold_lor(e: LOrExpr, m: Scope) -> Folded
    decreases e,
{
    match e {
        LOrExpr::And(a) => fold_land(a, m),
        LOrExpr::Binary(l, r) => fold_binary(
            fold_lor(*l, m),
            fold_land(*r, m),
            |a: i32, b: i32| bool_value(a != 0 || b != 0),
        ),
    }
}

pub open spec fn fold_land(e: LAndExpr, m: Scope) -> Folded
    decreases e,
{
    match e {
        LAndExpr::Eq(a) => fold_eq(a, m),
        LAndExpr::Binary(l, r) => fold_binary(
            fold_land(*l, m),
            fold_eq(*r, m),
            |a: i32, b: i32| bool_value(a != 0 && b != 0),
        ),
    }
}

pub open spec fn fold_eq(e: EqExpr, m: Scope) -> Folded
    decreases e,
{
    match e {
        EqExpr::Rel(a) => fold_rel(a, m),
        EqExpr::Binary(l, op, r) => fold_binary(
            fold_eq(*l, m),
            fold_rel(*r, m),
            |a: i32, b: i32| fold_eq_op(op, a, b),
        ),
    }
}

pub open spec fn fold_rel(e: RelExpr, m: Scope) -> Folded
    decreases e,
{
    match e {
        RelExpr::Add(a) => fold_add(a, m),
        RelExpr::Binary(l, op, r) => fold_binary(
            fold_rel(*l, m),
            fold_add(*r, m),
            |a: i32, b: i32| fold_rel_op(op, a, b),
        ),
    }
}

pub open spec fn fold_add(e: AddExpr, m: Scope) -> Folded
    decreases e,
{
    match e {
        AddExpr::Mul(a) => fold_mul(a, m),
        AddExpr::Binary(l, op, r) => fold_binary(
            fold_add(*l, m),
            fold_mul(*r, m),
            |a: i32, b: i32| fold_add_op(op, a, b),
        ),
    }
}

pub open spec fn fold_mul(e: MulExpr, m: Scope) -> Folded
    decreases e,
{
    match e {
        MulExpr::Unary(a) => fold_unary(a, m),
        MulExpr::Binary(l, op, r) => fold_binary(
            fold_mul(*l, m),
            fold_unary(*r, m),
            |a: i32, b: i32| fold_mul_op(op, a, b),
        ),
    }
}

pub open spec fn fold_unary(e: UnaryExpr, m: Scope) -> Folded
    decreases e,
{
    match e {
        UnaryExpr::Primary(p) => fold_primary(p, m),
        UnaryExpr::UnaryOp(op, a) => match fold_unary(*a, m) {
            Folded::Const(v) => match op {
                UnaryOp::Pos => Folded::Const(v),
                UnaryOp::Neg => i32_result(-v),
                UnaryOp::Not => bool_value(v == 0),
            },
            other => other,
        },
        UnaryExpr::Call(_) => Folded::NotConst,
    }
}

pub open spec fn fold_primary(e: PrimaryExpr, m: Scope) -> Folded
    decreases e,
{
    match e {
        PrimaryExpr::Num(n) => Folded::Const(n.val),
        PrimaryExpr::Expr(inner) => fold_expr(*inner, m),
        PrimaryExpr::LVal(l) => fold_lval(l, m),
    }
}

/// A name is a constant when the scope binds it to an integer constant.
pub open spec fn fold_lval(l: LVal, m: Scope) -> Folded {
    match manager_get(m, l.ident@) {
        Some(Variable::Const(ConstValue::Int(v))) => Folded::Const(v),
        _ => Folded::NotConst,
    }
}

/// The result of [`Folded`] as the compiler reports it.
pub open spec fn folded_value(f: Folded) -> Option<i32> {
    match f {
        Folded::Const(v) => Some(v),
        _ => None,
    }
}


fn fold_mul_exec(op: MulOp, a: i32, b: i32) -> (r: i32)
    requires
        fold_mul_op(op, a, b) !is Fault,
    ensures
        fold_mul_op(op, a, b) == Folded::Const(r),
{
    match op {
        MulOp::Mul => a * b,
        MulOp::Div => match a.checked_div(b) {
            Some(v) => v,
            None => 0,
        },
        MulOp::Mod => match a.checked_rem(b) {
            Some(v) => v,
            None => 0,
        },
    }
}

impl Expr {
    /// Evaluates the expression at compile time; `None` when it is not a constant
    /// expression.
    pub fn const_eval_i32(&self, manager: &VariableManager) -> (r: Option<i32>)
        requires
            fold_expr(*self, manager@) !is Fault,
        ensures
            r == folded_value(fold_expr(*self, manager@)),
        decreases *self,
    {
        self.expr.const_eval_i32(manager)
    }
}

impl LOrExpr {
    pub fn const_eval_i32(&self, manager: &VariableManager) -> (r: Option<i32>)
        requires
            fold_lor(*self, manager@) !is Fault,
        ensures
            r == folded_value(fold_lor(*self, manager@)),
        decreases *self,
    {
        match self {
            LOrExpr::And(e) => e.const_eval_i32(manager),
            LOrExpr::Binary(lhs, rhs) => {
                let a = match lhs.const_eval_i32(manager) {
                    Some(a) => a,
                    None => return None,
                };
                let b = match rhs.const_eval_i32(manager) {
                    Some(b) => b,
                    None => return None,
                };
                if a != 0 || b != 0 {
                    Some(1)
                } else {
                    Some(0)
                }
            },
        }
    }
}

impl LAndExpr {
    pub fn const_eval_i32(&self, manager: &VariableManager) -> (r: Option<i32>)
        requires
            fold_land(*self, manager@) !is Fault,
        ensures
            r == folded_value(fold_land(*self, manager@)),
        decreases *self,
    {
        match self {
            LAndExpr::Eq(e) => e.const_eval_i32(manager),
            LAndExpr::Binary(lhs, rhs) => {
                let a = match lhs.const_eval_i32(manager) {
                    Some(a) => a,
                    None => return None,
                };
                let b = match rhs.const_eval_i32(manager) {
                    Some(b) => b,
                    None => return None,
                };
                if a != 0 && b != 0 {
                    Some(1)
                } else {
                    Some(0)
                }
            },
        }
    }
}

impl EqExpr {
    pub fn const_eval_i32(&self, manager: &VariableManager) -> (r: Option<i32>)
        requires
            fold_eq(*self, manager@) !is Fault,
        ensures
            r == folded_value(fold_eq(*self, manager@)),
        decreases *self,
    {
        match self {
            EqExpr::Rel(e) => e.const_eval_i32(manager),
            EqExpr::Binary(lhs, op, rhs) => {
                let a = match lhs.const_eval_i32(manager) {
                    Some(a) => a,
                    None => return None,
                };
                let b = match rhs.const_eval_i32(manager) {
                    Some(b) => b,
                    None => return None,
                };
                let holds = match op {
                    EqOp::Eq => a == b,
                    EqOp::NotEq => a != b,
                };
                if holds {
                    Some(1)
                } else {
                    Some(0)
                }
            },
        }
    }
}

impl RelExpr {
    pub fn const_eval_i32(&self, manager: &VariableManager) -> (r: Option<i32>)
        requires
            fold_rel(*self, manager@) !is Fault,
        ensures
            r == folded_value(fold_rel(*self, manager@)),
        decreases *self,
    {
        match self {
            RelExpr::Add(e) => e.const_eval_i32(manager),
            RelExpr::Binary(lhs, op, rhs) => {
                let a = match lhs.const_eval_i32(manager) {
                    Some(a) => a,
                    None => return None,
                };
                let b = match rhs.const_eval_i32(manager) {
                    Some(b) => b,
                    None => return None,
                };
                let holds = match op {
                    RelOp::Lt => a < b,
                    RelOp::Gt => a > b,
                    RelOp::Le => a <= b,
                    RelOp::Ge => a >= b,
                };
                if holds {
                    Some(1)
                } else {
                    Some(0)
                }
            },
        }
    }
}

impl AddExpr {
    pub fn const_eval_i32(&self, manager: &VariableManager) -> (r: Option<i32>)
        requires
            fold_add(*self, manager@) !is Fault,
        ensures
            r == folded_value(fold_add(*self, manager@)),
        decreases *self,
    {
        match self {
            AddExpr::Mul(e) => e.const_eval_i32(manager),
            AddExpr::Binary(lhs, op, rhs) => {
                let a = match lhs.const_eval_i32(manager) {
                    Some(a) => a,
                    None => return None,
                };
                let b = match rhs.const_eval_i32(manager) {
                    Some(b) => b,
                    None => return None,
                };
                match op {
                    AddOp::Add => Some(a + b),
                    AddOp::Sub => Some(a - b),
                }
            },
        }
    }
}

impl MulExpr {
    pub fn const_eval_i32(&self, manager: &VariableManager) -> (r: Option<i32>)
        requires
            fold_mul(*self, manager@) !is Fault,
        ensures
            r == folded_value(fold_mul(*self, manager@)),
        decreases *self,
    {
        match self {
            MulExpr::Unary(e) => e.const_eval_i32(manager),
            MulExpr::Binary(lhs, op, rhs) => {
                let a = match lhs.const_eval_i32(manager) {
                    Some(a) => a,
                    None => return None,
                };
                let b = match rhs.const_eval_i32(manager) {
                    Some(b) => b,
                    None => return None,
                };
                Some(fold_mul_exec(*op, a, b))
            },
        }
    }
}

impl UnaryExpr {
    pub fn const_eval_i32(&self, manager: &VariableManager) -> (r: Option<i32>)
        requires
            fold_unary(*self, manager@) !is Fault,
        ensures
            r == folded_value(fold_unary(*self, manager@)),
        decreases *self,
    {
        match self {
            UnaryExpr::Primary(e) => e.const_eval_i32(manager),
            UnaryExpr::UnaryOp(op, e) => {
                let v = match e.const_eval_i32(manager) {
                    Some(v) => v,
                    None => return None,
                };
                match op {
                    UnaryOp::Pos => Some(v),
                    UnaryOp::Neg => Some(-v),
                    UnaryOp::Not => if v == 0 {
                        Some(1)
                    } else {
                        Some(0)
                    },
                }
            },
            UnaryExpr::Call(_) => None,
        }
    }
}

impl PrimaryExpr {
    pub fn const_eval_i32(&self, manager: &VariableManager) -> (r: Option<i32>)
        requires
            fold_primary(*self, manager@) !is Fault,
        ensures
            r == folded_value(fold_primary(*self, manager@)),
        decreases *self,
    {
        match self {
            PrimaryExpr::Expr(e) => e.const_eval_i32(manager),
            PrimaryExpr::Num(n) => n.const_eval_i32(manager),
            PrimaryExpr::LVal(l) => l.const_eval_i32(manager),
        }
    }
}

impl LVal {
    /// A name evaluates to the value of the integer constant it is bound to.
    pub fn const_eval_i32(&self, manager: &VariableManager) -> (r: Option<i32>)
        ensures
            r == folded_value(fold_lval(*self, manager@)),
    {
        match manager.get(self.ident.as_str()) {
            Some(var) => match var {
                Variable::Const(ConstValue::Int(v)) => Some(*v),
                Variable::Const(ConstValue::Function(_)) => None,
                Variable::Var(_) => None,
            },
            None => None,
        }
    }
}

impl Number {
    pub fn const_eval_i32(&self, _manager: &VariableManager) -> (r: Option<i32>)
        ensures
            r == Some(self.val),
    {
        Some(self.val)
    }
}

impl InitVal {
    pub fn const_eval_i32(&self, manager: &VariableManager) -> (r: Option<i32>)
        requires
            fold_expr(self.expr, manager@) !is Fault,
        ensures
            r == folded_value(fold_expr(self.expr, manager@)),
    {
        self.expr.const_eval_i32(manager)
    }
}

impl ConstExpr {
    pub fn const_eval_i32(&self, manager: &VariableManager) -> (r: Option<i32>)
        requires
            fold_expr(self.expr, manager@) !is Fault,
        ensures
            r == folded_value(fold_expr(self.expr, manager@)),
    {
        self.expr.const_eval_i32(manager)
    }
}

impl ConstInitVal {
    pub fn const_eval_i32(&self, manager: &VariableManager) -> (r: Option<i32>)
        requires
            fold_expr(self.expr.expr, manager@) !is Fault,
        ensures
            r == folded_value(fold_expr(self.expr.expr, manager@)),
    {
        self.expr.const_eval_i32(manager)
    }
}

/// Two scopes with the same names, holding the same constants, and
/// variables at the same names.
pub open spec fn same_consts(a: Scope, b: Scope) -> bool {
    &&& a.dom() == b.dom()
    &&& forall|k: Seq<char>| #[trigger] a.dom().contains(k) ==> ((a[k] is Const <==> b[k] is Const) && (a[k] is Const ==> a[k] == b[k]))
}

/// Folding reads only the constants in scope.
pub proof fn lemma_fold_same_expr(e: Expr, a: Scope, b: Scope)
    requires
        same_consts(a, b),
    ensures
        fold_expr(e, a) == fold_expr(e, b),
    decreases e,
{
    lemma_fold_same_lor(*e.expr, a, b);
}

pub proof fn lemma_fold_same_lor(e: LOrExpr, a: Scope, b: Scope)
    requires
        same_consts(a, b),
    ensures
        fold_lor(e, a) == fold_lor(e, b),
    decreases e,
{
    match e {
        LOrExpr::And(x) => lemma_fold_same_land(x, a, b),
        LOrExpr::Binary(l, r) => {
            lemma_fold_same_lor(*l, a, b);
            lemma_fold_same_land(*r, a, b);
        },
    }
}

pub proof fn lemma_fold_same_land(e: LAndExpr, a: Scope, b: Scope)
    requires
        same_consts(a, b),
    ensures
        fold_land(e, a) == fold_land(e, b),
    decreases e,
{
    match e {
        LAndExpr::Eq(x) => lemma_fold_same_eq(x, a, b),
        LAndExpr::Binary(l, r) => {
            lemma_fold_same_land(*l, a, b);
            lemma_fold_same_eq(*r, a, b);
        },
    }
}

pub proof fn lemma_fold_same_eq(e: EqExpr, a: Scope, b: Scope)
    requires
        same_consts(a, b),
    ensures
        fold_eq(e, a) == fold_eq(e, b),
    decreases e,
{
    match e {
        EqExpr::Rel(x) => lemma_fold_same_rel(x, a, b),
        EqExpr::Binary(l, _, r) => {
            lemma_fold_same_eq(*l, a, b);
            lemma_fold_same_rel(*r, a, b);
        },
    }
}

pub proof fn lemma_fold_same_rel(e: RelExpr, a: Scope, b: Scope)
    requires
        same_consts(a, b),
    ensures
        fold_rel(e, a) == fold_rel(e, b),
    decreases e,
{
    match e {
        RelExpr::Add(x) => lemma_fold_same_add(x, a, b),
        RelExpr::Binary(l, _, r) => {
            lemma_fold_same_rel(*l, a, b);
            lemma_fold_same_add(*r, a, b);
        },
    }
}

pub proof fn lemma_fold_same_add(e: AddExpr, a: Scope, b: Scope)
    requires
        same_consts(a, b),
    ensures
        fold_add(e, a) == fold_add(e, b),
    decreases e,
{
    match e {
        AddExpr::Mul(x) => lemma_fold_same_mul(x, a, b),
        AddExpr::Binary(l, _, r) => {
            lemma_fold_same_add(*l, a, b);
            lemma_fold_same_mul(*r, a, b);
        },
    }
}

pub proof fn lemma_fold_same_mul(e: MulExpr, a: Scope, b: Scope)
    requires
        same_consts(a, b),
    ensures
        fold_mul(e, a) == fold_mul(e, b),
    decreases e,
{
    match e {
        MulExpr::Unary(x) => lemma_fold_same_unary(x, a, b),
        MulExpr::Binary(l, _, r) => {
            lemma_fold_same_mul(*l, a, b);
            lemma_fold_same_unary(*r, a, b);
        },
    }
}

pub proof fn lemma_fold_same_unary(e: UnaryExpr, a: Scope, b: Scope)
    requires
        same_consts(a, b),
    ensures
        fold_unary(e, a) == fold_unary(e, b),
    decreases e,
{
    match e {
        UnaryExpr::Primary(p) => lemma_fold_same_primary(p, a, b),
        UnaryExpr::UnaryOp(_, x) => lemma_fold_same_unary(*x, a, b),
        UnaryExpr::Call(_) => {},
    }
}

pub proof fn lemma_fold_same_primary(e: PrimaryExpr, a: Scope, b: Scope)
    requires
        same_consts(a, b),
    ensures
        fold_primary(e, a) == fold_primary(e, b),
    decreases e,
{
    match e {
        PrimaryExpr::Num(_) => {},
        PrimaryExpr::Expr(inner) => lemma_fold_same_expr(*inner, a, b),
        PrimaryExpr::LVal(l) => {
            if a.dom().contains(l.ident@) {
                assert(a[l.ident@] is Const <==> b[l.ident@] is Const);
            }
        },
    }
}

/// Law: division and remainder round toward zero. For a nonzero divisor
/// `b`, the quotient and remainder rebuild the dividend, the remainder is
/// smaller than the divisor in size, and it is zero or has the dividend's
/// sign.
pub proof fn law_trunc_division(a: int, b: int)
    requires
        b != 0,
    ensures
        a == b * trunc_div(a, b) + trunc_rem(a, b),
        (if trunc_rem(a, b) >= 0 { trunc_rem(a, b) } else { -trunc_rem(a, b) }) < (if b > 0 { b } else { -b }),
        trunc_rem(a, b) == 0 || ((trunc_rem(a, b) < 0) == (a < 0)),
{
    if a > 0 && b > 0 {
        vstd::arithmetic::div_mod::lemma_fundamental_div_mod(a, b);
        vstd::arithmetic::div_mod::lemma_mod_pos_bound(a, b);
    } else if a < 0 && b < 0 {
        vstd::arithmetic::div_mod::lemma_fundamental_div_mod(-a, -b);
        vstd::arithmetic::div_mod::lemma_mod_pos_bound(-a, -b);
        let (q, r) = ((-a) / (-b), (-a) % (-b));
        assert(a == b * q + (-r)) by (nonlinear_arith)
            requires
                -a == (-b) * q + r,
        ;
    } else if a < 0 {
        vstd::arithmetic::div_mod::lemma_fundamental_div_mod(-a, b);
        vstd::arithmetic::div_mod::lemma_mod_pos_bound(-a, b);
        let (q, r) = ((-a) / b, (-a) % b);
        assert(a == b * (-q) + (-r)) by (nonlinear_arith)
            requires
                -a == b * q + r,
        ;
    } else if a > 0 {
        vstd::arithmetic::div_mod::lemma_fundamental_div_mod(a, -b);
        vstd::arithmetic::div_mod::lemma_mod_pos_bound(a, -b);
        let (q, r) = (a / (-b), a % (-b));
        assert(a == b * (-q) + r) by (nonlinear_arith)
            requires
                a == (-b) * q + r,
        ;
    }
}

proof fn lemma_quotient_small(a: int, b: int, q: int, r: int)
    requires
        b != 0,
        a == b * q + r,
        (if r >= 0 { r } else { -r }) < (if b > 0 { b } else { -b }),
        r == 0 || ((r < 0) == (a < 0)),
    ensures
        (if q >= 0 { q } else { -q }) <= (if a >= 0 { a } else { -a }),
{
    if a >= 0 {
        if b > 0 {
            assert(q >= 0 && q <= a) by (nonlinear_arith)
                requires
                    a >= 0, b > 0, a == b * q + r, 0 <= r < b,
            ;
        } else {
            assert(q <= 0 && -q <= a) by (nonlinear_arith)
                requires
                    a >= 0, b < 0, a == b * q + r, 0 <= r < -b,
            ;
        }
    } else {
        if b > 0 {
            assert(q <= 0 && -q <= -a) by (nonlinear_arith)
                requires
                    a < 0, b > 0, a == b * q + r, -b < r <= 0,
            ;
        } else {
            assert(q >= 0 && q <= -a) by (nonlinear_arith)
                requires
                    a < 0, b < 0, a == b * q + r, b < r <= 0,
            ;
        }
    }
}

/// Law: folding two constants compares them as integers: each comparison
/// gives 1 exactly when it holds of the two values, else 0.
pub proof fn law_fold_compares(a: i32, b: i32)
    ensures
        fold_rel_op(RelOp::Lt, a, b) == Folded::Const(if a < b { 1i32 } else { 0i32 }),
        fold_rel_op(RelOp::Gt, a, b) == Folded::Const(if a > b { 1i32 } else { 0i32 }),
        fold_rel_op(RelOp::Le, a, b) == Folded::Const(if a <= b { 1i32 } else { 0i32 }),
        fold_rel_op(RelOp::Ge, a, b) == Folded::Const(if a >= b { 1i32 } else { 0i32 }),
        fold_eq_op(EqOp::Eq, a, b) == Folded::Const(if a == b { 1i32 } else { 0i32 }),
        fold_eq_op(EqOp::NotEq, a, b) == Folded::Const(if a != b { 1i32 } else { 0i32 }),
{
}

/// Law: folding two constants computes their sum, difference and product
/// exactly, and faults when the result leaves `i32`; division and remainder
/// fault on a zero divisor, and otherwise give a quotient and a remainder
/// that rebuild the dividend, the remainder smaller than the divisor in size
/// and zero or of the dividend's sign (the quotient `i32::MIN / -1`, which
/// leaves `i32`, excepted).
pub proof fn law_fold_arithmetic(a: i32, b: i32)
    ensures
        fold_add_op(AddOp::Add, a, b) == (if i32::MIN <= a + b <= i32::MAX { Folded::Const((a + b) as i32) } else { Folded::Fault }),
        fold_add_op(AddOp::Sub, a, b) == (if i32::MIN <= a - b <= i32::MAX { Folded::Const((a - b) as i32) } else { Folded::Fault }),
        fold_mul_op(MulOp::Mul, a, b) == (if i32::MIN <= a * b <= i32::MAX { Folded::Const((a * b) as i32) } else { Folded::Fault }),
        b == 0 ==> fold_mul_op(MulOp::Div, a, b) is Fault && fold_mul_op(MulOp::Mod, a, b) is Fault,
        b != 0 && !(a == i32::MIN && b == -1) ==> ({
            &&& fold_mul_op(MulOp::Div, a, b) is Const
            &&& fold_mul_op(MulOp::Mod, a, b) is Const
            &&& {
                let (q, r) = (fold_mul_op(MulOp::Div, a, b)->Const_0 as int, fold_mul_op(MulOp::Mod, a, b)->Const_0 as int);
                &&& a == b * q + r
                &&& (if r >= 0 { r } else { -r }) < (if b > 0 { b as int } else { -b })
                &&& r == 0 || ((r < 0) == (a < 0))
            }
        }),
{
    if b != 0 && !(a == i32::MIN && b == -1) {
        law_trunc_division(a as int, b as int);
        let (q, r) = (trunc_div(a as int, b as int), trunc_rem(a as int, b as int));
        lemma_quotient_small(a as int, b as int, q, r);
        if a == i32::MIN {
            assert(b * q + r == a);
            assert(q != -a) by (nonlinear_arith)
                requires
                    b != -1, b != 0, a == -0x8000_0000int, a == b * q + r,
                    (if r >= 0 { r } else { -r }) < (if b > 0 { b as int } else { -b }),
                    r == 0 || r < 0,
            ;
        }
    }
}

/// Law: folding `l op r` of two constant operands combines the value of
/// `l` (left) with the value of `r` (right) by the comparison `op`.
pub proof fn law_fold_rel_expr(l: Box<RelExpr>, op: RelOp, r: Box<AddExpr>, m: Scope, a: i32, b: i32)
    requires
        fold_rel(*l, m) == Folded::Const(a),
        fold_add(*r, m) == Folded::Const(b),
    ensures
        fold_rel(RelExpr::Binary(l, op, r), m) == fold_rel_op(op, a, b),
{
}

/// Law: folding `l op r` of two constant operands combines the value of
/// `l` (left) with the value of `r` (right) by the test `op`.
pub proof fn law_fold_eq_expr(l: Box<EqExpr>, op: EqOp, r: Box<RelExpr>, m: Scope, a: i32, b: i32)
    requires
        fold_eq(*l, m) == Folded::Const(a),
        fold_rel(*r, m) == Folded::Const(b),
    ensures
        fold_eq(EqExpr::Binary(l, op, r), m) == fold_eq_op(op, a, b),
{
}

/// Law: folding `l op r` of two constant operands combines the value of
/// `l` (left) with the value of `r` (right) by `op`.
pub proof fn law_fold_add_expr(l: Box<AddExpr>, op: AddOp, r: Box<MulExpr>, m: Scope, a: i32, b: i32)
    requires
        fold_add(*l, m) == Folded::Const(a),
        fold_mul(*r, m) == Folded::Const(b),
    ensures
        fold_add(AddExpr::Binary(l, op, r), m) == fold_add_op(op, a, b),
{
}

/// Law: folding `l op r` of two constant operands combines the value of
/// `l` (left) with the value of `r` (right) by `op`.
pub proof fn law_fold_mul_expr(l: Box<MulExpr>, op: MulOp, r: Box<UnaryExpr>, m: Scope, a: i32, b: i32)
    requires
        fold_mul(*l, m) == Folded::Const(a),
        fold_unary(*r, m) == Folded::Const(b),
    ensures
        fold_mul(MulExpr::Binary(l, op, r), m) == fold_mul_op(op, a, b),
{
}

/// Law: `l && r` and `l || r` of two constants fold to 1 exactly when both,
/// or either, is nonzero, else to 0.
pub proof fn law_fold_logic(la: Box<LAndExpr>, ra: EqExpr, lo: Box<LOrExpr>, ro: LAndExpr, m: Scope, a: i32, b: i32)
    ensures
        fold_land(*la, m) == Folded::Const(a) && fold_eq(ra, m) == Folded::Const(b) ==> fold_land(LAndExpr::Binary(la, Box::new(ra)), m)
            == Folded::Const(if a != 0 && b != 0 { 1i32 } else { 0i32 }),
        fold_lor(*lo, m) == Folded::Const(a) && fold_land(ro, m) == Folded::Const(b) ==> fold_lor(LOrExpr::Binary(lo, Box::new(ro)), m)
            == Folded::Const(if a != 0 || b != 0 { 1i32 } else { 0i32 }),
{
}

/// Law: `+a` folds to `a`, `-a` to its negation (a fault where that leaves
/// `i32`), and `!a` to 1 exactly when `a` is 0, else to 0.
pub proof fn law_fold_unary(a: Box<UnaryExpr>, m: Scope, v: i32)
    requires
        fold_unary(*a, m) == Folded::Const(v),
    ensures
        fold_unary(UnaryExpr::UnaryOp(UnaryOp::Pos, a), m) == Folded::Const(v),
        v != i32::MIN ==> fold_unary(UnaryExpr::UnaryOp(UnaryOp::Neg, a), m) == Folded::Const((0 - v) as i32),
        v == i32::MIN ==> fold_unary(UnaryExpr::UnaryOp(UnaryOp::Neg, a), m) == Folded::Fault,
        fold_unary(UnaryExpr::UnaryOp(UnaryOp::Not, a), m) == Folded::Const(if v == 0 { 1i32 } else { 0i32 }),
{
}

} // verus!
