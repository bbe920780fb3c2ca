use koopa::ir::builder::ValueBuilder;
use koopa::ir::{FunctionData, Type};
use sysy_compiler::ir::block::define_simple_const;
use sysy_compiler::ir::meta::{ConstValue, Variable, VariableManager};
use sysy_compiler::parse::ast::{
    AddExpr, AddOp, BType, EqExpr, EqOp, Expr, FuncCall, InitVal, LAndExpr, LOrExpr, LVal,
    MulExpr, MulOp, Number, RelExpr, RelOp, UnaryExpr, UnaryOp,
};

fn num(v: i32) -> Number {
    Number::new(v)
}

fn mul(l: i32, op: MulOp, r: i32) -> Expr {
    Expr::new_mul(MulExpr::new_binary(MulExpr::new_num(num(l)), op, UnaryExpr::new_num(num(r))))
}

#[test]
fn arithmetic_follows_precedence() {
    let m = VariableManager::new();
    // 1 + 2 * 3
    let e = Expr::new_add(AddExpr::new_binary(
        AddExpr::new_num(num(1)),
        AddOp::Add,
        MulExpr::new_binary(MulExpr::new_num(num(2)), MulOp::Mul, UnaryExpr::new_num(num(3))),
    ));
    assert_eq!(e.const_eval_i32(&m), Some(7));
    let e = Expr::new_add(AddExpr::new_binary(AddExpr::new_num(num(1)), AddOp::Sub, MulExpr::new_num(num(5))));
    assert_eq!(e.const_eval_i32(&m), Some(-4));
}

#[test]
fn division_truncates_toward_zero() {
    let m = VariableManager::new();
    assert_eq!(mul(-7, MulOp::Div, 2).const_eval_i32(&m), Some(-3));
    assert_eq!(mul(-7, MulOp::Mod, 2).const_eval_i32(&m), Some(-1));
    assert_eq!(mul(7, MulOp::Mod, -2).const_eval_i32(&m), Some(1));
    assert_eq!(mul(7, MulOp::Div, -2).const_eval_i32(&m), Some(-3));
}

#[test]
fn comparisons_and_logic_give_zero_or_one() {
    let m = VariableManager::new();
    let lt = Expr::new_rel(RelExpr::new_binary(RelExpr::new_num(num(2)), RelOp::Lt, AddExpr::new_num(num(3))));
    assert_eq!(lt.const_eval_i32(&m), Some(1));
    let ge = Expr::new_rel(RelExpr::new_binary(RelExpr::new_num(num(2)), RelOp::Ge, AddExpr::new_num(num(3))));
    assert_eq!(ge.const_eval_i32(&m), Some(0));
    let eq = Expr::new_eq(EqExpr::new_binary(EqExpr::new_num(num(4)), EqOp::Eq, RelExpr::new_num(num(4))));
    assert_eq!(eq.const_eval_i32(&m), Some(1));
    let and = Expr::new_land(LAndExpr::new_binary(LAndExpr::new_num(num(3)), EqExpr::new_num(num(0))));
    assert_eq!(and.const_eval_i32(&m), Some(0));
    let or = Expr::new_lor(LOrExpr::new_binary(LOrExpr::new_num(num(0)), LAndExpr::new_num(num(5))));
    assert_eq!(or.const_eval_i32(&m), Some(1));
    let not = Expr::new_unary(UnaryExpr::new_unary_op(UnaryOp::Not, UnaryExpr::new_num(num(0))));
    assert_eq!(not.const_eval_i32(&m), Some(1));
    let neg = Expr::new_unary(UnaryExpr::new_unary_op(UnaryOp::Neg, UnaryExpr::new_num(num(9))));
    assert_eq!(neg.const_eval_i32(&m), Some(-9));
    let pos = Expr::new_unary(UnaryExpr::new_unary_op(UnaryOp::Pos, UnaryExpr::new_num(num(9))));
    assert_eq!(pos.const_eval_i32(&m), Some(9));
}

#[test]
fn names_fold_only_when_constant() {
    let mut m = VariableManager::new();
    assert!(m.define_const("n".to_string(), ConstValue::Int(10)).is_ok());
    let mut f = FunctionData::new("@f".to_string(), vec![], Type::get_i32());
    let v = f.dfg_mut().new_value().integer(0);
    assert!(m.define_var("x".to_string(), v, Type::get_i32()).is_ok());
    let n = Expr::new_lval(LVal::new("n".to_string()));
    assert_eq!(n.const_eval_i32(&m), Some(10));
    let x = Expr::new_lval(LVal::new("x".to_string()));
    assert_eq!(x.const_eval_i32(&m), None);
    let y = Expr::new_lval(LVal::new("y".to_string()));
    assert_eq!(y.const_eval_i32(&m), None);
    let call = Expr::new_unary(UnaryExpr::new_call(FuncCall::new("f".to_string(), None)));
    assert_eq!(call.const_eval_i32(&m), None);
    // n * 2 + x is not constant
    let e = Expr::new_add(AddExpr::new_binary(
        AddExpr::new_mul(MulExpr::new_binary(MulExpr::new_lval(LVal::new("n".to_string())), MulOp::Mul, UnaryExpr::new_num(num(2)))),
        AddOp::Add,
        MulExpr::new_lval(LVal::new("x".to_string())),
    ));
    assert_eq!(e.const_eval_i32(&m), None);
    assert!(matches!(m.get("n"), Some(Variable::Const(ConstValue::Int(10)))));
}

#[test]
fn redefinition_is_refused_with_message() {
    let mut m = VariableManager::new();
    assert_eq!(m.define_const("a".to_string(), ConstValue::Int(1)), Ok(()));
    assert_eq!(
        m.define_const("a".to_string(), ConstValue::Int(2)),
        Err("Constant 'a' already defined".to_string())
    );
    let mut f = FunctionData::new("@f".to_string(), vec![], Type::get_i32());
    let v = f.dfg_mut().new_value().integer(0);
    assert_eq!(
        m.define_var("a".to_string(), v, Type::get_i32()),
        Err("Variable 'a' already defined".to_string())
    );
    assert!(matches!(m.get("a"), Some(Variable::Const(ConstValue::Int(1)))));
    assert!(m.get("b").is_none());
}

#[test]
fn constants_are_evaluated_when_defined() {
    let mut m = VariableManager::new();
    define_simple_const("a".to_string(), BType::Int, InitVal::new(mul(6, MulOp::Mul, 7)), &mut m);
    assert!(matches!(m.get("a"), Some(Variable::Const(ConstValue::Int(42)))));
    let uses_a = Expr::new_add(AddExpr::new_binary(AddExpr::new_lval(LVal::new("a".to_string())), AddOp::Sub, MulExpr::new_num(num(2))));
    define_simple_const("b".to_string(), BType::Int, InitVal::new(uses_a), &mut m);
    assert!(matches!(m.get("b"), Some(Variable::Const(ConstValue::Int(40)))));
}
