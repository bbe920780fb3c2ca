use sysy_compiler::parse::ast::{
    AddExpr, AddOp, BType, Block, BlockItem, CompUnit, Components, ControlFlow, EqExpr, EqOp,
    Expr, FuncCall, FuncDef, LAndExpr, LOrExpr, LVal, MulExpr, Number, PrimaryExpr, RelExpr,
    Stmt, UnaryExpr, UnaryOp,
};
use sysy_compiler::parse::Ast;

fn func(name: &str) -> FuncDef {
    FuncDef::new(BType::new_int(), name.to_string(), None, Block::new(vec![]))
}

#[test]
fn components_list_definitions_in_source_order() {
    let first = CompUnit::new(None, func("first"));
    let second = CompUnit::new(Some(first), func("second"));
    let third = CompUnit::new(Some(second), func("main"));
    let components = Components::new(third);
    let names: Vec<&str> = components.list.iter().map(|f| f.ident.as_str()).collect();
    assert_eq!(names, vec!["first", "second", "main"]);
}

#[test]
fn components_of_a_single_definition() {
    let components = Components::new(CompUnit::new(None, func("main")));
    assert_eq!(components.list.len(), 1);
    assert_eq!(components.list[0].ident, "main");
}

#[test]
fn number_expression_is_lifted_through_every_level() {
    let e = Expr::new_num(Number::new(42));
    match *e.expr {
        LOrExpr::And(LAndExpr::Eq(EqExpr::Rel(RelExpr::Add(AddExpr::Mul(MulExpr::Unary(
            UnaryExpr::Primary(PrimaryExpr::Num(n)),
        )))))) => assert_eq!(n.get_val(), 42),
        _ => panic!("unexpected shape"),
    }
}

#[test]
fn binary_constructors_keep_operands_and_operator() {
    let sum = AddExpr::new_binary(AddExpr::new_num(Number::new(1)), AddOp::Sub, MulExpr::new_num(Number::new(2)));
    match sum {
        AddExpr::Binary(l, op, r) => {
            assert!(matches!(op, AddOp::Sub));
            assert!(matches!(*l, AddExpr::Mul(MulExpr::Unary(UnaryExpr::Primary(PrimaryExpr::Num(Number { val: 1 }))))));
            assert!(matches!(*r, MulExpr::Unary(UnaryExpr::Primary(PrimaryExpr::Num(Number { val: 2 })))));
        }
        _ => panic!("expected a binary expression"),
    }
    let eq = EqExpr::new_binary(EqExpr::new_lval(LVal::new("x".to_string())), EqOp::NotEq, RelExpr::new_num(Number::new(0)));
    assert!(matches!(eq, EqExpr::Binary(_, EqOp::NotEq, _)));
}

#[test]
fn unary_and_call_constructors() {
    let neg = UnaryExpr::new_unary_op(UnaryOp::Neg, UnaryExpr::new_num(Number::new(5)));
    assert!(matches!(neg, UnaryExpr::UnaryOp(UnaryOp::Neg, _)));
    let call = UnaryExpr::new_call(FuncCall::new("getint".to_string(), None));
    match call {
        UnaryExpr::Call(c) => {
            assert_eq!(c.ident, "getint");
            assert!(c.args.is_none());
        }
        _ => panic!("expected a call"),
    }
    let paren = PrimaryExpr::new_expr(Expr::new_num(Number::new(1)));
    assert!(matches!(paren, PrimaryExpr::Expr(_)));
}

#[test]
fn statement_constructors() {
    assert!(matches!(Stmt::new_break(), Stmt::ControlFlow(ControlFlow::Break)));
    assert!(matches!(Stmt::new_continue(), Stmt::ControlFlow(ControlFlow::Continue)));
    assert!(matches!(Stmt::new_return(None), Stmt::Return(None)));
    let item = BlockItem::new_stmt(Stmt::new_expr(None));
    assert!(matches!(item, BlockItem::Stmt(Stmt::Expr(None))));
    let ast = Ast::new(CompUnit::new(None, func("main")));
    assert_eq!(ast.root.func_def.ident, "main");
    assert!(matches!(ast.root.func_def.ret_type, BType::Int));
}
