use sysy_compiler::parse::ast::{
    AddExpr, AddOp, BType, Block, BlockItem, CompUnit, ConstDecl, ConstDef, ConstExpr,
    ConstInitVal, ControlFlow, Decl, EqExpr, EqOp, Expr, FuncCall, FuncDef, FuncFParam,
    FuncFParams, FuncRParams, IfBranch, InitVal, LAndExpr, LOrExpr, LVal, MulExpr, MulOp, Number,
    RelOp, Stmt, UnaryExpr, UnaryOp, VarDecl, VarDef, WhileBranch, ElseBranch,
};
use sysy_compiler::parse::Ast;

fn num(v: i32) -> Expr {
    Expr::new_num(Number::new(v))
}

fn name(s: &str) -> Expr {
    Expr::new_lval(LVal::new(s.to_string()))
}

#[test]
fn expressions_print_with_spaced_operators() {
    let e = Expr::new_add(AddExpr::new_binary(
        AddExpr::new_num(Number::new(1)),
        AddOp::Add,
        MulExpr::new_binary(MulExpr::new_num(Number::new(2)), MulOp::Mul, UnaryExpr::new_num(Number::new(-3))),
    ));
    assert_eq!(e.to_string(), "1 + 2 * -3");
    let neg = Expr::new_unary(UnaryExpr::new_unary_op(UnaryOp::Neg, UnaryExpr::new_lval(LVal::new("x".to_string()))));
    assert_eq!(neg.to_string(), "- x");
    let paren = Expr::new_primary(sysy_compiler::parse::ast::PrimaryExpr::new_expr(name("a")));
    assert_eq!(paren.to_string(), "(a)");
    let logic = Expr::new_lor(LOrExpr::new_binary(
        LOrExpr::new_lval(LVal::new("a".to_string())),
        LAndExpr::new_binary(LAndExpr::new_lval(LVal::new("b".to_string())), EqExpr::new_binary(EqExpr::new_num(Number::new(1)), EqOp::NotEq, sysy_compiler::parse::ast::RelExpr::new_num(Number::new(2)))),
    ));
    assert_eq!(logic.to_string(), "a || b && 1 != 2");
    assert_eq!(RelOp::Ge.to_string(), ">=");
    assert_eq!(UnaryOp::Not.to_string(), "!");
    assert_eq!(Number::new(-7).to_string(), "-7");
}

#[test]
fn calls_print_their_arguments() {
    let call = FuncCall::new("f".to_string(), Some(FuncRParams::new(vec![num(1), name("x")])));
    assert_eq!(call.to_string(), "f(1, x)");
    assert_eq!(FuncCall::new("g".to_string(), None).to_string(), "g()");
    assert_eq!(FuncCall::new("h".to_string(), Some(FuncRParams::new(vec![]))).to_string(), "h()");
}

#[test]
fn statements_and_blocks() {
    let ret = Stmt::new_return(Some(num(0)));
    assert_eq!(ret.to_string(), "return 0;");
    assert_eq!(Stmt::new_return(None).to_string(), "return;");
    assert_eq!(Stmt::new_assign(LVal::new("x".to_string()), num(3)).to_string(), "x = 3;");
    assert_eq!(Stmt::new_expr(None).to_string(), ";");
    assert_eq!(Stmt::new_expr(Some(name("y"))).to_string(), "y;");
    assert_eq!(Block::new(vec![]).to_string(), "{}");
    let block = Block::new(vec![BlockItem::new_stmt(Stmt::new_return(Some(num(0))))]);
    assert_eq!(block.to_string(), "{ return 0; }");
    let if_else = Stmt::new_if_else(IfBranch::new(name("x"), Stmt::new_return(Some(num(1)))), ElseBranch::new(Stmt::new_return(Some(num(2)))));
    assert_eq!(if_else.to_string(), "if (x) return 1; else return 2;");
    let w = Stmt::new_while(WhileBranch::new(num(1), Stmt::new_break()));
    assert_eq!(w.to_string(), "while (1) break;");
    assert_eq!(ControlFlow::Continue.to_string(), "continue;");
}

#[test]
fn declarations() {
    let v = VarDecl::new(BType::new_int(), vec![VarDef::new("a".to_string(), Some(InitVal::new(num(1)))), VarDef::new("b".to_string(), None)]);
    assert_eq!(v.to_string(), "int a = 1, b;");
    let c = ConstDecl::new(BType::new_int(), vec![ConstDef::new("c".to_string(), ConstInitVal::new(ConstExpr::new(num(2))))]);
    assert_eq!(c.to_string(), "const int c = 2");
    let block = Block::new(vec![BlockItem::new_decl(Decl::new_var(v)), BlockItem::new_stmt(Stmt::new_return(Some(name("a"))))]);
    assert_eq!(block.to_string(), "{ int a = 1, b;  return a; }");
}

#[test]
fn function_definitions_omit_parameters() {
    let params = FuncFParams::new(vec![FuncFParam::new(BType::new_int(), "n".to_string())]);
    assert_eq!(params.to_string(), "int n");
    let f = FuncDef::new(BType::new_int(), "main".to_string(), Some(params), Block::new(vec![BlockItem::new_stmt(Stmt::new_return(Some(num(0))))]));
    assert_eq!(f.to_string(), "int main() { return 0; }");
    let ast = Ast::new(CompUnit::new(None, f));
    assert_eq!(ast.to_string(), "int main() { return 0; }");
}
