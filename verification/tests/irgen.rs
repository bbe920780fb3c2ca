use koopa::ir::builder::BasicBlockBuilder;
use koopa::ir::{BasicBlock, BinaryOp as IrOp, Function, FunctionData, Program, Type, Value, ValueKind};
use koopa::back::KoopaGenerator;
use sysy_compiler::ir::funcgen::{ast_to_func, func_scope, register_func};
use sysy_compiler::ir::irgen::expr_ir;
use sysy_compiler::ir::meta::{ConstValue, Instruction, Variable, VariableManager};
use sysy_compiler::ir::stmtgen::{items_ir, stmt_ir, BlockFlow, LoopTargets};
use sysy_compiler::parse::ast::{
    AddExpr, AddOp, BType, Block, BlockItem, ConstDecl, ConstDef, ConstExpr, ConstInitVal, Decl, Expr, FuncDef, FuncFParam, FuncFParams, IfBranch,
    InitVal, LVal, MulExpr, MulOp, Number, RelExpr, RelOp, Stmt, UnaryExpr, VarDecl, VarDef, WhileBranch,
};

fn setup() -> (Program, Function, BasicBlock) {
    let mut program = Program::new();
    let f = program.new_func(FunctionData::new("@f".to_string(), vec![], Type::get_i32()));
    let entry = program.func_mut(f).dfg_mut().new_bb().basic_block(None);
    (program, f, entry)
}

fn num(v: i32) -> Expr {
    Expr::new_num(Number::new(v))
}

fn var(name: &str) -> Expr {
    Expr::new_lval(LVal::new(name.to_string()))
}

fn add(l: i32, r: i32) -> Expr {
    Expr::new_add(AddExpr::new_binary(AddExpr::new_num(Number::new(l)), AddOp::Add, MulExpr::new_num(Number::new(r))))
}

fn sum_of(name: &str, r: i32) -> Expr {
    Expr::new_add(AddExpr::new_binary(
        AddExpr::new_lval(LVal::new(name.to_string())),
        AddOp::Add,
        MulExpr::new_num(Number::new(r)),
    ))
}

fn less(name: &str, r: i32) -> Expr {
    Expr::new_rel(RelExpr::new_binary(
        RelExpr::new_lval(LVal::new(name.to_string())),
        RelOp::Lt,
        AddExpr::new_num(Number::new(r)),
    ))
}

fn kind(program: &Program, f: Function, v: Value) -> ValueKind {
    program.func(f).dfg().value(v).kind().clone()
}

fn int_of(program: &Program, f: Function, v: Value) -> Option<i32> {
    match kind(program, f, v) {
        ValueKind::Integer(i) => Some(i.value()),
        _ => None,
    }
}

fn names(program: &Program, f: Function, insts: &[Instruction]) -> Vec<&'static str> {
    insts
        .iter()
        .map(|i| match kind(program, f, *i.inst()) {
            ValueKind::Integer(_) => "int",
            ValueKind::Alloc(_) => "alloc",
            ValueKind::Load(_) => "load",
            ValueKind::Store(_) => "store",
            ValueKind::Binary(_) => "binary",
            ValueKind::Branch(_) => "br",
            ValueKind::Jump(_) => "jump",
            ValueKind::Return(_) => "ret",
            _ => "other",
        })
        .collect()
}

fn stmt(s: Stmt) -> BlockItem {
    BlockItem::new_stmt(s)
}

fn int_var(name: &str, init: Option<Expr>) -> BlockItem {
    BlockItem::new_decl(Decl::new_var(VarDecl::new(BType::Int, vec![VarDef::new(name.to_string(), init.map(InitVal::new))])))
}

#[test]
fn expression_builds_operands_then_operation() {
    let (mut program, f, _) = setup();
    let m = VariableManager::new();
    let e = Expr::new_mul(MulExpr::new_binary(MulExpr::new_num(Number::new(6)), MulOp::Mul, UnaryExpr::new_num(Number::new(7))));
    let mut insts = Vec::new();
    let v = expr_ir(&e, &mut program, f, &m, &mut insts);
    assert_eq!(insts.len(), 3);
    assert!(!insts[0].insert() && !insts[1].insert() && insts[2].insert());
    assert_eq!(*insts[2].inst(), v);
    match kind(&program, f, v) {
        ValueKind::Binary(b) => {
            assert_eq!(b.op(), IrOp::Mul);
            assert_eq!(int_of(&program, f, b.lhs()), Some(6));
            assert_eq!(int_of(&program, f, b.rhs()), Some(7));
        }
        _ => panic!("expected a binary operation"),
    }
}

#[test]
fn return_ends_the_block_and_opens_another() {
    let (mut program, f, entry) = setup();
    let mut m = VariableManager::new();
    let mut flows = vec![BlockFlow { block: entry, insts: vec![] }];
    let mut loops: Vec<LoopTargets> = vec![];
    stmt_ir(&Stmt::new_return(Some(num(3))), &mut program, f, &mut m, &mut flows, &mut loops);
    assert_eq!(flows.len(), 2);
    assert_eq!(flows[0].block, entry);
    assert_eq!(names(&program, f, &flows[0].insts), vec!["int", "ret"]);
    assert!(flows[1].insts.is_empty());
    match kind(&program, f, *flows[0].insts[1].inst()) {
        ValueKind::Return(r) => assert_eq!(int_of(&program, f, r.value().unwrap()), Some(3)),
        _ => panic!("expected a return"),
    }
}

#[test]
fn variable_gets_a_slot_and_assignment_stores() {
    let (mut program, f, entry) = setup();
    let mut m = VariableManager::new();
    let mut flows = vec![BlockFlow { block: entry, insts: vec![] }];
    let mut loops: Vec<LoopTargets> = vec![];
    let items = vec![
        int_var("x", Some(num(1))),
        stmt(Stmt::new_assign(LVal::new("x".to_string()), sum_of("x", 2))),
    ];
    items_ir(&items, &mut program, f, &mut m, &mut flows, &mut loops);
    assert_eq!(flows.len(), 1);
    assert_eq!(names(&program, f, &flows[0].insts), vec!["alloc", "int", "store", "load", "int", "binary", "store"]);
    assert!(m.get("x").is_some());
}

#[test]
fn constants_make_no_code() {
    let (mut program, f, entry) = setup();
    let mut m = VariableManager::new();
    let mut flows = vec![BlockFlow { block: entry, insts: vec![] }];
    let mut loops: Vec<LoopTargets> = vec![];
    let c = ConstDef::new("c".to_string(), ConstInitVal::new(ConstExpr::new(add(2, 3))));
    let items = vec![
        BlockItem::new_decl(Decl::new_const(ConstDecl::new(BType::Int, vec![c]))),
        stmt(Stmt::new_return(Some(var("c")))),
    ];
    items_ir(&items, &mut program, f, &mut m, &mut flows, &mut loops);
    assert_eq!(names(&program, f, &flows[0].insts), vec!["int", "ret"]);
    assert_eq!(int_of(&program, f, *flows[0].insts[0].inst()), Some(5));
}

#[test]
fn if_branches_to_then_and_end_blocks() {
    let (mut program, f, entry) = setup();
    let mut m = VariableManager::new();
    let mut flows = vec![BlockFlow { block: entry, insts: vec![] }];
    let mut loops: Vec<LoopTargets> = vec![];
    let s = Stmt::new_if(IfBranch::new(num(1), Stmt::new_expr(Some(num(2)))));
    stmt_ir(&s, &mut program, f, &mut m, &mut flows, &mut loops);
    assert_eq!(flows.len(), 3);
    let (then, end) = (flows[1].block, flows[2].block);
    assert_eq!(names(&program, f, &flows[0].insts), vec!["int", "br"]);
    assert_eq!(names(&program, f, &flows[1].insts), vec!["int", "jump"]);
    assert!(flows[2].insts.is_empty());
    match kind(&program, f, *flows[0].insts[1].inst()) {
        ValueKind::Branch(b) => {
            assert_eq!(b.true_bb(), then);
            assert_eq!(b.false_bb(), end);
        }
        _ => panic!("expected a branch"),
    }
    match kind(&program, f, *flows[1].insts[1].inst()) {
        ValueKind::Jump(j) => assert_eq!(j.target(), end),
        _ => panic!("expected a jump"),
    }
}

#[test]
fn while_loop_break_jumps_to_the_end() {
    let (mut program, f, entry) = setup();
    let mut m = VariableManager::new();
    let mut flows = vec![BlockFlow { block: entry, insts: vec![] }];
    let mut loops: Vec<LoopTargets> = vec![];
    let items = vec![
        int_var("i", Some(num(0))),
        stmt(Stmt::new_while(WhileBranch::new(less("i", 10), Stmt::new_break()))),
    ];
    items_ir(&items, &mut program, f, &mut m, &mut flows, &mut loops);
    assert!(loops.is_empty());
    // entry, loop entry, body, block after the break, end
    assert_eq!(flows.len(), 5);
    let (cond, body, end) = (flows[1].block, flows[2].block, flows[4].block);
    assert_eq!(names(&program, f, &flows[0].insts), vec!["alloc", "int", "store", "jump"]);
    assert_eq!(names(&program, f, &flows[1].insts), vec!["load", "int", "binary", "br"]);
    assert_eq!(names(&program, f, &flows[2].insts), vec!["jump"]);
    assert_eq!(names(&program, f, &flows[3].insts), vec!["jump"]);
    match kind(&program, f, *flows[0].insts[3].inst()) {
        ValueKind::Jump(j) => assert_eq!(j.target(), cond),
        _ => panic!("expected a jump"),
    }
    match kind(&program, f, *flows[1].insts[3].inst()) {
        ValueKind::Branch(b) => {
            assert_eq!(b.true_bb(), body);
            assert_eq!(b.false_bb(), end);
        }
        _ => panic!("expected a branch"),
    }
    match kind(&program, f, *flows[2].insts[0].inst()) {
        ValueKind::Jump(j) => assert_eq!(j.target(), end),
        _ => panic!("expected a jump"),
    }
    match kind(&program, f, *flows[3].insts[0].inst()) {
        ValueKind::Jump(j) => assert_eq!(j.target(), cond),
        _ => panic!("expected a jump"),
    }
}

#[test]
fn function_body_keeps_blocks_with_code_and_cuts_after_return() {
    let (mut program, f, _) = setup();
    let mut m = VariableManager::new();
    let body = Block::new(vec![
        int_var("x", Some(num(4))),
        stmt(Stmt::new_if(IfBranch::new(var("x"), Stmt::new_return(Some(num(1)))))),
        stmt(Stmt::new_return(Some(num(2)))),
    ]);
    let blocks = func_scope(body, &mut program, f, &mut m);
    // entry; then (return 1); the block after that return (its jump to the end); end (return 2)
    assert_eq!(blocks.len(), 4);
    assert_eq!(names(&program, f, &blocks[0].insts), vec!["alloc", "store", "load", "br"]);
    assert_eq!(names(&program, f, &blocks[1].insts), vec!["ret"]);
    assert_eq!(names(&program, f, &blocks[2].insts), vec!["jump"]);
    assert_eq!(names(&program, f, &blocks[3].insts), vec!["ret"]);
    assert!(m.get("x").is_none());
}

#[test]
fn function_body_gets_a_closing_return() {
    let (mut program, f, _) = setup();
    let mut m = VariableManager::new();
    let blocks = func_scope(Block::new(vec![stmt(Stmt::new_expr(None))]), &mut program, f, &mut m);
    assert_eq!(blocks.len(), 1);
    match kind(&program, f, *blocks[0].insts[0].inst()) {
        ValueKind::Return(r) => assert!(r.value().is_none()),
        _ => panic!("expected a return"),
    }
}

#[test]
fn register_func_adds_a_named_function_and_binds_its_name() {
    let mut program = Program::new();
    let mut m = VariableManager::new();
    let mut defined: Vec<String> = vec![];
    let params = FuncFParams::new(vec![
        FuncFParam::new(BType::Int, "a".to_string()),
        FuncFParam::new(BType::Int, "b".to_string()),
    ]);
    let decl = FuncDef::new(BType::Void, "add".to_string(), Some(params), Block::new(vec![]));
    let f = register_func(&decl, &mut program, &mut m, &mut defined, true);
    let data = program.func(f);
    assert_eq!(data.name(), "@add");
    assert_eq!(data.params().len(), 2);
    let names: Vec<String> = data.params().iter().map(|p| data.dfg().value(*p).name().clone().unwrap()).collect();
    assert_eq!(names, vec!["@a".to_string(), "@b".to_string()]);
    assert!(matches!(m.get("add"), Some(Variable::Const(ConstValue::Function(g))) if *g == f));
    assert_eq!(defined, vec!["add".to_string()]);
}

#[test]
fn register_func_declaration_is_not_recorded_as_defined() {
    let mut program = Program::new();
    let mut m = VariableManager::new();
    let mut defined: Vec<String> = vec![];
    let decl = FuncDef::new(BType::Int, "getint".to_string(), None, Block::new(vec![]));
    let f = register_func(&decl, &mut program, &mut m, &mut defined, false);
    assert_eq!(program.func(f).name(), "@getint");
    assert!(program.func(f).params().is_empty());
    assert!(defined.is_empty());
    assert!(m.get("getint").is_some());
}

#[test]
fn a_function_is_registered_built_and_laid_out() {
    let mut program = Program::new();
    let mut m = VariableManager::new();
    let mut defined: Vec<String> = vec![];
    // int main() { int x = 1; if (x < 2) x = x + 3; return x; }
    let body = Block::new(vec![
        int_var("x", Some(num(1))),
        stmt(Stmt::new_if(IfBranch::new(less("x", 2), Stmt::new_assign(LVal::new("x".to_string()), sum_of("x", 3))))),
        stmt(Stmt::new_return(Some(var("x")))),
    ]);
    let decl = FuncDef::new(BType::Int, "main".to_string(), None, body);
    let f = register_func(&decl, &mut program, &mut m, &mut defined, true);
    ast_to_func(decl, &mut program, f, &mut m);
    let sizes: Vec<usize> = program.func(f).layout().bbs().iter().map(|(_, node)| node.insts().len()).collect();
    // entry: alloc, store, load, lt, br; then: load, add, store, jump; end: load, ret
    assert_eq!(sizes, vec![5, 4, 2]);
    let mut g = KoopaGenerator::new(Vec::new());
    g.generate_on(&program).unwrap();
    let text = String::from_utf8(g.writer()).unwrap();
    assert!(text.starts_with("fun @main(): i32 {"));
    assert!(text.contains("alloc i32"));
    assert!(text.contains("lt "));
    assert!(text.contains("br "));
    assert!(text.contains("jump "));
    assert_eq!(text.matches("ret ").count(), 1);
    assert!(m.get("x").is_none());
    assert!(m.get("main").is_some());
}

#[test]
fn parameters_get_slots_and_are_read_back() {
    let mut program = Program::new();
    let mut m = VariableManager::new();
    let mut defined: Vec<String> = vec![];
    // int add(int a, int b) { return a + b; }
    let params = FuncFParams::new(vec![
        FuncFParam::new(BType::Int, "a".to_string()),
        FuncFParam::new(BType::Int, "b".to_string()),
    ]);
    let sum = Expr::new_add(AddExpr::new_binary(
        AddExpr::new_lval(LVal::new("a".to_string())),
        AddOp::Add,
        MulExpr::new_lval(LVal::new("b".to_string())),
    ));
    let body = Block::new(vec![stmt(Stmt::new_return(Some(sum)))]);
    let decl = FuncDef::new(BType::Int, "add".to_string(), Some(params), body);
    let f = register_func(&decl, &mut program, &mut m, &mut defined, true);
    ast_to_func(decl, &mut program, f, &mut m);
    let sizes: Vec<usize> = program.func(f).layout().bbs().iter().map(|(_, node)| node.insts().len()).collect();
    // alloc, store, alloc, store, load, load, add, ret
    assert_eq!(sizes, vec![8]);
    let mut g = KoopaGenerator::new(Vec::new());
    g.generate_on(&program).unwrap();
    let text = String::from_utf8(g.writer()).unwrap();
    assert!(text.starts_with("fun @add(@a: i32, @b: i32): i32 {"));
    assert!(text.contains("store @a, "));
    assert!(text.contains("store @b, "));
    assert!(m.get("a").is_none());
}
