use sysy_compiler::ir::func::{bind_if_else_block, close_with_return, BindError};
use sysy_compiler::parse::ast::{
    BType, Block, BlockItem, ConstDecl, Decl, ElseBranch, Expr, IfBranch, Number, Stmt,
    WhileBranch,
};

fn cond(v: i32) -> Expr {
    Expr::new_num(Number::new(v))
}

fn ret(v: i32) -> Stmt {
    Stmt::new_return(Some(Expr::new_num(Number::new(v))))
}

fn value_of(s: &Stmt) -> i32 {
    match s {
        Stmt::Return(Some(e)) => e.const_eval_i32(&sysy_compiler::ir::meta::VariableManager::new()).unwrap(),
        _ => panic!("expected a return"),
    }
}

#[test]
fn else_binds_to_preceding_if() {
    let block = Block::new(vec![
        BlockItem::new_stmt(Stmt::new_if(IfBranch::new(cond(1), ret(1)))),
        BlockItem::new_stmt(Stmt::new_else(ElseBranch::new(ret(2)))),
    ]);
    let bound = bind_if_else_block(block).unwrap();
    assert_eq!(bound.items.len(), 1);
    match &bound.items[0] {
        BlockItem::Stmt(Stmt::IfElse(i, e)) => {
            assert_eq!(value_of(&i.stmt), 1);
            assert_eq!(value_of(&e.stmt), 2);
        }
        _ => panic!("expected if-else"),
    }
}

#[test]
fn else_binds_to_innermost_open_if() {
    // if (1) if (2) return 1; else return 2;
    let block = Block::new(vec![
        BlockItem::new_stmt(Stmt::new_if(IfBranch::new(cond(1), Stmt::new_if(IfBranch::new(cond(2), ret(1)))))),
        BlockItem::new_stmt(Stmt::new_else(ElseBranch::new(ret(2)))),
    ]);
    let bound = bind_if_else_block(block).unwrap();
    match &bound.items[0] {
        BlockItem::Stmt(Stmt::If(outer)) => match &outer.stmt {
            Stmt::IfElse(_, e) => assert_eq!(value_of(&e.stmt), 2),
            _ => panic!("the inner if should take the else"),
        },
        _ => panic!("the outer if should stay without else"),
    }
}

#[test]
fn else_passes_through_while_to_its_if() {
    // while (1) if (2) return 1; else return 2;
    let block = Block::new(vec![
        BlockItem::new_stmt(Stmt::new_while(WhileBranch::new(cond(1), Stmt::new_if(IfBranch::new(cond(2), ret(1)))))),
        BlockItem::new_stmt(Stmt::new_else(ElseBranch::new(ret(2)))),
    ]);
    let bound = bind_if_else_block(block).unwrap();
    match &bound.items[0] {
        BlockItem::Stmt(Stmt::While(w)) => assert!(matches!(w.stmt, Stmt::IfElse(_, _))),
        _ => panic!("expected while"),
    }
}

#[test]
fn block_without_else_is_unchanged() {
    let block = Block::new(vec![
        BlockItem::new_stmt(Stmt::new_if(IfBranch::new(cond(1), ret(1)))),
        BlockItem::new_stmt(ret(3)),
    ]);
    let bound = bind_if_else_block(block).unwrap();
    assert_eq!(bound.items.len(), 2);
    assert!(matches!(bound.items[0], BlockItem::Stmt(Stmt::If(_))));
    assert_eq!(value_of(match &bound.items[1] { BlockItem::Stmt(s) => s, _ => panic!() }), 3);
}

#[test]
fn else_first_is_refused() {
    let block = Block::new(vec![BlockItem::new_stmt(Stmt::new_else(ElseBranch::new(ret(2))))]);
    assert!(matches!(bind_if_else_block(block), Err(BindError::ElseFirst)));
}

#[test]
fn else_after_declaration_is_refused() {
    let block = Block::new(vec![
        BlockItem::new_decl(Decl::new_const(ConstDecl::new(BType::new_int(), vec![]))),
        BlockItem::new_stmt(Stmt::new_else(ElseBranch::new(ret(2)))),
    ]);
    assert!(matches!(bind_if_else_block(block), Err(BindError::ElseAfterDecl)));
}

#[test]
fn else_after_other_statement_is_refused() {
    let block = Block::new(vec![
        BlockItem::new_stmt(ret(1)),
        BlockItem::new_stmt(Stmt::new_else(ElseBranch::new(ret(2)))),
    ]);
    match bind_if_else_block(block) {
        Err(BindError::ElseWithoutIf(s)) => assert_eq!(value_of(&s), 1),
        _ => panic!("expected an error"),
    }
}

#[test]
fn bodies_are_closed_with_return() {
    let mut b = Block::new(vec![BlockItem::new_stmt(Stmt::new_expr(None))]);
    close_with_return(&mut b);
    assert_eq!(b.items.len(), 2);
    assert!(matches!(b.items[1], BlockItem::Stmt(Stmt::Return(None))));
    let mut c = Block::new(vec![BlockItem::new_stmt(ret(0))]);
    close_with_return(&mut c);
    assert_eq!(c.items.len(), 1);
    let mut d = Block::new(vec![]);
    close_with_return(&mut d);
    assert!(matches!(d.items[0], BlockItem::Stmt(Stmt::Return(None))));
}

#[test]
fn bind_errors_carry_their_messages() {
    let block = Block::new(vec![BlockItem::new_stmt(Stmt::new_else(ElseBranch::new(ret(1))))]);
    let e = bind_if_else_block(block).err().unwrap();
    assert_eq!(e.message(), "Else cannot be the first statement");
    let block = Block::new(vec![
        BlockItem::new_decl(Decl::new_const(ConstDecl::new(BType::new_int(), vec![]))),
        BlockItem::new_stmt(Stmt::new_else(ElseBranch::new(ret(1)))),
    ]);
    let e = bind_if_else_block(block).err().unwrap();
    assert_eq!(e.message(), "Else must follow an If statement, but found a declaration");
    let block = Block::new(vec![
        BlockItem::new_stmt(ret(1)),
        BlockItem::new_stmt(Stmt::new_else(ElseBranch::new(ret(2)))),
    ]);
    let e = bind_if_else_block(block).err().unwrap();
    assert_eq!(e.message(), "Else must follow an If statement, but found: return 1;");
}

#[test]
fn binding_drops_one_item_per_else_and_keeps_declarations() {
    let block = Block::new(vec![
        BlockItem::new_decl(Decl::new_const(ConstDecl::new(BType::new_int(), vec![]))),
        BlockItem::new_stmt(Stmt::new_if(IfBranch::new(cond(1), ret(1)))),
        BlockItem::new_stmt(Stmt::new_else(ElseBranch::new(ret(2)))),
        BlockItem::new_decl(Decl::new_const(ConstDecl::new(BType::new_int(), vec![]))),
        BlockItem::new_stmt(ret(3)),
    ]);
    let bound = bind_if_else_block(block).unwrap();
    assert_eq!(bound.items.len(), 4);
    assert!(matches!(bound.items[0], BlockItem::Decl(_)));
    assert!(matches!(bound.items[1], BlockItem::Stmt(Stmt::IfElse(_, _))));
    assert!(matches!(bound.items[2], BlockItem::Decl(_)));
    assert!(matches!(bound.items[3], BlockItem::Stmt(Stmt::Return(_))));
}
