//! The syntax tree of SysY and its constructors.
use vstd::prelude::*;

verus! {

/// A compilation unit: a left-nested list of function definitions.
#[derive(Debug)]
pub struct CompUnit {
    pub comp_unit: Option<Box<CompUnit>>,
    pub func_def: FuncDef,
}

/// A function definition: `ret_type ident(fparams) block`.
#[derive(Debug)]
pub struct FuncDef {
    pub ret_type: BType,
    pub ident: String,
    pub fparams: Option<FuncFParams>,
    pub block: Block,
}

#[derive(Debug)]
pub struct FuncFParams {
    pub params: Vec<FuncFParam>,
}

#[derive(Debug)]
pub struct FuncFParam {
    pub ty: BType,
    pub ident: String,
}

#[derive(Debug)]
pub struct FuncRParams {
    pub params: Vec<Expr>,
}

/// A block `{ item* }`.
#[derive(Debug)]
pub struct Block {
    pub items: Vec<BlockItem>,
}

#[derive(Debug)]
pub enum BlockItem {
    Stmt(Stmt),
    Decl(Decl),
}

/// A statement. `Else` is what the grammar produces for an `else` that has not
/// yet been attached to its `if`.
#[derive(Debug)]
pub enum Stmt {
    Return(Option<Expr>),
    Assign(LVal, Expr),
    Expr(Option<Expr>),
    If(Box<IfBranch>),
    Else(Box<ElseBranch>),
    Block(Block),
    IfElse(Box<IfBranch>, Box<ElseBranch>),
    While(Box<WhileBranch>),
    ControlFlow(ControlFlow),
}

#[derive(Debug)]
pub struct IfBranch {
    pub cond: Expr,
    pub stmt: Stmt,
}

#[derive(Debug)]
pub struct ElseBranch {
    pub stmt: Stmt,
}

#[derive(Debug)]
pub struct WhileBranch {
    pub cond: Expr,
    pub stmt: Stmt,
}

#[derive(Debug, Clone, Copy, PartialEq, Eq, Structural)]
pub enum ControlFlow {
    Break,
    Continue,
}

#[derive(Debug)]
pub enum Decl {
    Const(ConstDecl),
    Var(VarDecl),
}

#[derive(Debug)]
pub struct ConstDecl {
    pub ty: BType,
    pub def: Vec<ConstDef>,
}

#[derive(Debug, Clone, Copy, PartialEq, Eq, Structural)]
pub enum BType {
    Int,
    Void,
}

#[derive(Debug)]
pub struct ConstDef {
    pub ident: String,
    pub init_val: ConstInitVal,
}

#[derive(Debug)]
pub struct ConstInitVal {
    pub expr: ConstExpr,
}

#[derive(Debug)]
pub struct VarDecl {
    pub ty: BType,
    pub def: Vec<VarDef>,
}

#[derive(Debug)]
pub struct VarDef {
    pub ident: String,
    pub init_val: Option<InitVal>,
}

#[derive(Debug)]
pub struct InitVal {
    pub expr: Expr,
}

#[derive(Debug)]
pub struct ConstExpr {
    pub expr: Expr,
}

/// An expression; its top level is a logical-or expression.
#[derive(Debug)]
pub struct Expr {
    pub expr: Box<LOrExpr>,
}

#[derive(Debug)]
pub enum LOrExpr {
    And(LAndExpr),
    Binary(Box<LOrExpr>, Box<LAndExpr>),
}

#[derive(Debug)]
pub enum LAndExpr {
    Eq(EqExpr),
    Binary(Box<LAndExpr>, Box<EqExpr>),
}

#[derive(Debug, Clone, Copy, PartialEq, Eq, Structural)]
pub enum EqOp {
    Eq,
    NotEq,
}

#[derive(Debug)]
pub enum EqExpr {
    Rel(RelExpr),
    Binary(Box<EqExpr>, EqOp, Box<RelExpr>),
}

#[derive(Debug, Clone, Copy, PartialEq, Eq, Structural)]
pub enum RelOp {
    Lt,
    Gt,
    Le,
    Ge,
}

#[derive(Debug)]
pub enum RelExpr {
    Add(AddExpr),
    Binary(Box<RelExpr>, RelOp, Box<AddExpr>),
}

#[derive(Debug, Clone, Copy, PartialEq, Eq, Structural)]
pub enum AddOp {
    Add,
    Sub,
}

#[derive(Debug)]
pub enum AddExpr {
    Mul(MulExpr),
    Binary(Box<AddExpr>, AddOp, Box<MulExpr>),
}

#[derive(Debug, Clone, Copy, PartialEq, Eq, Structural)]
pub enum MulOp {
    Mul,
    Div,
    Mod,
}

#[derive(Debug)]
pub enum MulExpr {
    Unary(UnaryExpr),
    Binary(Box<MulExpr>, MulOp, Box<UnaryExpr>),
}

#[derive(Debug, Clone, Copy, PartialEq, Eq, Structural)]
pub enum UnaryOp {
    Pos,
    Neg,
    Not,
}

#[derive(Debug)]
pub enum UnaryExpr {
    Primary(PrimaryExpr),
    UnaryOp(UnaryOp, Box<UnaryExpr>),
    Call(FuncCall),
}

#[derive(Debug)]
pub struct FuncCall {
    pub ident: String,
    pub args: Option<FuncRParams>,
}

#[derive(Debug)]
pub enum PrimaryExpr {
    Num(Number),
    Expr(Box<Expr>),
    LVal(LVal),
}

/// A left value: a name.
#[derive(Debug)]
pub struct LVal {
    pub ident: String,
}

#[derive(Debug, Clone, Copy, PartialEq, Eq, Structural)]
pub struct Number {
    pub val: i32,
}


impl CompUnit {
    pub fn new(comp_unit: Option<CompUnit>, func_def: FuncDef) -> (r: Self)
        ensures
            r.func_def == func_def,
            r.comp_unit == (match comp_unit {
                Some(u) => Some(Box::new(u)),
                None => None,
            }),
    {
        let boxed = match comp_unit {
            Some(u) => Some(Box::new(u)),
            None => None,
        };
        Self { comp_unit: boxed, func_def }
    }
}

/// The function definitions of a compilation unit, in source order: the
/// innermost unit holds the first definition.
pub open spec fn unit_defs(u: CompUnit) -> Seq<FuncDef>
    decreases u,
{
    match u.comp_unit {
        Some(inner) => unit_defs(*inner).push(u.func_def),
        None => seq![u.func_def],
    }
}

/// The function definitions of a compilation unit, flattened.
#[derive(Debug)]
pub struct Components {
    pub list: Vec<FuncDef>,
}

impl Components {
    /// Flattens the left-nested unit into its definitions, first definition first.
    pub fn new(unit: CompUnit) -> (r: Self)
        ensures
            r.list@ == unit_defs(unit),
    {
        let ghost whole = unit;
        let CompUnit { comp_unit, func_def } = unit;
        let mut last_first: Vec<FuncDef> = Vec::new();
        last_first.push(func_def);
        let mut rest = comp_unit;
        while rest.is_some()
            invariant
                unit_defs(whole) == (match rest {
                    Some(inner) => unit_defs(*inner),
                    None => Seq::empty(),
                }) + last_first@.reverse(),
            decreases rest,
        {
            let inner = rest.unwrap();
            let CompUnit { comp_unit, func_def } = *inner;
            proof {
                let ghost old_rest = last_first@;
                assert(old_rest.push(func_def).reverse() =~= seq![func_def] + old_rest.reverse());
            }
            last_first.push(func_def);
            rest = comp_unit;
        }
        let mut list: Vec<FuncDef> = Vec::new();
        while last_first.len() > 0
            invariant
                list@ + last_first@.reverse() == unit_defs(whole),
            decreases last_first.len(),
        {
            let ghost before = last_first@;
            let d = last_first.pop().unwrap();
            proof {
                assert(before =~= last_first@.push(d));
                assert(before.reverse() =~= seq![d] + last_first@.reverse());
            }
            list.push(d);
        }
        proof {
            assert(last_first@.reverse() =~= Seq::<FuncDef>::empty());
            assert(list@ =~= unit_defs(whole));
        }
        Components { list }
    }
}

impl FuncDef {
    pub fn new(ret_type: BType, ident: String, fparams: Option<FuncFParams>, block: Block) -> (r: Self)
        ensures
            r == (FuncDef { ret_type, ident, fparams, block }),
    {
        Self { ret_type, ident, fparams, block }
    }
}

impl FuncFParams {
    pub fn new(params: Vec<FuncFParam>) -> (r: Self)
        ensures
            r == (FuncFParams { params }),
    {
        Self { params }
    }
}

impl FuncFParam {
    pub fn new(ty: BType, ident: String) -> (r: Self)
        ensures
            r == (FuncFParam { ty, ident }),
    {
        Self { ty, ident }
    }
}

impl FuncRParams {
    pub fn new(params: Vec<Expr>) -> (r: Self)
        ensures
            r == (FuncRParams { params }),
    {
        Self { params }
    }
}

impl Block {
    pub fn new(items: Vec<BlockItem>) -> (r: Self)
        ensures
            r == (Block { items }),
    {
        Self { items }
    }
}

impl BlockItem {
    pub fn new_stmt(stmt: Stmt) -> (r: Self)
        ensures
            r == BlockItem::Stmt(stmt),
    {
        Self::Stmt(stmt)
    }

    pub fn new_decl(decl: Decl) -> (r: Self)
        ensures
            r == BlockItem::Decl(decl),
    {
        Self::Decl(decl)
    }
}

impl Stmt {
    pub fn new_return(val: Option<Expr>) -> (r: Self)
        ensures
            r == Stmt::Return(val),
    {
        Self::Return(val)
    }

    pub fn new_assign(lval: LVal, expr: Expr) -> (r: Self)
        ensures
            r == Stmt::Assign(lval, expr),
    {
        Self::Assign(lval, expr)
    }

    pub fn new_expr(expr: Option<Expr>) -> (r: Self)
        ensures
            r == Stmt::Expr(expr),
    {
        Self::Expr(expr)
    }

    pub fn new_block(block: Block) -> (r: Self)
        ensures
            r == Stmt::Block(block),
    {
        Self::Block(block)
    }

    pub fn new_if(if_branch: IfBranch) -> (r: Self)
        ensures
            r == Stmt::If(Box::new(if_branch)),
    {
        Self::If(Box::new(if_branch))
    }

    pub fn new_else(else_branch: ElseBranch) -> (r: Self)
        ensures
            r == Stmt::Else(Box::new(else_branch)),
    {
        Self::Else(Box::new(else_branch))
    }

    pub fn new_if_else(if_branch: IfBranch, else_branch: ElseBranch) -> (r: Self)
        ensures
            r == Stmt::IfElse(Box::new(if_branch), Box::new(else_branch)),
    {
        Self::IfElse(Box::new(if_branch), Box::new(else_branch))
    }

    pub fn new_while(while_branch: WhileBranch) -> (r: Self)
        ensures
            r == Stmt::While(Box::new(while_branch)),
    {
        Self::While(Box::new(while_branch))
    }

    pub fn new_control_flow(control_flow: ControlFlow) -> (r: Self)
        ensures
            r == Stmt::ControlFlow(control_flow),
    {
        Self::ControlFlow(control_flow)
    }

    pub fn new_break() -> (r: Self)
        ensures
            r == Stmt::ControlFlow(ControlFlow::Break),
    {
        Self::ControlFlow(ControlFlow::new_break())
    }

    pub fn new_continue() -> (r: Self)
        ensures
            r == Stmt::ControlFlow(ControlFlow::Continue),
    {
        Self::ControlFlow(ControlFlow::new_continue())
    }
}

impl IfBranch {
    pub fn new(cond: Expr, stmt: Stmt) -> (r: Self)
        ensures
            r == (IfBranch { cond, stmt }),
    {
        Self { cond, stmt }
    }
}

impl ElseBranch {
    pub fn new(stmt: Stmt) -> (r: Self)
        ensures
            r == (ElseBranch { stmt }),
    {
        Self { stmt }
    }
}

impl WhileBranch {
    pub fn new(cond: Expr, stmt: Stmt) -> (r: Self)
        ensures
            r == (WhileBranch { cond, stmt }),
    {
        Self { cond, stmt }
    }
}

impl ControlFlow {
    pub fn new_break() -> (r: Self)
        ensures
            r == ControlFlow::Break,
    {
        Self::Break
    }

    pub fn new_continue() -> (r: Self)
        ensures
            r == ControlFlow::Continue,
    {
        Self::Continue
    }
}

impl Decl {
    pub fn new_const(const_decl: ConstDecl) -> (r: Self)
        ensures
            r == Decl::Const(const_decl),
    {
        Self::Const(const_decl)
    }

    pub fn new_var(var_decl: VarDecl) -> (r: Self)
        ensures
            r == Decl::Var(var_decl),
    {
        Self::Var(var_decl)
    }
}

impl ConstDecl {
    pub fn new(ty: BType, def: Vec<ConstDef>) -> (r: Self)
        ensures
            r == (ConstDecl { ty, def }),
    {
        Self { ty, def }
    }
}

impl BType {
    pub fn new_int() -> (r: Self)
        ensures
            r == BType::Int,
    {
        Self::Int
    }
}

impl ConstDef {
    pub fn new(ident: String, init_val: ConstInitVal) -> (r: Self)
        ensures
            r == (ConstDef { ident, init_val }),
    {
        Self { ident, init_val }
    }
}

impl ConstInitVal {
    pub fn new(expr: ConstExpr) -> (r: Self)
        ensures
            r == (ConstInitVal { expr }),
    {
        Self { expr }
    }
}

impl VarDecl {
    pub fn new(ty: BType, def: Vec<VarDef>) -> (r: Self)
        ensures
            r == (VarDecl { ty, def }),
    {
        Self { ty, def }
    }
}

impl VarDef {
    pub fn new(ident: String, init_val: Option<InitVal>) -> (r: Self)
        ensures
            r == (VarDef { ident, init_val }),
    {
        Self { ident, init_val }
    }
}

impl InitVal {
    pub fn new(expr: Expr) -> (r: Self)
        ensures
            r == (InitVal { expr }),
    {
        Self { expr }
    }
}

impl ConstExpr {
    pub fn new(expr: Expr) -> (r: Self)
        ensures
            r == (ConstExpr { expr }),
    {
        Self { expr }
    }
}

impl FuncCall {
    pub fn new(ident: String, args: Option<FuncRParams>) -> (r: Self)
        ensures
            r == (FuncCall { ident, args }),
    {
        Self { ident, args }
    }
}

impl LVal {
    pub fn new(ident: String) -> (r: Self)
        ensures
            r == (LVal { ident }),
    {
        Self { ident }
    }
}

impl Number {
    pub fn new(val: i32) -> (r: Self)
        ensures
            r.val == val,
    {
        Self { val }
    }

    pub fn get_val(&self) -> (r: i32)
        ensures
            r == self.val,
    {
        self.val
    }
}


/// A unary expression lifted, without operators, to an expression.
pub open spec fn mul_of(u: UnaryExpr) -> MulExpr {
    MulExpr::Unary(u)
}

pub open spec fn add_of(u: UnaryExpr) -> AddExpr {
    AddExpr::Mul(mul_of(u))
}

pub open spec fn rel_of(u: UnaryExpr) -> RelExpr {
    RelExpr::Add(add_of(u))
}

pub open spec fn eq_of(u: UnaryExpr) -> EqExpr {
    EqExpr::Rel(rel_of(u))
}

pub open spec fn land_of(u: UnaryExpr) -> LAndExpr {
    LAndExpr::Eq(eq_of(u))
}

pub open spec fn lor_of(u: UnaryExpr) -> LOrExpr {
    LOrExpr::And(land_of(u))
}

/// The unary expressions of a number, a name and a parenthesised expression.
pub open spec fn unary_num(num: Number) -> UnaryExpr {
    UnaryExpr::Primary(PrimaryExpr::Num(num))
}

pub open spec fn unary_lval(lval: LVal) -> UnaryExpr {
    UnaryExpr::Primary(PrimaryExpr::LVal(lval))
}

pub open spec fn unary_paren(expr: Expr) -> UnaryExpr {
    UnaryExpr::Primary(PrimaryExpr::Expr(Box::new(expr)))
}


impl LOrExpr {
    pub fn new_land(land: LAndExpr) -> (r: Self)
        ensures
            r == LOrExpr::And(land),
    {
        Self::And(land)
    }

    pub fn new_binary(left: LOrExpr, right: LAndExpr) -> (r: Self)
        ensures
            r == LOrExpr::Binary(Box::new(left), Box::new(right)),
    {
        Self::Binary(Box::new(left), Box::new(right))
    }

    pub fn new_eq(eq: EqExpr) -> (r: Self)
        ensures
            r == LOrExpr::And(LAndExpr::Eq(eq)),
    {
        Self::And(LAndExpr::new_eq(eq))
    }

    pub fn new_rel(rel: RelExpr) -> (r: Self)
        ensures
            r == LOrExpr::And(LAndExpr::Eq(EqExpr::Rel(rel))),
    {
        Self::And(LAndExpr::new_rel(rel))
    }

    pub fn new_add(add: AddExpr) -> (r: Self)
        ensures
            r == LOrExpr::And(LAndExpr::Eq(EqExpr::Rel(RelExpr::Add(add)))),
    {
        Self::And(LAndExpr::new_add(add))
    }

    pub fn new_mul(mul: MulExpr) -> (r: Self)
        ensures
            r == LOrExpr::And(LAndExpr::Eq(EqExpr::Rel(RelExpr::Add(AddExpr::Mul(mul))))),
    {
        Self::And(LAndExpr::new_mul(mul))
    }

    pub fn new_unary(unary: UnaryExpr) -> (r: Self)
        ensures
            r == LOrExpr::And(LAndExpr::Eq(EqExpr::Rel(RelExpr::Add(AddExpr::Mul(MulExpr::Unary(unary)))))),
    {
        Self::And(LAndExpr::new_unary(unary))
    }

    pub fn new_primary(primary: PrimaryExpr) -> (r: Self)
        ensures
            r == LOrExpr::And(LAndExpr::Eq(EqExpr::Rel(RelExpr::Add(AddExpr::Mul(MulExpr::Unary(UnaryExpr::Primary(primary))))))),
    {
        Self::And(LAndExpr::new_primary(primary))
    }

    pub fn new_num(num: Number) -> (r: Self)
        ensures
            r == LOrExpr::And(LAndExpr::Eq(EqExpr::Rel(RelExpr::Add(AddExpr::Mul(MulExpr::Unary(unary_num(num))))))),
    {
        Self::And(LAndExpr::new_num(num))
    }

    pub fn new_lval(lval: LVal) -> (r: Self)
        ensures
            r == LOrExpr::And(LAndExpr::Eq(EqExpr::Rel(RelExpr::Add(AddExpr::Mul(MulExpr::Unary(unary_lval(lval))))))),
    {
        Self::And(LAndExpr::new_lval(lval))
    }

    pub fn new_expr(expr: Expr) -> (r: Self)
        ensures
            r == LOrExpr::And(LAndExpr::Eq(EqExpr::Rel(RelExpr::Add(AddExpr::Mul(MulExpr::Unary(unary_paren(expr))))))),
    {
        Self::And(LAndExpr::new_expr(expr))
    }
}

impl LAndExpr {
    pub fn new_eq(eq: EqExpr) -> (r: Self)
        ensures
            r == LAndExpr::Eq(eq),
    {
        Self::Eq(eq)
    }

    pub fn new_binary(left: LAndExpr, right: EqExpr) -> (r: Self)
        ensures
            r == LAndExpr::Binary(Box::new(left), Box::new(right)),
    {
        Self::Binary(Box::new(left), Box::new(right))
    }

    pub fn new_rel(rel: RelExpr) -> (r: Self)
        ensures
            r == LAndExpr::Eq(EqExpr::Rel(rel)),
    {
        Self::Eq(EqExpr::new_rel(rel))
    }

    pub fn new_add(add: AddExpr) -> (r: Self)
        ensures
            r == LAndExpr::Eq(EqExpr::Rel(RelExpr::Add(add))),
    {
        Self::Eq(EqExpr::new_add(add))
    }

    pub fn new_mul(mul: MulExpr) -> (r: Self)
        ensures
            r == LAndExpr::Eq(EqExpr::Rel(RelExpr::Add(AddExpr::Mul(mul)))),
    {
        Self::Eq(EqExpr::new_mul(mul))
    }

    pub fn new_unary(unary: UnaryExpr) -> (r: Self)
        ensures
            r == LAndExpr::Eq(EqExpr::Rel(RelExpr::Add(AddExpr::Mul(MulExpr::Unary(unary))))),
    {
        Self::Eq(EqExpr::new_unary(unary))
    }

    pub fn new_primary(primary: PrimaryExpr) -> (r: Self)
        ensures
            r == LAndExpr::Eq(EqExpr::Rel(RelExpr::Add(AddExpr::Mul(MulExpr::Unary(UnaryExpr::Primary(primary)))))),
    {
        Self::Eq(EqExpr::new_primary(primary))
    }

    pub fn new_num(num: Number) -> (r: Self)
        ensures
            r == LAndExpr::Eq(EqExpr::Rel(RelExpr::Add(AddExpr::Mul(MulExpr::Unary(unary_num(num)))))),
    {
        Self::Eq(EqExpr::new_num(num))
    }

    pub fn new_lval(lval: LVal) -> (r: Self)
        ensures
            r == LAndExpr::Eq(EqExpr::Rel(RelExpr::Add(AddExpr::Mul(MulExpr::Unary(unary_lval(lval)))))),
    {
        Self::Eq(EqExpr::new_lval(lval))
    }

    pub fn new_expr(expr: Expr) -> (r: Self)
        ensures
            r == LAndExpr::Eq(EqExpr::Rel(RelExpr::Add(AddExpr::Mul(MulExpr::Unary(unary_paren(expr)))))),
    {
        Self::Eq(EqExpr::new_expr(expr))
    }
}

impl EqExpr {
    pub fn new_rel(rel: RelExpr) -> (r: Self)
        ensures
            r == EqExpr::Rel(rel),
    {
        Self::Rel(rel)
    }

    pub fn new_binary(left: EqExpr, op: EqOp, right: RelExpr) -> (r: Self)
        ensures
            r == EqExpr::Binary(Box::new(left), op, Box::new(right)),
    {
        Self::Binary(Box::new(left), op, Box::new(right))
    }

    pub fn new_add(add: AddExpr) -> (r: Self)
        ensures
            r == EqExpr::Rel(RelExpr::Add(add)),
    {
        Self::Rel(RelExpr::new_add(add))
    }

    pub fn new_mul(mul: MulExpr) -> (r: Self)
        ensures
            r == EqExpr::Rel(RelExpr::Add(AddExpr::Mul(mul))),
    {
        Self::Rel(RelExpr::new_mul(mul))
    }

    pub fn new_unary(unary: UnaryExpr) -> (r: Self)
        ensures
            r == EqExpr::Rel(RelExpr::Add(AddExpr::Mul(MulExpr::Unary(unary)))),
    {
        Self::Rel(RelExpr::new_unary(unary))
    }

    pub fn new_primary(primary: PrimaryExpr) -> (r: Self)
        ensures
            r == EqExpr::Rel(RelExpr::Add(AddExpr::Mul(MulExpr::Unary(UnaryExpr::Primary(primary))))),
    {
        Self::Rel(RelExpr::new_primary(primary))
    }

    pub fn new_num(num: Number) -> (r: Self)
        ensures
            r == EqExpr::Rel(RelExpr::Add(AddExpr::Mul(MulExpr::Unary(unary_num(num))))),
    {
        Self::Rel(RelExpr::new_num(num))
    }

    pub fn new_lval(lval: LVal) -> (r: Self)
        ensures
            r == EqExpr::Rel(RelExpr::Add(AddExpr::Mul(MulExpr::Unary(unary_lval(lval))))),
    {
        Self::Rel(RelExpr::new_lval(lval))
    }

    pub fn new_expr(expr: Expr) -> (r: Self)
        ensures
            r == EqExpr::Rel(RelExpr::Add(AddExpr::Mul(MulExpr::Unary(unary_paren(expr))))),
    {
        Self::Rel(RelExpr::new_expr(expr))
    }
}

impl RelExpr {
    pub fn new_add(add: AddExpr) -> (r: Self)
        ensures
            r == RelExpr::Add(add),
    {
        Self::Add(add)
    }

    pub fn new_binary(left: RelExpr, op: RelOp, right: AddExpr) -> (r: Self)
        ensures
            r == RelExpr::Binary(Box::new(left), op, Box::new(right)),
    {
        Self::Binary(Box::new(left), op, Box::new(right))
    }

    pub fn new_mul(mul: MulExpr) -> (r: Self)
        ensures
            r == RelExpr::Add(AddExpr::Mul(mul)),
    {
        Self::Add(AddExpr::new_mul(mul))
    }

    pub fn new_unary(unary: UnaryExpr) -> (r: Self)
        ensures
            r == RelExpr::Add(AddExpr::Mul(MulExpr::Unary(unary))),
    {
        Self::Add(AddExpr::new_unary(unary))
    }

    pub fn new_primary(primary: PrimaryExpr) -> (r: Self)
        ensures
            r == RelExpr::Add(AddExpr::Mul(MulExpr::Unary(UnaryExpr::Primary(primary)))),
    {
        Self::Add(AddExpr::new_primary(primary))
    }

    pub fn new_num(num: Number) -> (r: Self)
        ensures
            r == RelExpr::Add(AddExpr::Mul(MulExpr::Unary(unary_num(num)))),
    {
        Self::Add(AddExpr::new_num(num))
    }

    pub fn new_lval(lval: LVal) -> (r: Self)
        ensures
            r == RelExpr::Add(AddExpr::Mul(MulExpr::Unary(unary_lval(lval)))),
    {
        Self::Add(AddExpr::new_lval(lval))
    }

    pub fn new_expr(expr: Expr) -> (r: Self)
        ensures
            r == RelExpr::Add(AddExpr::Mul(MulExpr::Unary(unary_paren(expr)))),
    {
        Self::Add(AddExpr::new_expr(expr))
    }
}

impl AddExpr {
    pub fn new_mul(mul: MulExpr) -> (r: Self)
        ensures
            r == AddExpr::Mul(mul),
    {
        Self::Mul(mul)
    }

    pub fn new_binary(left: AddExpr, op: AddOp, right: MulExpr) -> (r: Self)
        ensures
            r == AddExpr::Binary(Box::new(left), op, Box::new(right)),
    {
        Self::Binary(Box::new(left), op, Box::new(right))
    }

    pub fn new_unary(unary: UnaryExpr) -> (r: Self)
        ensures
            r == AddExpr::Mul(MulExpr::Unary(unary)),
    {
        Self::Mul(MulExpr::new_unary(unary))
    }

    pub fn new_primary(primary: PrimaryExpr) -> (r: Self)
        ensures
            r == AddExpr::Mul(MulExpr::Unary(UnaryExpr::Primary(primary))),
    {
        Self::Mul(MulExpr::new_primary(primary))
    }

    pub fn new_num(num: Number) -> (r: Self)
        ensures
            r == AddExpr::Mul(MulExpr::Unary(unary_num(num))),
    {
        Self::Mul(MulExpr::new_num(num))
    }

    pub fn new_lval(lval: LVal) -> (r: Self)
        ensures
            r == AddExpr::Mul(MulExpr::Unary(unary_lval(lval))),
    {
        Self::Mul(MulExpr::new_lval(lval))
    }

    pub fn new_expr(expr: Expr) -> (r: Self)
        ensures
            r == AddExpr::Mul(MulExpr::Unary(unary_paren(expr))),
    {
        Self::Mul(MulExpr::new_expr(expr))
    }
}

impl MulExpr {
    pub fn new_unary(unary: UnaryExpr) -> (r: Self)
        ensures
            r == MulExpr::Unary(unary),
    {
        Self::Unary(unary)
    }

    pub fn new_binary(left: MulExpr, op: MulOp, right: UnaryExpr) -> (r: Self)
        ensures
            r == MulExpr::Binary(Box::new(left), op, Box::new(right)),
    {
        Self::Binary(Box::new(left), op, Box::new(right))
    }

    pub fn new_primary(primary: PrimaryExpr) -> (r: Self)
        ensures
            r == MulExpr::Unary(UnaryExpr::Primary(primary)),
    {
        Self::Unary(UnaryExpr::new_primary(primary))
    }

    pub fn new_num(num: Number) -> (r: Self)
        ensures
            r == MulExpr::Unary(unary_num(num)),
    {
        Self::Unary(UnaryExpr::new_num(num))
    }

    pub fn new_lval(lval: LVal) -> (r: Self)
        ensures
            r == MulExpr::Unary(unary_lval(lval)),
    {
        Self::Unary(UnaryExpr::new_lval(lval))
    }

    pub fn new_expr(expr: Expr) -> (r: Self)
        ensures
            r == MulExpr::Unary(unary_paren(expr)),
    {
        Self::Unary(UnaryExpr::new_expr(expr))
    }
}

impl UnaryExpr {
    pub fn new_primary(primary: PrimaryExpr) -> (r: Self)
        ensures
            r == UnaryExpr::Primary(primary),
    {
        Self::Primary(primary)
    }

    pub fn new_unary_op(op: UnaryOp, expr: UnaryExpr) -> (r: Self)
        ensures
            r == UnaryExpr::UnaryOp(op, Box::new(expr)),
    {
        Self::UnaryOp(op, Box::new(expr))
    }

    pub fn new_num(num: Number) -> (r: Self)
        ensures
            r == unary_num(num),
    {
        Self::Primary(PrimaryExpr::new_num(num))
    }

    pub fn new_lval(lval: LVal) -> (r: Self)
        ensures
            r == unary_lval(lval),
    {
        Self::Primary(PrimaryExpr::new_lval(lval))
    }

    pub fn new_expr(expr: Expr) -> (r: Self)
        ensures
            r == unary_paren(expr),
    {
        Self::Primary(PrimaryExpr::new_expr(expr))
    }

    pub fn new_call(func_call: FuncCall) -> (r: Self)
        ensures
            r == UnaryExpr::Call(func_call),
    {
        Self::Call(func_call)
    }
}

impl PrimaryExpr {
    pub fn new_num(num: Number) -> (r: Self)
        ensures
            r == PrimaryExpr::Num(num),
    {
        Self::Num(num)
    }

    pub fn new_expr(expr: Expr) -> (r: Self)
        ensures
            r == PrimaryExpr::Expr(Box::new(expr)),
    {
        Self::Expr(Box::new(expr))
    }

    pub fn new_lval(lval: LVal) -> (r: Self)
        ensures
            r == PrimaryExpr::LVal(lval),
    {
        Self::LVal(lval)
    }
}

impl Expr {
    pub fn new(expr: LOrExpr) -> (r: Self)
        ensures
            r == (Expr { expr: Box::new(expr) }),
    {
        Self { expr: Box::new(expr) }
    }

    pub fn new_land(land: LAndExpr) -> (r: Self)
        ensures
            r == (Expr { expr: Box::new(LOrExpr::And(land)) }),
    {
        Self::new(LOrExpr::new_land(land))
    }

    pub fn new_eq(eq: EqExpr) -> (r: Self)
        ensures
            r == (Expr { expr: Box::new(LOrExpr::And(LAndExpr::Eq(eq))) }),
    {
        Self::new(LOrExpr::new_eq(eq))
    }

    pub fn new_rel(rel: RelExpr) -> (r: Self)
        ensures
            r == (Expr { expr: Box::new(LOrExpr::And(LAndExpr::Eq(EqExpr::Rel(rel)))) }),
    {
        Self::new(LOrExpr::new_rel(rel))
    }

    pub fn new_add(add: AddExpr) -> (r: Self)
        ensures
            r == (Expr { expr: Box::new(LOrExpr::And(LAndExpr::Eq(EqExpr::Rel(RelExpr::Add(add))))) }),
    {
        Self::new(LOrExpr::new_add(add))
    }

    pub fn new_mul(mul: MulExpr) -> (r: Self)
        ensures
            r == (Expr { expr: Box::new(LOrExpr::And(LAndExpr::Eq(EqExpr::Rel(RelExpr::Add(AddExpr::Mul(mul)))))) }),
    {
        Self::new(LOrExpr::new_mul(mul))
    }

    pub fn new_unary(unary: UnaryExpr) -> (r: Self)
        ensures
            r == (Expr { expr: Box::new(LOrExpr::And(LAndExpr::Eq(EqExpr::Rel(RelExpr::Add(AddExpr::Mul(MulExpr::Unary(unary))))))) }),
    {
        Self::new(LOrExpr::new_unary(unary))
    }

    pub fn new_lor(lor: LOrExpr) -> (r: Self)
        ensures
            r == (Expr { expr: Box::new(lor) }),
    {
        Self::new(lor)
    }

    pub fn new_primary(primary: PrimaryExpr) -> (r: Self)
        ensures
            r == (Expr { expr: Box::new(lor_of(UnaryExpr::Primary(primary))) }),
    {
        Self::new(LOrExpr::new_primary(primary))
    }

    pub fn new_num(num: Number) -> (r: Self)
        ensures
            r == (Expr { expr: Box::new(lor_of(unary_num(num))) }),
    {
        Self::new(LOrExpr::new_num(num))
    }

    pub fn new_lval(lval: LVal) -> (r: Self)
        ensures
            r == (Expr { expr: Box::new(lor_of(unary_lval(lval))) }),
    {
        Self::new(LOrExpr::new_lval(lval))
    }

    pub fn new_expr(expr: Expr) -> (r: Self)
        ensures
            r == (Expr { expr: Box::new(lor_of(unary_paren(expr))) }),
    {
        Self::new(LOrExpr::new_expr(expr))
    }
}

} // verus!
