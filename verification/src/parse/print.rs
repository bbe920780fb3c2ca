//! Expressions printed back as source text.
use vstd::prelude::*;

use crate::parse::ast::{
    AddExpr, AddOp, EqExpr, EqOp, Expr, FuncCall, LAndExpr, LOrExpr, MulExpr,
    MulOp, PrimaryExpr, RelExpr, RelOp, UnaryExpr, UnaryOp,
};
use crate::text::int_text;

verus! {

pub closed spec fn eq_op_text(op: EqOp) -> Seq<char> {
    match op {
        EqOp::Eq => "=="@,
        EqOp::NotEq => "!="@,
    }
}

pub closed spec fn rel_op_text(op: RelOp) -> Seq<char> {
    match op {
        RelOp::Lt => "<"@,
        RelOp::Gt => ">"@,
        RelOp::Le => "<="@,
        RelOp::Ge => ">="@,
    }
}

pub closed spec fn add_op_text(op: AddOp) -> Seq<char> {
    match op {
        AddOp::Add => "+"@,
        AddOp::Sub => "-"@,
    }
}

pub closed spec fn mul_op_text(op: MulOp) -> Seq<char> {
    match op {
        MulOp::Mul => "*"@,
        MulOp::Div => "/"@,
        MulOp::Mod => "%"@,
    }
}

pub closed spec fn unary_op_text(op: UnaryOp) -> Seq<char> {
    match op {
        UnaryOp::Pos => "+"@,
        UnaryOp::Neg => "-"@,
        UnaryOp::Not => "!"@,
    }
}

pub closed spec fn expr_text(e: Expr) -> Seq<char>
    decreases e, 0nat,
{
    lor_text(*e.expr)
}

pub closed spec fn lor_text(e: LOrExpr) -> Seq<char>
    decreases e, 0nat,
{
    match e {
        LOrExpr::And(a) => land_text(a),
        LOrExpr::Binary(l, r) => lor_text(*l) + " || "@ + land_text(*r),
    }
}

pub closed spec fn land_text(e: LAndExpr) -> Seq<char>
    decreases e, 0nat,
{
    match e {
        LAndExpr::Eq(a) => eq_text(a),
        LAndExpr::Binary(l, r) => land_text(*l) + " && "@ + eq_text(*r),
    }
}

pub closed spec fn eq_text(e: EqExpr) -> Seq<char>
    decreases e, 0nat,
{
    match e {
        EqExpr::Rel(a) => rel_text(a),
        EqExpr::Binary(l, op, r) => eq_text(*l) + " "@ + eq_op_text(op) + " "@ + rel_text(*r),
    }
}

pub closed spec fn rel_text(e: RelExpr) -> Seq<char>
    decreases e, 0nat,
{
    match e {
        RelExpr::Add(a) => add_text(a),
        RelExpr::Binary(l, op, r) => rel_text(*l) + " "@ + rel_op_text(op) + " "@ + add_text(*r),
    }
}

pub closed spec fn add_text(e: AddExpr) -> Seq<char>
    decreases e, 0nat,
{
    match e {
        AddExpr::Mul(a) => mul_text(a),
        AddExpr::Binary(l, op, r) => add_text(*l) + " "@ + add_op_text(op) + " "@ + mul_text(*r),
    }
}

pub closed spec fn mul_text(e: MulExpr) -> Seq<char>
    decreases e, 0nat,
{
    match e {
        MulExpr::Unary(a) => unary_text(a),
        MulExpr::Binary(l, op, r) => mul_text(*l) + " "@ + mul_op_text(op) + " "@ + unary_text(*r),
    }
}

pub closed spec fn unary_text(e: UnaryExpr) -> Seq<char>
    decreases e, 0nat,
{
    match e {
        UnaryExpr::Primary(p) => primary_text(p),
        UnaryExpr::UnaryOp(op, x) => unary_op_text(op) + " "@ + unary_text(*x),
        UnaryExpr::Call(c) => call_text(c),
    }
}

pub closed spec fn call_text(c: FuncCall) -> Seq<char>
    decreases c, 0nat,
{
    match c.args {
        Some(args) => c.ident@ + "("@ + args_text(args.params@, args.params@.len()) + ")"@,
        None => c.ident@ + "()"@,
    }
}

/// The first `n` arguments, separated by commas.
pub closed spec fn args_text(args: Seq<Expr>, n: nat) -> Seq<char>
    decreases args, n,
{
    if n == 0 || n > args.len() {
        Seq::empty()
    } else if n == 1 {
        expr_text(args[0])
    } else {
        args_text(args, (n - 1) as nat) + ", "@ + expr_text(args[n - 1])
    }
}

pub closed spec fn primary_text(p: PrimaryExpr) -> Seq<char>
    decreases p, 0nat,
{
    match p {
        PrimaryExpr::Num(n) => int_text(n.val as int),
        PrimaryExpr::Expr(e) => "("@ + expr_text(*e) + ")"@,
        PrimaryExpr::LVal(l) => l.ident@,
    }
}

/// The first `n` arguments' text, kept folded inside loops.
#[verifier::opaque]
pub closed spec fn joined_args(args: Seq<Expr>, n: nat) -> Seq<char> {
    args_text(args, n)
}

pub proof fn lemma_joined_args_ends(args: Seq<Expr>)
    ensures
        joined_args(args, 0) == Seq::<char>::empty(),
        joined_args(args, args.len()) == args_text(args, args.len()),
{
    reveal(joined_args);
}

pub proof fn lemma_joined_args_step(args: Seq<Expr>, i: nat)
    requires
        i < args.len(),
    ensures
        joined_args(args, i + 1) == joined_args(args, i) + (if i > 0 { ", "@ } else { Seq::<char>::empty() }) + expr_text(args[i as int]),
        joined_args(args, 0) == Seq::<char>::empty(),
        joined_args(args, args.len()) == args_text(args, args.len()),
{
    reveal(joined_args);
    if i == 0 {
        assert(args_text(args, 1) =~= Seq::<char>::empty() + Seq::<char>::empty() + expr_text(args[0]));
    }
}

/// One step of unfolding each printing function, for the printers.
pub proof fn lemma_expr_text(e: Expr)
    ensures
        expr_text(e) == lor_text(*e.expr),
{
}

pub proof fn lemma_lor_text(e: LOrExpr)
    ensures
        lor_text(e) == (match e {
            LOrExpr::And(a) => land_text(a),
            LOrExpr::Binary(l, r) => lor_text(*l) + " || "@ + land_text(*r),
        }),
{
}

pub proof fn lemma_land_text(e: LAndExpr)
    ensures
        land_text(e) == (match e {
            LAndExpr::Eq(a) => eq_text(a),
            LAndExpr::Binary(l, r) => land_text(*l) + " && "@ + eq_text(*r),
        }),
{
}

pub proof fn lemma_eq_text(e: EqExpr)
    ensures
        eq_text(e) == (match e {
            EqExpr::Rel(a) => rel_text(a),
            EqExpr::Binary(l, op, r) => eq_text(*l) + " "@ + eq_op_text(op) + " "@ + rel_text(*r),
        }),
{
}

pub proof fn lemma_rel_text(e: RelExpr)
    ensures
        rel_text(e) == (match e {
            RelExpr::Add(a) => add_text(a),
            RelExpr::Binary(l, op, r) => rel_text(*l) + " "@ + rel_op_text(op) + " "@ + add_text(*r),
        }),
{
}

pub proof fn lemma_add_text(e: AddExpr)
    ensures
        add_text(e) == (match e {
            AddExpr::Mul(a) => mul_text(a),
            AddExpr::Binary(l, op, r) => add_text(*l) + " "@ + add_op_text(op) + " "@ + mul_text(*r),
        }),
{
}

pub proof fn lemma_mul_text(e: MulExpr)
    ensures
        mul_text(e) == (match e {
            MulExpr::Unary(a) => unary_text(a),
            MulExpr::Binary(l, op, r) => mul_text(*l) + " "@ + mul_op_text(op) + " "@ + unary_text(*r),
        }),
{
}

pub proof fn lemma_unary_text(e: UnaryExpr)
    ensures
        unary_text(e) == (match e {
            UnaryExpr::Primary(p) => primary_text(p),
            UnaryExpr::UnaryOp(op, x) => unary_op_text(op) + " "@ + unary_text(*x),
            UnaryExpr::Call(c) => call_text(c),
        }),
{
}

pub proof fn lemma_call_text(c: FuncCall)
    ensures
        call_text(c) == (match c.args {
            Some(args) => c.ident@ + "("@ + args_text(args.params@, args.params@.len()) + ")"@,
            None => c.ident@ + "()"@,
        }),
{
}

pub proof fn lemma_primary_text(p: PrimaryExpr)
    ensures
        primary_text(p) == (match p {
            PrimaryExpr::Num(n) => int_text(n.val as int),
            PrimaryExpr::Expr(e) => "("@ + expr_text(*e) + ")"@,
            PrimaryExpr::LVal(l) => l.ident@,
        }),
{
}

/// The texts of the operators.
pub proof fn lemma_op_texts()
    ensures
        eq_op_text(EqOp::Eq) == "=="@ && eq_op_text(EqOp::NotEq) == "!="@,
        rel_op_text(RelOp::Lt) == "<"@ && rel_op_text(RelOp::Gt) == ">"@ && rel_op_text(RelOp::Le) == "<="@ && rel_op_text(RelOp::Ge) == ">="@,
        add_op_text(AddOp::Add) == "+"@ && add_op_text(AddOp::Sub) == "-"@,
        mul_op_text(MulOp::Mul) == "*"@ && mul_op_text(MulOp::Div) == "/"@ && mul_op_text(MulOp::Mod) == "%"@,
        unary_op_text(UnaryOp::Pos) == "+"@ && unary_op_text(UnaryOp::Neg) == "-"@ && unary_op_text(UnaryOp::Not) == "!"@,
{
}

} // verus!
