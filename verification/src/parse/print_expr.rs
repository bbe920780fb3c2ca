//! The printers of expressions.
use vstd::prelude::*;
use vstd::string::StringExecFns;

use crate::parse::ast::{
    AddExpr, AddOp, ConstExpr, ConstInitVal, EqExpr, EqOp, Expr, FuncCall, FuncRParams, InitVal,
    LAndExpr, LOrExpr, LVal, MulExpr, MulOp, Number, PrimaryExpr, RelExpr, RelOp, UnaryExpr,
    UnaryOp,
};
use crate::parse::print::{
    add_op_text, add_text, args_text, call_text, eq_op_text, eq_text, expr_text, joined_args,
    land_text, lemma_add_text, lemma_call_text, lemma_eq_text, lemma_expr_text,
    lemma_joined_args_ends, lemma_joined_args_step, lemma_land_text, lemma_lor_text, lemma_mul_text, lemma_op_texts,
    lemma_primary_text, lemma_rel_text, lemma_unary_text, lor_text, mul_op_text, mul_text,
    primary_text, rel_op_text, rel_text, unary_op_text, unary_text,
};
use crate::text::{int_text, int_to_string, push_int};

verus! {

fn push_eq_op(op: EqOp, out: &mut String)
    ensures
        final(out)@ == old(out)@ + eq_op_text(op),
{
    proof {
        lemma_op_texts();
    }
    match op {
        EqOp::Eq => out.append("=="),
        EqOp::NotEq => out.append("!="),
    }
}

fn push_rel_op(op: RelOp, out: &mut String)
    ensures
        final(out)@ == old(out)@ + rel_op_text(op),
{
    proof {
        lemma_op_texts();
    }
    match op {
        RelOp::Lt => out.append("<"),
        RelOp::Gt => out.append(">"),
        RelOp::Le => out.append("<="),
        RelOp::Ge => out.append(">="),
    }
}

fn push_add_op(op: AddOp, out: &mut String)
    ensures
        final(out)@ == old(out)@ + add_op_text(op),
{
    proof {
        lemma_op_texts();
    }
    match op {
        AddOp::Add => out.append("+"),
        AddOp::Sub => out.append("-"),
    }
}

fn push_mul_op(op: MulOp, out: &mut String)
    ensures
        final(out)@ == old(out)@ + mul_op_text(op),
{
    proof {
        lemma_op_texts();
    }
    match op {
        MulOp::Mul => out.append("*"),
        MulOp::Div => out.append("/"),
        MulOp::Mod => out.append("%"),
    }
}

fn push_unary_op(op: UnaryOp, out: &mut String)
    ensures
        final(out)@ == old(out)@ + unary_op_text(op),
{
    proof {
        lemma_op_texts();
    }
    match op {
        UnaryOp::Pos => out.append("+"),
        UnaryOp::Neg => out.append("-"),
        UnaryOp::Not => out.append("!"),
    }
}

impl Expr {
    /// Appends the text of the expression.
    pub fn push_text(&self, out: &mut String)
        ensures
            final(out)@ == old(out)@ + expr_text(*self),
        decreases *self, 0nat,
    {
        proof {
            lemma_expr_text(*self);
            lemma_op_texts();
        }
        self.expr.push_text(out);
    }

    pub fn to_string(&self) -> (r: String)
        ensures
            r@ == expr_text(*self),
    {
        let mut s = String::new();
        self.push_text(&mut s);
        assert(s@ =~= expr_text(*self));
        s
    }
}

impl LOrExpr {
    pub fn push_text(&self, out: &mut String)
        ensures
            final(out)@ == old(out)@ + lor_text(*self),
        decreases *self, 0nat,
    {
        proof {
            lemma_lor_text(*self);
            lemma_op_texts();
        }
        match self {
            LOrExpr::And(a) => a.push_text(out),
            LOrExpr::Binary(l, r) => {
                l.push_text(out);
                out.append(" || ");
                r.push_text(out);
                assert(final(out)@ =~= old(out)@ + lor_text(*self));
            },
        }
    }
}

impl LAndExpr {
    pub fn push_text(&self, out: &mut String)
        ensures
            final(out)@ == old(out)@ + land_text(*self),
        decreases *self, 0nat,
    {
        proof {
            lemma_land_text(*self);
            lemma_op_texts();
        }
        match self {
            LAndExpr::Eq(a) => a.push_text(out),
            LAndExpr::Binary(l, r) => {
                l.push_text(out);
                out.append(" && ");
                r.push_text(out);
                assert(final(out)@ =~= old(out)@ + land_text(*self));
            },
        }
    }
}

impl EqExpr {
    pub fn push_text(&self, out: &mut String)
        ensures
            final(out)@ == old(out)@ + eq_text(*self),
        decreases *self, 0nat,
    {
        proof {
            lemma_eq_text(*self);
            lemma_op_texts();
        }
        match self {
            EqExpr::Rel(a) => a.push_text(out),
            EqExpr::Binary(l, op, r) => {
                l.push_text(out);
                out.append(" ");
                push_eq_op(*op, out);
                out.append(" ");
                r.push_text(out);
                assert(final(out)@ =~= old(out)@ + eq_text(*self));
            },
        }
    }
}

impl RelExpr {
    pub fn push_text(&self, out: &mut String)
        ensures
            final(out)@ == old(out)@ + rel_text(*self),
        decreases *self, 0nat,
    {
        proof {
            lemma_rel_text(*self);
            lemma_op_texts();
        }
        match self {
            RelExpr::Add(a) => a.push_text(out),
            RelExpr::Binary(l, op, r) => {
                l.push_text(out);
                out.append(" ");
                push_rel_op(*op, out);
                out.append(" ");
                r.push_text(out);
                assert(final(out)@ =~= old(out)@ + rel_text(*self));
            },
        }
    }
}

impl AddExpr {
    pub fn push_text(&self, out: &mut String)
        ensures
            final(out)@ == old(out)@ + add_text(*self),
        decreases *self, 0nat,
    {
        proof {
            lemma_add_text(*self);
            lemma_op_texts();
        }
        match self {
            AddExpr::Mul(a) => a.push_text(out),
            AddExpr::Binary(l, op, r) => {
                l.push_text(out);
                out.append(" ");
                push_add_op(*op, out);
                out.append(" ");
                r.push_text(out);
                assert(final(out)@ =~= old(out)@ + add_text(*self));
            },
        }
    }
}

impl MulExpr {
    pub fn push_text(&self, out: &mut String)
        ensures
            final(out)@ == old(out)@ + mul_text(*self),
        decreases *self, 0nat,
    {
        proof {
            lemma_mul_text(*self);
            lemma_op_texts();
        }
        match self {
            MulExpr::Unary(a) => a.push_text(out),
            MulExpr::Binary(l, op, r) => {
                l.push_text(out);
                out.append(" ");
                push_mul_op(*op, out);
                out.append(" ");
                r.push_text(out);
                assert(final(out)@ =~= old(out)@ + mul_text(*self));
            },
        }
    }
}

impl UnaryExpr {
    pub fn push_text(&self, out: &mut String)
        ensures
            final(out)@ == old(out)@ + unary_text(*self),
        decreases *self, 0nat,
    {
        proof {
            lemma_unary_text(*self);
            lemma_op_texts();
        }
        match self {
            UnaryExpr::Primary(p) => p.push_text(out),
            UnaryExpr::UnaryOp(op, x) => {
                push_unary_op(*op, out);
                out.append(" ");
                x.push_text(out);
                assert(final(out)@ =~= old(out)@ + unary_text(*self));
            },
            UnaryExpr::Call(c) => c.push_text(out),
        }
    }
}

impl FuncCall {
    pub fn push_text(&self, out: &mut String)
        ensures
            final(out)@ == old(out)@ + call_text(*self),
        decreases *self, 0nat,
    {
        proof {
            lemma_call_text(*self);
            lemma_op_texts();
        }
        let ghost start = out@;
        out.append(self.ident.as_str());
        match &self.args {
            Some(args) => {
                out.append("(");
                let ghost mid = out@;
                args.push_text(out);
                out.append(")");
                assert(out@ =~= start + (self.ident@ + "("@ + args_text(args.params@, args.params@.len()) + ")"@));
            },
            None => {
                out.append("()");
                assert(out@ =~= start + (self.ident@ + "()"@));
            },
        }
    }
}

impl FuncRParams {
    /// Appends the arguments, separated by commas.
    pub fn push_text(&self, out: &mut String)
        ensures
            final(out)@ == old(out)@ + args_text(self.params@, self.params@.len()),
        decreases *self, 0nat,
    {
        let ghost start = out@;
        let ghost args = self.params@;
        let mut i: usize = 0;
        proof {
            lemma_joined_args_ends(args);
        }
        assert(out@ =~= start + joined_args(args, 0));
        while i < self.params.len()
            invariant
                i <= args.len(),
                args == self.params@,
                out@ == start + joined_args(args, i as nat),
            decreases self.params.len() - i,
        {
            proof {
                lemma_joined_args_step(args, i as nat);
            }
            if i > 0 {
                out.append(", ");
            }
            self.params[i].push_text(out);
            assert(out@ =~= start + joined_args(args, (i + 1) as nat));
            i = i + 1;
        }
        proof {
            lemma_joined_args_ends(args);
        }
    }
}

impl PrimaryExpr {
    pub fn push_text(&self, out: &mut String)
        ensures
            final(out)@ == old(out)@ + primary_text(*self),
        decreases *self, 0nat,
    {
        proof {
            lemma_primary_text(*self);
            lemma_op_texts();
        }
        match self {
            PrimaryExpr::Num(n) => push_int(out, n.val as i64),
            PrimaryExpr::Expr(e) => {
                out.append("(");
                e.push_text(out);
                out.append(")");
                assert(final(out)@ =~= old(out)@ + primary_text(*self));
            },
            PrimaryExpr::LVal(l) => out.append(l.ident.as_str()),
        }
    }
}

impl LOrExpr {
    /// The source text.
    pub fn to_string(&self) -> (r: String)
        ensures
            r@ == lor_text(*self),
    {
        let mut s = String::new();
        self.push_text(&mut s);
        assert(s@ =~= lor_text(*self));
        s
    }
}

impl LAndExpr {
    /// The source text.
    pub fn to_string(&self) -> (r: String)
        ensures
            r@ == land_text(*self),
    {
        let mut s = String::new();
        self.push_text(&mut s);
        assert(s@ =~= land_text(*self));
        s
    }
}

impl EqExpr {
    /// The source text.
    pub fn to_string(&self) -> (r: String)
        ensures
            r@ == eq_text(*self),
    {
        let mut s = String::new();
        self.push_text(&mut s);
        assert(s@ =~= eq_text(*self));
        s
    }
}

impl RelExpr {
    /// The source text.
    pub fn to_string(&self) -> (r: String)
        ensures
            r@ == rel_text(*self),
    {
        let mut s = String::new();
        self.push_text(&mut s);
        assert(s@ =~= rel_text(*self));
        s
    }
}

impl AddExpr {
    /// The source text.
    pub fn to_string(&self) -> (r: String)
        ensures
            r@ == add_text(*self),
    {
        let mut s = String::new();
        self.push_text(&mut s);
        assert(s@ =~= add_text(*self));
        s
    }
}

impl MulExpr {
    /// The source text.
    pub fn to_string(&self) -> (r: String)
        ensures
            r@ == mul_text(*self),
    {
        let mut s = String::new();
        self.push_text(&mut s);
        assert(s@ =~= mul_text(*self));
        s
    }
}

impl UnaryExpr {
    /// The source text.
    pub fn to_string(&self) -> (r: String)
        ensures
            r@ == unary_text(*self),
    {
        let mut s = String::new();
        self.push_text(&mut s);
        assert(s@ =~= unary_text(*self));
        s
    }
}

impl FuncCall {
    /// The source text.
    pub fn to_string(&self) -> (r: String)
        ensures
            r@ == call_text(*self),
    {
        let mut s = String::new();
        self.push_text(&mut s);
        assert(s@ =~= call_text(*self));
        s
    }
}

impl FuncRParams {
    /// The source text.
    pub fn to_string(&self) -> (r: String)
        ensures
            r@ == args_text(self.params@, self.params@.len()),
    {
        let mut s = String::new();
        self.push_text(&mut s);
        assert(s@ =~= args_text(self.params@, self.params@.len()));
        s
    }
}

impl PrimaryExpr {
    /// The source text.
    pub fn to_string(&self) -> (r: String)
        ensures
            r@ == primary_text(*self),
    {
        let mut s = String::new();
        self.push_text(&mut s);
        assert(s@ =~= primary_text(*self));
        s
    }
}

impl EqOp {
    /// The operator's symbol.
    pub fn to_string(&self) -> (r: String)
        ensures
            r@ == eq_op_text(*self),
    {
        let mut s = String::new();
        push_eq_op(*self, &mut s);
        assert(s@ =~= eq_op_text(*self));
        s
    }
}

impl RelOp {
    /// The operator's symbol.
    pub fn to_string(&self) -> (r: String)
        ensures
            r@ == rel_op_text(*self),
    {
        let mut s = String::new();
        push_rel_op(*self, &mut s);
        assert(s@ =~= rel_op_text(*self));
        s
    }
}

impl AddOp {
    /// The operator's symbol.
    pub fn to_string(&self) -> (r: String)
        ensures
            r@ == add_op_text(*self),
    {
        let mut s = String::new();
        push_add_op(*self, &mut s);
        assert(s@ =~= add_op_text(*self));
        s
    }
}

impl MulOp {
    /// The operator's symbol.
    pub fn to_string(&self) -> (r: String)
        ensures
            r@ == mul_op_text(*self),
    {
        let mut s = String::new();
        push_mul_op(*self, &mut s);
        assert(s@ =~= mul_op_text(*self));
        s
    }
}

impl UnaryOp {
    /// The operator's symbol.
    pub fn to_string(&self) -> (r: String)
        ensures
            r@ == unary_op_text(*self),
    {
        let mut s = String::new();
        push_unary_op(*self, &mut s);
        assert(s@ =~= unary_op_text(*self));
        s
    }
}

impl Number {
    /// The decimal numeral of the number.
    pub fn to_string(&self) -> (r: String)
        ensures
            r@ == int_text(self.val as int),
    {
        int_to_string(self.val as i64)
    }
}

impl LVal {
    /// The name.
    pub fn to_string(&self) -> (r: String)
        ensures
            r@ == self.ident@,
    {
        self.ident.clone()
    }
}

impl InitVal {
    /// The text of the initial value's expression.
    pub fn to_string(&self) -> (r: String)
        ensures
            r@ == expr_text(self.expr),
    {
        self.expr.to_string()
    }
}

impl ConstExpr {
    /// The text of the expression.
    pub fn to_string(&self) -> (r: String)
        ensures
            r@ == expr_text(self.expr),
    {
        self.expr.to_string()
    }
}

impl ConstInitVal {
    /// The text of the expression.
    pub fn to_string(&self) -> (r: String)
        ensures
            r@ == expr_text(self.expr.expr),
    {
        self.expr.expr.to_string()
    }
}

} // verus!
