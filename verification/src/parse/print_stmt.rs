//! Statements, declarations and definitions printed back as source text, on
//! one line.
use vstd::prelude::*;
use vstd::string::StringExecFns;

use crate::parse::ast::{
    BType, Block, BlockItem, CompUnit, ConstDecl, ConstDef, ControlFlow, Decl, ElseBranch,
    FuncDef, FuncFParam, FuncFParams, IfBranch, Stmt, VarDecl, VarDef, WhileBranch,
};
use crate::parse::print::expr_text;

verus! {

pub closed spec fn btype_text(t: BType) -> Seq<char> {
    match t {
        BType::Int => "int"@,
        BType::Void => "void"@,
    }
}

pub closed spec fn control_flow_text(c: ControlFlow) -> Seq<char> {
    match c {
        ControlFlow::Break => "break;"@,
        ControlFlow::Continue => "continue;"@,
    }
}

pub closed spec fn const_def_text(d: ConstDef) -> Seq<char> {
    d.ident@ + " = "@ + expr_text(d.init_val.expr.expr)
}

pub closed spec fn var_def_text(d: VarDef) -> Seq<char> {
    match d.init_val {
        Some(init) => d.ident@ + " = "@ + expr_text(init.expr),
        None => d.ident@,
    }
}

/// The first `n` constant definitions, separated by commas.
pub closed spec fn const_defs_text(defs: Seq<ConstDef>, n: nat) -> Seq<char>
    decreases n,
{
    if n == 0 || n > defs.len() {
        Seq::empty()
    } else if n == 1 {
        const_def_text(defs[0])
    } else {
        const_defs_text(defs, (n - 1) as nat) + ", "@ + const_def_text(defs[n - 1])
    }
}

/// The first `n` variable definitions, separated by commas.
pub closed spec fn var_defs_text(defs: Seq<VarDef>, n: nat) -> Seq<char>
    decreases n,
{
    if n == 0 || n > defs.len() {
        Seq::empty()
    } else if n == 1 {
        var_def_text(defs[0])
    } else {
        var_defs_text(defs, (n - 1) as nat) + ", "@ + var_def_text(defs[n - 1])
    }
}

/// A constant declaration: `const <type> <defs>`, without a semicolon.
pub closed spec fn const_decl_text(d: ConstDecl) -> Seq<char> {
    "const "@ + btype_text(d.ty) + " "@ + const_defs_text(d.def@, d.def@.len())
}

/// A variable declaration: `<type> <defs>;`.
pub closed spec fn var_decl_text(d: VarDecl) -> Seq<char> {
    btype_text(d.ty) + " "@ + var_defs_text(d.def@, d.def@.len()) + ";"@
}

pub closed spec fn decl_text(d: Decl) -> Seq<char> {
    match d {
        Decl::Const(c) => const_decl_text(c),
        Decl::Var(v) => var_decl_text(v),
    }
}

pub closed spec fn fparam_text(p: FuncFParam) -> Seq<char> {
    btype_text(p.ty) + " "@ + p.ident@
}

/// The first `n` parameters, separated by commas.
pub closed spec fn fparams_text(ps: Seq<FuncFParam>, n: nat) -> Seq<char>
    decreases n,
{
    if n == 0 || n > ps.len() {
        Seq::empty()
    } else if n == 1 {
        fparam_text(ps[0])
    } else {
        fparams_text(ps, (n - 1) as nat) + ", "@ + fparam_text(ps[n - 1])
    }
}

pub closed spec fn stmt_text(s: Stmt) -> Seq<char>
    decreases s, 0nat,
{
    match s {
        Stmt::Return(Some(e)) => "return "@ + expr_text(e) + ";"@,
        Stmt::Return(None) => "return;"@,
        Stmt::Assign(l, e) => l.ident@ + " = "@ + expr_text(e) + ";"@,
        Stmt::Expr(Some(e)) => expr_text(e) + ";"@,
        Stmt::Expr(None) => ";"@,
        Stmt::Block(b) => block_text(b),
        Stmt::If(i) => if_text(*i),
        Stmt::Else(e) => else_text(*e),
        Stmt::IfElse(i, e) => if_text(*i) + " "@ + else_text(*e),
        Stmt::While(w) => while_text(*w),
        Stmt::ControlFlow(c) => control_flow_text(c),
    }
}

pub closed spec fn if_text(i: IfBranch) -> Seq<char>
    decreases i, 0nat,
{
    "if ("@ + expr_text(i.cond) + ") "@ + stmt_text(i.stmt)
}

pub closed spec fn while_text(w: WhileBranch) -> Seq<char>
    decreases w, 0nat,
{
    "while ("@ + expr_text(w.cond) + ") "@ + stmt_text(w.stmt)
}

pub closed spec fn else_text(e: ElseBranch) -> Seq<char>
    decreases e, 0nat,
{
    "else "@ + stmt_text(e.stmt)
}

pub closed spec fn item_text(item: BlockItem) -> Seq<char>
    decreases item, 0nat,
{
    match item {
        BlockItem::Stmt(s) => stmt_text(s),
        BlockItem::Decl(d) => decl_text(d),
    }
}

/// The first `n` items of a block, each between spaces.
pub closed spec fn items_text(items: Seq<BlockItem>, n: nat) -> Seq<char>
    decreases items, n,
{
    if n == 0 || n > items.len() {
        Seq::empty()
    } else {
        items_text(items, (n - 1) as nat) + " "@ + item_text(items[n - 1]) + " "@
    }
}

pub closed spec fn block_text(b: Block) -> Seq<char>
    decreases b, 0nat,
{
    "{"@ + items_text(b.items@, b.items@.len()) + "}"@
}

/// A function definition: `<type> <name>() <body>`; the parameters are not
/// printed.
pub closed spec fn func_def_text(f: FuncDef) -> Seq<char> {
    btype_text(f.ret_type) + " "@ + f.ident@ + "() "@ + block_text(f.block)
}

impl BType {
    pub fn push_text(&self, out: &mut String)
        ensures
            final(out)@ == old(out)@ + btype_text(*self),
    {
        match self {
            BType::Int => out.append("int"),
            BType::Void => out.append("void"),
        }
    }
}

impl ControlFlow {
    pub fn push_text(&self, out: &mut String)
        ensures
            final(out)@ == old(out)@ + control_flow_text(*self),
    {
        match self {
            ControlFlow::Break => out.append("break;"),
            ControlFlow::Continue => out.append("continue;"),
        }
    }
}

impl ConstDef {
    pub fn push_text(&self, out: &mut String)
        ensures
            final(out)@ == old(out)@ + const_def_text(*self),
    {
        out.append(self.ident.as_str());
        out.append(" = ");
        self.init_val.expr.expr.push_text(out);
        assert(final(out)@ =~= old(out)@ + const_def_text(*self));
    }
}

impl VarDef {
    pub fn push_text(&self, out: &mut String)
        ensures
            final(out)@ == old(out)@ + var_def_text(*self),
    {
        out.append(self.ident.as_str());
        match &self.init_val {
            Some(init) => {
                out.append(" = ");
                init.expr.push_text(out);
            },
            None => {},
        }
        assert(final(out)@ =~= old(out)@ + var_def_text(*self));
    }
}

impl ConstDecl {
    pub fn push_text(&self, out: &mut String)
        ensures
            final(out)@ == old(out)@ + const_decl_text(*self),
    {
        let ghost start = out@;
        out.append("const ");
        self.ty.push_text(out);
        out.append(" ");
        let ghost head = out@;
        let mut i: usize = 0;
        while i < self.def.len()
            invariant
                i <= self.def@.len(),
                out@ == head + const_defs_text(self.def@, i as nat),
            decreases self.def.len() - i,
        {
            if i > 0 {
                out.append(", ");
            }
            self.def[i].push_text(out);
            proof {
                if i == 0 {
                    assert(out@ =~= head + const_defs_text(self.def@, 1));
                } else {
                    assert(out@ =~= head + const_defs_text(self.def@, (i + 1) as nat));
                }
            }
            i = i + 1;
        }
        assert(out@ =~= start + const_decl_text(*self));
    }
}

impl VarDecl {
    pub fn push_text(&self, out: &mut String)
        ensures
            final(out)@ == old(out)@ + var_decl_text(*self),
    {
        let ghost start = out@;
        self.ty.push_text(out);
        out.append(" ");
        let ghost head = out@;
        let mut i: usize = 0;
        while i < self.def.len()
            invariant
                i <= self.def@.len(),
                out@ == head + var_defs_text(self.def@, i as nat),
            decreases self.def.len() - i,
        {
            if i > 0 {
                out.append(", ");
            }
            self.def[i].push_text(out);
            proof {
                if i == 0 {
                    assert(out@ =~= head + var_defs_text(self.def@, 1));
                } else {
                    assert(out@ =~= head + var_defs_text(self.def@, (i + 1) as nat));
                }
            }
            i = i + 1;
        }
        out.append(";");
        assert(out@ =~= start + var_decl_text(*self));
    }
}

impl Decl {
    pub fn push_text(&self, out: &mut String)
        ensures
            final(out)@ == old(out)@ + decl_text(*self),
    {
        match self {
            Decl::Const(c) => c.push_text(out),
            Decl::Var(v) => v.push_text(out),
        }
    }
}

impl FuncFParam {
    pub fn push_text(&self, out: &mut String)
        ensures
            final(out)@ == old(out)@ + fparam_text(*self),
    {
        self.ty.push_text(out);
        out.append(" ");
        out.append(self.ident.as_str());
        assert(final(out)@ =~= old(out)@ + fparam_text(*self));
    }
}

impl FuncFParams {
    /// Appends the parameters, separated by commas.
    pub fn push_text(&self, out: &mut String)
        ensures
            final(out)@ == old(out)@ + fparams_text(self.params@, self.params@.len()),
    {
        let ghost head = out@;
        let mut i: usize = 0;
        while i < self.params.len()
            invariant
                i <= self.params@.len(),
                out@ == head + fparams_text(self.params@, i as nat),
            decreases self.params.len() - i,
        {
            if i > 0 {
                out.append(", ");
            }
            self.params[i].push_text(out);
            proof {
                if i == 0 {
                    assert(out@ =~= head + fparams_text(self.params@, 1));
                } else {
                    assert(out@ =~= head + fparams_text(self.params@, (i + 1) as nat));
                }
            }
            i = i + 1;
        }
    }
}

/// The first `n` items' text, kept folded inside loops.
#[verifier::opaque]
spec fn joined_items(items: Seq<BlockItem>, n: nat) -> Seq<char> {
    items_text(items, n)
}

proof fn lemma_joined_items_step(items: Seq<BlockItem>, i: nat)
    requires
        i < items.len(),
    ensures
        joined_items(items, i + 1) == joined_items(items, i) + " "@ + item_text(items[i as int]) + " "@,
        joined_items(items, 0) == Seq::<char>::empty(),
        joined_items(items, items.len()) == items_text(items, items.len()),
{
    reveal(joined_items);
}

impl Block {
    pub fn push_text(&self, out: &mut String)
        ensures
            final(out)@ == old(out)@ + block_text(*self),
        decreases *self, 0nat,
    {
        let ghost start = out@;
        let ghost items = self.items@;
        out.append("{");
        let ghost head = out@;
        proof {
            reveal(joined_items);
        }
        assert(out@ =~= head + joined_items(items, 0));
        let mut i: usize = 0;
        while i < self.items.len()
            invariant
                i <= items.len(),
                items == self.items@,
                out@ == head + joined_items(items, i as nat),
            decreases self.items.len() - i,
        {
            proof {
                lemma_joined_items_step(items, i as nat);
            }
            out.append(" ");
            self.items[i].push_text(out);
            out.append(" ");
            assert(out@ =~= head + joined_items(items, (i + 1) as nat));
            i = i + 1;
        }
        out.append("}");
        proof {
            reveal(joined_items);
        }
        assert(out@ =~= start + block_text(*self));
    }
}

impl BlockItem {
    pub fn push_text(&self, out: &mut String)
        ensures
            final(out)@ == old(out)@ + item_text(*self),
        decreases *self, 0nat,
    {
        match self {
            BlockItem::Stmt(s) => s.push_text(out),
            BlockItem::Decl(d) => d.push_text(out),
        }
    }
}

impl IfBranch {
    pub fn push_text(&self, out: &mut String)
        ensures
            final(out)@ == old(out)@ + if_text(*self),
        decreases *self, 0nat,
    {
        out.append("if (");
        self.cond.push_text(out);
        out.append(") ");
        self.stmt.push_text(out);
        assert(final(out)@ =~= old(out)@ + if_text(*self));
    }
}

impl ElseBranch {
    pub fn push_text(&self, out: &mut String)
        ensures
            final(out)@ == old(out)@ + else_text(*self),
        decreases *self, 0nat,
    {
        out.append("else ");
        self.stmt.push_text(out);
        assert(final(out)@ =~= old(out)@ + else_text(*self));
    }
}

impl WhileBranch {
    pub fn push_text(&self, out: &mut String)
        ensures
            final(out)@ == old(out)@ + while_text(*self),
        decreases *self, 0nat,
    {
        out.append("while (");
        self.cond.push_text(out);
        out.append(") ");
        self.stmt.push_text(out);
        assert(final(out)@ =~= old(out)@ + while_text(*self));
    }
}

impl Stmt {
    pub fn push_text(&self, out: &mut String)
        ensures
            final(out)@ == old(out)@ + stmt_text(*self),
        decreases *self, 0nat,
    {
        let ghost start = out@;
        match self {
            Stmt::Return(Some(e)) => {
                out.append("return ");
                e.push_text(out);
                out.append(";");
                assert(out@ =~= start + stmt_text(*self));
            },
            Stmt::Return(None) => out.append("return;"),
            Stmt::Assign(l, e) => {
                out.append(l.ident.as_str());
                out.append(" = ");
                e.push_text(out);
                out.append(";");
                assert(out@ =~= start + stmt_text(*self));
            },
            Stmt::Expr(Some(e)) => {
                e.push_text(out);
                out.append(";");
                assert(out@ =~= start + stmt_text(*self));
            },
            Stmt::Expr(None) => out.append(";"),
            Stmt::Block(b) => b.push_text(out),
            Stmt::If(i) => i.push_text(out),
            Stmt::Else(e) => e.push_text(out),
            Stmt::IfElse(i, e) => {
                i.push_text(out);
                out.append(" ");
                e.push_text(out);
                assert(out@ =~= start + stmt_text(*self));
            },
            Stmt::While(w) => w.push_text(out),
            Stmt::ControlFlow(c) => c.push_text(out),
        }
    }
}

impl FuncDef {
    pub fn push_text(&self, out: &mut String)
        ensures
            final(out)@ == old(out)@ + func_def_text(*self),
    {
        let ghost start = out@;
        self.ret_type.push_text(out);
        out.append(" ");
        out.append(self.ident.as_str());
        out.append("() ");
        self.block.push_text(out);
        assert(out@ =~= start + func_def_text(*self));
    }
}

impl CompUnit {
    /// Appends the text of the unit's own (last) definition.
    pub fn push_text(&self, out: &mut String)
        ensures
            final(out)@ == old(out)@ + func_def_text(self.func_def),
    {
        self.func_def.push_text(out);
    }
}

impl BType {
    /// The source text.
    pub fn to_string(&self) -> (r: String)
        ensures
            r@ == btype_text(*self),
    {
        let mut s = String::new();
        self.push_text(&mut s);
        assert(s@ =~= btype_text(*self));
        s
    }
}

impl ControlFlow {
    /// The source text.
    pub fn to_string(&self) -> (r: String)
        ensures
            r@ == control_flow_text(*self),
    {
        let mut s = String::new();
        self.push_text(&mut s);
        assert(s@ =~= control_flow_text(*self));
        s
    }
}

impl ConstDef {
    /// The source text.
    pub fn to_string(&self) -> (r: String)
        ensures
            r@ == const_def_text(*self),
    {
        let mut s = String::new();
        self.push_text(&mut s);
        assert(s@ =~= const_def_text(*self));
        s
    }
}

impl VarDef {
    /// The source text.
    pub fn to_string(&self) -> (r: String)
        ensures
            r@ == var_def_text(*self),
    {
        let mut s = String::new();
        self.push_text(&mut s);
        assert(s@ =~= var_def_text(*self));
        s
    }
}

impl ConstDecl {
    /// The source text.
    pub fn to_string(&self) -> (r: String)
        ensures
            r@ == const_decl_text(*self),
    {
        let mut s = String::new();
        self.push_text(&mut s);
        assert(s@ =~= const_decl_text(*self));
        s
    }
}

impl VarDecl {
    /// The source text.
    pub fn to_string(&self) -> (r: String)
        ensures
            r@ == var_decl_text(*self),
    {
        let mut s = String::new();
        self.push_text(&mut s);
        assert(s@ =~= var_decl_text(*self));
        s
    }
}

impl Decl {
    /// The source text.
    pub fn to_string(&self) -> (r: String)
        ensures
            r@ == decl_text(*self),
    {
        let mut s = String::new();
        self.push_text(&mut s);
        assert(s@ =~= decl_text(*self));
        s
    }
}

impl FuncFParam {
    /// The source text.
    pub fn to_string(&self) -> (r: String)
        ensures
            r@ == fparam_text(*self),
    {
        let mut s = String::new();
        self.push_text(&mut s);
        assert(s@ =~= fparam_text(*self));
        s
    }
}

impl FuncFParams {
    /// The source text.
    pub fn to_string(&self) -> (r: String)
        ensures
            r@ == fparams_text(self.params@, self.params@.len()),
    {
        let mut s = String::new();
        self.push_text(&mut s);
        assert(s@ =~= fparams_text(self.params@, self.params@.len()));
        s
    }
}

impl Block {
    /// The source text.
    pub fn to_string(&self) -> (r: String)
        ensures
            r@ == block_text(*self),
    {
        let mut s = String::new();
        self.push_text(&mut s);
        assert(s@ =~= block_text(*self));
        s
    }
}

impl BlockItem {
    /// The source text.
    pub fn to_string(&self) -> (r: String)
        ensures
            r@ == item_text(*self),
    {
        let mut s = String::new();
        self.push_text(&mut s);
        assert(s@ =~= item_text(*self));
        s
    }
}

impl IfBranch {
    /// The source text.
    pub fn to_string(&self) -> (r: String)
        ensures
            r@ == if_text(*self),
    {
        let mut s = String::new();
        self.push_text(&mut s);
        assert(s@ =~= if_text(*self));
        s
    }
}

impl ElseBranch {
    /// The source text.
    pub fn to_string(&self) -> (r: String)
        ensures
            r@ == else_text(*self),
    {
        let mut s = String::new();
        self.push_text(&mut s);
        assert(s@ =~= else_text(*self));
        s
    }
}

impl WhileBranch {
    /// The source text.
    pub fn to_string(&self) -> (r: String)
        ensures
            r@ == while_text(*self),
    {
        let mut s = String::new();
        self.push_text(&mut s);
        assert(s@ =~= while_text(*self));
        s
    }
}

impl Stmt {
    /// The source text.
    pub fn to_string(&self) -> (r: String)
        ensures
            r@ == stmt_text(*self),
    {
        let mut s = String::new();
        self.push_text(&mut s);
        assert(s@ =~= stmt_text(*self));
        s
    }
}

impl FuncDef {
    /// The source text.
    pub fn to_string(&self) -> (r: String)
        ensures
            r@ == func_def_text(*self),
    {
        let mut s = String::new();
        self.push_text(&mut s);
        assert(s@ =~= func_def_text(*self));
        s
    }
}

impl CompUnit {
    /// The source text.
    pub fn to_string(&self) -> (r: String)
        ensures
            r@ == func_def_text(self.func_def),
    {
        let mut s = String::new();
        self.push_text(&mut s);
        assert(s@ =~= func_def_text(self.func_def));
        s
    }
}

impl crate::parse::Ast {
    /// The source text of the tree: its last function definition.
    pub fn to_string(&self) -> (r: String)
        ensures
            r@ == func_def_text(self.root.func_def),
    {
        self.root.to_string()
    }
}

} // verus!
