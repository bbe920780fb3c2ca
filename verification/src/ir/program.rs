//! The koopa IR program that the front end builds: what the library knows
//! of it, and the builder calls it makes on it.
use vstd::prelude::*;

use koopa::ir::builder::{BasicBlockBuilder, LocalInstBuilder, ValueBuilder};
use koopa::ir::{BasicBlock, BinaryOp as IrBinaryOp, Function, Program, Type, Value};

use crate::riscv::expr::BinaryOp;

verus! {

#[verifier::external_type_specification]
#[verifier::external_body]
pub struct ExIrProgram(Program);

#[verifier::external_type_specification]
#[verifier::external_body]
pub struct ExIrFunction(Function);

/// `koopa::ir::BinaryOp`: the operations of koopa's binary instructions.
#[verifier::external_type_specification]
pub struct ExIrBinaryOp(IrBinaryOp);

/// The koopa operation of each operation of the library.
pub fn koopa_op(op: BinaryOp) -> (r: IrBinaryOp)
    ensures
        r == match op {
            BinaryOp::NotEq => IrBinaryOp::NotEq,
            BinaryOp::Eq => IrBinaryOp::Eq,
            BinaryOp::Gt => IrBinaryOp::Gt,
            BinaryOp::Lt => IrBinaryOp::Lt,
            BinaryOp::Ge => IrBinaryOp::Ge,
            BinaryOp::Le => IrBinaryOp::Le,
            BinaryOp::Add => IrBinaryOp::Add,
            BinaryOp::Sub => IrBinaryOp::Sub,
            BinaryOp::Mul => IrBinaryOp::Mul,
            BinaryOp::Div => IrBinaryOp::Div,
            BinaryOp::Mod => IrBinaryOp::Mod,
            BinaryOp::And => IrBinaryOp::And,
            BinaryOp::Or => IrBinaryOp::Or,
            BinaryOp::Xor => IrBinaryOp::Xor,
            BinaryOp::Shl => IrBinaryOp::Shl,
            BinaryOp::Shr => IrBinaryOp::Shr,
            BinaryOp::Sar => IrBinaryOp::Sar,
        },
{
    match op {
        BinaryOp::NotEq => IrBinaryOp::NotEq,
        BinaryOp::Eq => IrBinaryOp::Eq,
        BinaryOp::Gt => IrBinaryOp::Gt,
        BinaryOp::Lt => IrBinaryOp::Lt,
        BinaryOp::Ge => IrBinaryOp::Ge,
        BinaryOp::Le => IrBinaryOp::Le,
        BinaryOp::Add => IrBinaryOp::Add,
        BinaryOp::Sub => IrBinaryOp::Sub,
        BinaryOp::Mul => IrBinaryOp::Mul,
        BinaryOp::Div => IrBinaryOp::Div,
        BinaryOp::Mod => IrBinaryOp::Mod,
        BinaryOp::And => IrBinaryOp::And,
        BinaryOp::Or => IrBinaryOp::Or,
        BinaryOp::Xor => IrBinaryOp::Xor,
        BinaryOp::Shl => IrBinaryOp::Shl,
        BinaryOp::Shr => IrBinaryOp::Shr,
        BinaryOp::Sar => IrBinaryOp::Sar,
    }
}

/// What a local value of a function is, for the kinds the front end builds.
pub enum IrKind {
    /// An integer constant.
    Integer(i32),
    /// `lhs op rhs` on integers.
    Binary(BinaryOp, Value, Value),
    /// A slot for one `i32` (an allocation of type `*i32`).
    Alloc,
    /// A load of an `i32` from a slot.
    Load(Value),
    /// A store of a value into a slot.
    Store(Value, Value),
    /// A jump.
    Jump(BasicBlock),
    /// A branch on an integer.
    Branch(Value, BasicBlock, BasicBlock),
    /// A return, with its value if any.
    Return(Option<Value>),
    /// The parameter of its function at this position (an `i32`).
    Param(int),
    /// A value of another kind or type (allocations of other types and loads
    /// from them among them).
    Other,
}

/// A local value: the function it belongs to, and what it is.
pub struct IrInst {
    pub func: Function,
    pub kind: IrKind,
}

/// The local values of the functions of a program, each with its function
/// and kind.
pub uninterp spec fn ir_values(p: Program) -> Map<Value, IrInst>;

/// The order of the blocks of each function and of the instructions of
/// each block, as the functions' layouts hold them.
pub uninterp spec fn ir_layout(p: Program) -> Map<Function, Seq<(BasicBlock, Seq<Value>)>>;

/// The parameters of each function, in order.
pub uninterp spec fn ir_params(p: Program) -> Map<Function, Seq<Value>>;

/// The functions of a program.
pub uninterp spec fn ir_funcs(p: Program) -> Set<Function>;

/// The basic blocks without parameters of the functions of a program, each
/// with its function.
pub uninterp spec fn ir_blocks(p: Program) -> Map<BasicBlock, Function>;

/// A value of `f` that has type `i32`.
pub open spec fn int_value(vals: Map<Value, IrInst>, f: Function, v: Value) -> bool {
    &&& vals.dom().contains(v)
    &&& vals[v].func == f
    &&& (vals[v].kind is Integer || vals[v].kind is Binary || vals[v].kind is Load || vals[v].kind is Param)
}

/// A slot of `f` (a value of type `*i32`).
pub open spec fn slot_value(vals: Map<Value, IrInst>, f: Function, v: Value) -> bool {
    &&& vals.dom().contains(v)
    &&& vals[v].func == f
    &&& vals[v].kind is Alloc
}

/// `after` is `before` with the new value `r` of function `f`, of kind `kind`.
pub open spec fn added(before: Program, after: Program, r: Value, f: Function, kind: IrKind) -> bool {
    &&& !ir_values(before).dom().contains(r)
    &&& ir_values(after) == ir_values(before).insert(r, IrInst { func: f, kind })
    &&& ir_funcs(after) == ir_funcs(before)
    &&& ir_blocks(after) == ir_blocks(before)
    &&& ir_layout(after) == ir_layout(before)
}

/// `program.func_mut(f).dfg_mut().new_value().integer(value)`: a new
/// integer constant of `f`. The new value's handle is fresh (koopa takes it
/// from a counter that only grows).
#[verifier::external_body]
pub(crate) fn new_integer(program: &mut Program, f: Function, value: i32) -> (r: Value)
    requires
        ir_funcs(*old(program)).contains(f),
    ensures
        added(*old(program), *final(program), r, f, IrKind::Integer(value)),
{
    program.func_mut(f).dfg_mut().new_value().integer(value)
}

/// `program.func_mut(f).dfg_mut().new_value().binary(koopa_op(op), lhs, rhs)`:
/// a new operation of `f` on two of its integer values (koopa panics unless
/// both are `i32`).
#[verifier::external_body]
pub(crate) fn new_binary(program: &mut Program, f: Function, op: BinaryOp, lhs: Value, rhs: Value) -> (r: Value)
    requires
        ir_funcs(*old(program)).contains(f),
        int_value(ir_values(*old(program)), f, lhs),
        int_value(ir_values(*old(program)), f, rhs),
    ensures
        added(*old(program), *final(program), r, f, IrKind::Binary(op, lhs, rhs)),
{
    let op = koopa_op(op);
    program.func_mut(f).dfg_mut().new_value().binary(op, lhs, rhs)
}

/// `program.func_mut(f).dfg_mut().new_value().alloc(Type::get_i32())`: a
/// new slot of `f` for one `i32`.
#[verifier::external_body]
pub(crate) fn new_alloc(program: &mut Program, f: Function) -> (r: Value)
    requires
        ir_funcs(*old(program)).contains(f),
    ensures
        added(*old(program), *final(program), r, f, IrKind::Alloc),
{
    program.func_mut(f).dfg_mut().new_value().alloc(Type::get_i32())
}

/// `program.func_mut(f).dfg_mut().new_value().load(src)`: a new load of `f`
/// from one of its slots.
#[verifier::external_body]
pub(crate) fn new_load(program: &mut Program, f: Function, src: Value) -> (r: Value)
    requires
        ir_funcs(*old(program)).contains(f),
        slot_value(ir_values(*old(program)), f, src),
    ensures
        added(*old(program), *final(program), r, f, IrKind::Load(src)),
{
    program.func_mut(f).dfg_mut().new_value().load(src)
}

/// `program.func_mut(f).dfg_mut().new_value().store(value, dest)`: a new
/// store of `f` of one of its integers into one of its slots.
#[verifier::external_body]
pub(crate) fn new_store(program: &mut Program, f: Function, value: Value, dest: Value) -> (r: Value)
    requires
        ir_funcs(*old(program)).contains(f),
        int_value(ir_values(*old(program)), f, value),
        slot_value(ir_values(*old(program)), f, dest),
    ensures
        added(*old(program), *final(program), r, f, IrKind::Store(value, dest)),
{
    program.func_mut(f).dfg_mut().new_value().store(value, dest)
}

/// `program.func_mut(f).dfg_mut().new_value().ret(value)`: a new return of
/// `f`, with one of its integers if given.
#[verifier::external_body]
pub(crate) fn new_return(program: &mut Program, f: Function, value: Option<Value>) -> (r: Value)
    requires
        ir_funcs(*old(program)).contains(f),
        value matches Some(v) ==> int_value(ir_values(*old(program)), f, v),
    ensures
        added(*old(program), *final(program), r, f, IrKind::Return(value)),
{
    program.func_mut(f).dfg_mut().new_value().ret(value)
}

/// `program.func_mut(f).dfg_mut().new_value().jump(target)`: a new jump of
/// `f` to one of its blocks.
#[verifier::external_body]
pub(crate) fn new_jump(program: &mut Program, f: Function, target: BasicBlock) -> (r: Value)
    requires
        ir_funcs(*old(program)).contains(f),
        ir_blocks(*old(program)).dom().contains(target) && ir_blocks(*old(program))[target] == f,
    ensures
        added(*old(program), *final(program), r, f, IrKind::Jump(target)),
{
    program.func_mut(f).dfg_mut().new_value().jump(target)
}

/// `program.func_mut(f).dfg_mut().new_value().branch(cond, t, e)`: a new
/// branch of `f` on one of its integers to two of its blocks.
#[verifier::external_body]
pub(crate) fn new_branch(program: &mut Program, f: Function, cond: Value, t: BasicBlock, e: BasicBlock) -> (r: Value)
    requires
        ir_funcs(*old(program)).contains(f),
        int_value(ir_values(*old(program)), f, cond),
        ir_blocks(*old(program)).dom().contains(t) && ir_blocks(*old(program))[t] == f,
        ir_blocks(*old(program)).dom().contains(e) && ir_blocks(*old(program))[e] == f,
    ensures
        added(*old(program), *final(program), r, f, IrKind::Branch(cond, t, e)),
{
    program.func_mut(f).dfg_mut().new_value().branch(cond, t, e)
}

/// `program.func_mut(f).dfg_mut().new_bb().basic_block(None)`: a new block
/// of `f`, without a name. Its handle is fresh (koopa takes it from a
/// counter that only grows).
#[verifier::external_body]
pub(crate) fn new_block(program: &mut Program, f: Function) -> (r: BasicBlock)
    requires
        ir_funcs(*old(program)).contains(f),
    ensures
        !ir_blocks(*old(program)).dom().contains(r),
        ir_blocks(*final(program)) == ir_blocks(*old(program)).insert(r, f),
        ir_values(*final(program)) == ir_values(*old(program)),
        ir_layout(*final(program)) == ir_layout(*old(program)),
        ir_funcs(*final(program)) == ir_funcs(*old(program)),
{
    program.func_mut(f).dfg_mut().new_bb().basic_block(None)
}

/// `Type::get_i32()`: the koopa type `i32`, recorded with the variables
/// that the front end defines. Nothing is stated of the value: the library
/// only hands it on.
#[verifier::external_body]
pub(crate) fn i32_type() -> (r: Type) {
    Type::get_i32()
}

/// A return, jump or branch: an instruction that ends its block.
pub open spec fn ends_block(kind: IrKind) -> bool {
    kind is Return || kind is Jump || kind is Branch
}

/// Whether `v` is an instruction of `f` that ends its block.
pub open spec fn ends_in(vals: Map<Value, IrInst>, f: Function, v: Value) -> bool {
    vals.dom().contains(v) && vals[v].func == f && ends_block(vals[v].kind)
}

/// `program.func(f).dfg().values().get(&v)`, told apart by its kind: `None`
/// when `v` is no local value of `f`, else whether it is a return, jump or
/// branch.
#[verifier::external_body]
pub(crate) fn value_ends(program: &Program, f: Function, v: Value) -> (r: Option<bool>)
    requires
        ir_funcs(*program).contains(f),
    ensures
        (ir_values(*program).dom().contains(v) && ir_values(*program)[v].func == f) ==> r == Some(
            ends_block(ir_values(*program)[v].kind),
        ),
        !(ir_values(*program).dom().contains(v) && ir_values(*program)[v].func == f) ==> r is None,
{
    match program.func(f).dfg().values().get(&v) {
        None => None,
        Some(data) => match data.kind() {
            koopa::ir::ValueKind::Return(_) => Some(true),
            koopa::ir::ValueKind::Jump(_) => Some(true),
            koopa::ir::ValueKind::Branch(_) => Some(true),
            _ => Some(false),
        },
    }
}

/// What a function was made with: its name, the names of its parameters
/// (each an `i32`), and whether it returns an `i32` (else nothing).
pub struct FuncSig {
    pub name: Seq<char>,
    pub params: Seq<Seq<char>>,
    pub returns_int: bool,
}

/// What each function of a program was made with.
pub uninterp spec fn ir_func_sigs(p: Program) -> Map<Function, FuncSig>;

/// `program.new_func_def_with_param_names(name, params, ret)`, every
/// parameter an `i32` and `ret` an `i32` or unit: a new function (koopa
/// panics unless the name and each parameter name start with `@` or `%` and
/// have more than that character).
/// Its handle is fresh; koopa gives it one local value for each parameter,
/// and no block.
#[verifier::external_body]
pub(crate) fn new_func(program: &mut Program, name: String, params: Vec<String>, returns_int: bool) -> (r: Function)
    requires
        name@.len() > 1 && (name@[0] == '@' || name@[0] == '%'),
        forall|i: int| 0 <= i < params.len() ==> (#[trigger] params@[i])@.len() > 1 && (params@[i]@[0] == '@' || params@[i]@[0] == '%'),
    ensures
        !ir_funcs(*old(program)).contains(r),
        ir_funcs(*final(program)) == ir_funcs(*old(program)).insert(r),
        ir_func_sigs(*final(program)) == ir_func_sigs(*old(program)).insert(
            r,
            FuncSig { name: name@, params: params@.map_values(|p: String| p@), returns_int },
        ),
        ir_values(*old(program)).submap_of(ir_values(*final(program))),
        forall|v: Value| #[trigger] ir_values(*final(program)).dom().contains(v) && !ir_values(*old(program)).dom().contains(v)
            ==> ir_values(*final(program))[v].func == r && ir_values(*final(program))[v].kind is Param,
        ir_params(*final(program)).dom() == ir_params(*old(program)).dom().insert(r),
        ir_params(*final(program))[r].len() == params.len(),
        forall|i: int| 0 <= i < params.len() ==> !ir_values(*old(program)).dom().contains(#[trigger] ir_params(*final(program))[r][i])
            && ir_values(*final(program))[ir_params(*final(program))[r][i]] == (IrInst { func: r, kind: IrKind::Param(i) }),
        ir_blocks(*final(program)) == ir_blocks(*old(program)),
        ir_layout(*final(program)) == ir_layout(*old(program)).insert(r, Seq::empty()),
{
    let params = params.into_iter().map(|p| (Some(p), Type::get_i32())).collect();
    let ret = match returns_int {
        true => Type::get_i32(),
        false => Type::get_unit(),
    };
    program.new_func_def_with_param_names(name, params, ret)
}

/// `bb` is one of the blocks of the layout `l`.
pub open spec fn has_block(l: Seq<(BasicBlock, Seq<Value>)>, bb: BasicBlock) -> bool {
    exists|i: int| 0 <= i < l.len() && #[trigger] l[i].0 == bb
}

/// `l` with the block `bb` appended, unless it is there already.
pub open spec fn push_block(l: Seq<(BasicBlock, Seq<Value>)>, bb: BasicBlock) -> Seq<(BasicBlock, Seq<Value>)> {
    if has_block(l, bb) {
        l
    } else {
        l.push((bb, Seq::empty()))
    }
}

/// `l` with `v` appended to the instructions of the block `bb`, unless it
/// is among them already.
pub open spec fn push_inst(l: Seq<(BasicBlock, Seq<Value>)>, bb: BasicBlock, v: Value) -> Seq<(BasicBlock, Seq<Value>)> {
    l.map_values(|e: (BasicBlock, Seq<Value>)| if e.0 == bb && !e.1.contains(v) { (e.0, e.1.push(v)) } else { e })
}

/// `program.func_mut(f).layout_mut().bbs_mut().push_key_back(bb)`: appends
/// the block `bb` to the layout of `f`; koopa refuses a block that is there
/// already, and the result tells whether it was appended.
#[verifier::external_body]
pub(crate) fn layout_push_block(program: &mut Program, f: Function, bb: BasicBlock) -> (r: bool)
    requires
        ir_funcs(*old(program)).contains(f),
        ir_layout(*old(program)).dom().contains(f),
    ensures
        r == !has_block(ir_layout(*old(program))[f], bb),
        ir_layout(*final(program)) == ir_layout(*old(program)).insert(f, push_block(ir_layout(*old(program))[f], bb)),
        ir_values(*final(program)) == ir_values(*old(program)),
        ir_blocks(*final(program)) == ir_blocks(*old(program)),
        ir_funcs(*final(program)) == ir_funcs(*old(program)),
{
    program.func_mut(f).layout_mut().bbs_mut().push_key_back(bb).is_ok()
}

/// `program.func_mut(f).layout_mut().bb_mut(bb).insts_mut().push_key_back(v)`:
/// appends the instruction `v` to the block `bb` of the layout of `f` (koopa
/// panics unless the block is there); koopa refuses, and this call ignores,
/// an instruction that the block holds already.
#[verifier::external_body]
pub(crate) fn layout_push_inst(program: &mut Program, f: Function, bb: BasicBlock, v: Value)
    requires
        ir_funcs(*old(program)).contains(f),
        ir_layout(*old(program)).dom().contains(f),
        has_block(ir_layout(*old(program))[f], bb),
    ensures
        ir_layout(*final(program)) == ir_layout(*old(program)).insert(f, push_inst(ir_layout(*old(program))[f], bb, v)),
        ir_values(*final(program)) == ir_values(*old(program)),
        ir_blocks(*final(program)) == ir_blocks(*old(program)),
        ir_funcs(*final(program)) == ir_funcs(*old(program)),
{
    let _ = program.func_mut(f).layout_mut().bb_mut(bb).insts_mut().push_key_back(v);
}

/// `program.func(f).params()`: the parameters of `f`, in order.
#[verifier::external_body]
pub(crate) fn func_params(program: &Program, f: Function) -> (r: Vec<Value>)
    requires
        ir_funcs(*program).contains(f),
        ir_params(*program).dom().contains(f),
    ensures
        r@ == ir_params(*program)[f],
{
    program.func(f).params().to_vec()
}

/// `program.func(f).dfg().value(program.func(f).params()[i]).name()`: the
/// name of the parameter of `f` at position `i`, which [`new_func`] gave it.
#[verifier::external_body]
pub(crate) fn param_name(program: &Program, f: Function, i: usize) -> (r: Option<String>)
    requires
        ir_funcs(*program).contains(f),
        ir_params(*program).dom().contains(f),
        ir_func_sigs(*program).dom().contains(f),
        i < ir_params(*program)[f].len(),
        ir_params(*program)[f].len() == ir_func_sigs(*program)[f].params.len(),
    ensures
        r is Some,
        r->Some_0@ == ir_func_sigs(*program)[f].params[i as int],
{
    let data = program.func(f);
    data.dfg().value(data.params()[i]).name().clone()
}

} // verus!
