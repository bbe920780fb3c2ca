//! Lowering that reads and writes the frame: loading and storing the slot of
//! a value, fetching an operand into a register, binary instructions, and
//! the set-up of a call's arguments.
use vstd::prelude::*;
use vstd::string::StringExecFns;

use koopa::ir::Value;

use crate::riscv::context::{has_label, label_of, FunctionContext};
use koopa::ir::BasicBlock;
use crate::riscv::var::{load_from_global, sigil_name, store_to_global};
use crate::riscv::expr::{
    binary_op_asm, binary_text, branch_asm, func_arg_asm, integer_asm, lemma_lowest_free, load_ra_text, lowered, lowest_free, return_asm,
    obtain_caller_directly_usable_register, own_destination, result_register, takes_result, BinaryOp,
};
use crate::riscv::regmap::{held_by, usage_of, RegisterMapper, RegisterValue};
use crate::riscv::inst::{add_lw_instruction, add_sw_instruction, call_instruction, imm_num, lw_instruction, mv_instruction, sw_instruction, dest_recorded, InstContext};
use crate::riscv::meta::{directly_usable, fits_imm12, reg_index, reg_of, RV32Imm, RV32Imm12, RV32Usize, Register, RiscvAsm, RiscvInstruction};
use crate::riscv::stack::{
    align_up, claimed_into, find_in_calls, fits_in_calls, fresh, grow_text, law_align_up, law_align_up_monotone, shrink_text,
    lemma_sum_allocated_nonneg, sum_allocated, MemoryMapper,
};

verus! {

/// `lw dest, off(base)`; when the offset does not fit in 12 bits, the
/// address is first built in `tmp`.
pub open spec fn lw_text(dest: Register, base: Register, off: i32, tmp: Register) -> Seq<RiscvAsm> {
    if fits_imm12(off as int) {
        seq![RiscvAsm::Instruction(RiscvInstruction::Lw { dest, base, offset: RV32Imm12::Num(off as i16) })]
    } else {
        seq![
            RiscvAsm::Instruction(RiscvInstruction::Li { dest: tmp, imm: RV32Imm::Num(off) }),
            RiscvAsm::Instruction(RiscvInstruction::Add { dest: tmp, src1: base, src2: tmp }),
            RiscvAsm::Instruction(RiscvInstruction::Lw { dest, base: tmp, offset: RV32Imm12::Num(0) }),
        ]
    }
}

/// `sw src, off(base)`; when the offset does not fit in 12 bits, the address
/// is first built in `tmp`.
pub open spec fn sw_text(src: Register, base: Register, off: i32, tmp: Register) -> Seq<RiscvAsm> {
    if fits_imm12(off as int) {
        seq![RiscvAsm::Instruction(RiscvInstruction::Sw { src, base, offset: RV32Imm12::Num(off as i16) })]
    } else {
        seq![
            RiscvAsm::Instruction(RiscvInstruction::Li { dest: tmp, imm: RV32Imm::Num(off) }),
            RiscvAsm::Instruction(RiscvInstruction::Add { dest: tmp, src1: base, src2: tmp }),
            RiscvAsm::Instruction(RiscvInstruction::Sw { src, base: tmp, offset: RV32Imm12::Num(0) }),
        ]
    }
}

/// The offset from `sp` of the slot of `v`: in the innermost call frame
/// that claims it, else in the function's own frame, above the call frames.
pub open spec fn slot_of(mem: MemoryMapper, v: Value) -> Option<int> {
    match find_in_calls(mem.calls(), v, 0) {
        Some(o) => Some(o),
        None => if mem.frame().offsets().dom().contains(v) {
            Some(sum_allocated(mem.calls()) + mem.frame().offsets()[v])
        } else {
            None
        },
    }
}

/// The slot of `v`, if it has one, holds `size` bytes under the meta area of
/// its frame, and its offset fits in 32 bits.
pub open spec fn slot_readable(mem: MemoryMapper, v: Value, size: RV32Usize) -> bool {
    &&& mem.wf()
    &&& sum_allocated(mem.calls()) <= RV32Usize::MAX
    &&& fits_in_calls(mem.calls(), v, size as int)
    &&& find_in_calls(mem.calls(), v, 0) is None && mem.frame().offsets().dom().contains(v) ==> {
        &&& mem.frame().offsets()[v] + size + mem.frame().meta() <= mem.frame().allocated()
        &&& sum_allocated(mem.calls()) + mem.frame().offsets()[v] <= RV32Usize::MAX
    }
}

/// The code loading the slot at `off` into `rd`: the word itself, or, when
/// the slot holds a pointer to the value, the word it points to.
pub open spec fn load_text(rd: Register, off: i32, direct: bool) -> Seq<RiscvAsm> {
    if direct {
        lw_text(rd, Register::Sp, off, rd)
    } else {
        lw_text(rd, Register::Sp, off, rd) + seq![
            RiscvAsm::Instruction(RiscvInstruction::Lw { dest: rd, base: rd, offset: RV32Imm12::Num(0) }),
        ]
    }
}

/// The code storing `src` into the slot at `off`, or, when the slot holds a
/// pointer, where it points; `tmp` holds the address when one is built.
pub open spec fn store_text(src: Register, off: i32, tmp: Register, direct: bool) -> Seq<RiscvAsm> {
    if direct {
        sw_text(src, Register::Sp, off, tmp)
    } else {
        lw_text(tmp, Register::Sp, off, tmp) + seq![
            RiscvAsm::Instruction(RiscvInstruction::Sw { src, base: tmp, offset: RV32Imm12::Num(0) }),
        ]
    }
}

/// Everything but the registers is as it was.
pub open spec fn kept(before: FunctionContext, after: FunctionContext) -> bool {
    &&& after.memory() == before.memory()
    &&& after.labels() == before.labels()
    &&& after.name() == before.name()
    &&& after.params() == before.params()
    &&& after.id() == before.id()
}

/// Loads the slot of `src` into the lowest free register, recorded as
/// holding `id` when one is given. The pointer levels say what the slot
/// holds: a value of the loaded type (equal levels), or a pointer to one
/// (one level more). Fails when `src` has no slot.
pub fn load_from_local(
    src: Value,
    context: &mut FunctionContext,
    id: Option<Value>,
    size: RV32Usize,
    src_level: u32,
    dst_level: u32,
) -> (r: Result<(Vec<RiscvAsm>, Register), String>)
    requires
        old(context).registers().wf(),
        exists|reg: Register| takes_result(*old(context), reg),
        slot_readable(old(context).memory(), src, size),
        src_level == dst_level || dst_level + 1 == src_level,
    ensures
        kept(*old(context), *final(context)),
        match slot_of(old(context).memory(), src) {
            None => r matches Err(e) && e@ == "Value is not mapped to stack memory"@ && *final(context) == *old(context),
            Some(off) => {
                let rd = lowest_free(*old(context));
                &&& r matches Ok((asms, reg)) && reg == rd && asms@ == load_text(rd, off as i32, src_level == dst_level)
                &&& id matches Some(v) ==> dest_recorded(old(context).registers(), final(context).registers(), rd, v)
                &&& id is None ==> final(context).registers() == old(context).registers()
            },
        },
{
    let rd = obtain_caller_directly_usable_register(context);
    proof {
        lemma_lowest_free(*context, rd);
        lemma_sum_allocated_nonneg(context.memory().calls());
    }
    let offset = match context.memory_mapper.get_offset(&src, size) {
        Some(o) => o,
        None => {
            return Err(String::from_str("Value is not mapped to stack memory"));
        },
    };
    proof {
        assert(slot_of(context.memory(), src) == Some(offset as int));
        assert(imm_num(RV32Imm::Num(offset as i32)) == (offset as i32) as int);
    }
    if src_level == dst_level {
        let asms = match id {
            Some(v) => add_lw_instruction(rd, Register::Sp, RV32Imm::new(offset as i32), Some(InstContext::new(&mut context.register_mapper, v)), Some(rd)),
            None => add_lw_instruction(rd, Register::Sp, RV32Imm::new(offset as i32), None, Some(rd)),
        };
        return Ok((asms, rd));
    }
    let mut asms = add_lw_instruction(rd, Register::Sp, RV32Imm::new(offset as i32), None, Some(rd));
    let last = match id {
        Some(v) => lw_instruction(rd, rd, 0, Some(InstContext::new(&mut context.register_mapper, v))),
        None => lw_instruction(rd, rd, 0, None),
    };
    asms.push(last);
    Ok((asms, rd))
}

/// Stores `src` into the slot of `target`, claiming the slot (of `size`
/// bytes) first when `claim` is set; the lowest free register serves to
/// build addresses. The pointer levels say what the slot holds: a value of
/// the stored type (equal levels), or a pointer to one (one level more).
/// Fails when `target` has no slot. A store records no register.
pub fn store_to_local(
    src: Register,
    target: Value,
    context: &mut FunctionContext,
    id: Option<Value>,
    claim: bool,
    size: RV32Usize,
    src_level: u32,
    dst_level: u32,
) -> (r: Result<Vec<RiscvAsm>, String>)
    requires
        old(context).registers().wf(),
        exists|reg: Register| takes_result(*old(context), reg),
        src_level == dst_level || src_level + 1 == dst_level,
        claim ==> {
            &&& old(context).memory().wf()
            &&& !old(context).memory().frame().offsets().dom().contains(target)
            &&& old(context).memory().frame().claimed() + size + old(context).memory().frame().meta() <= old(context).memory().frame().allocated()
            &&& find_in_calls(old(context).memory().calls(), target, 0) is None
            &&& fits_in_calls(old(context).memory().calls(), target, size as int)
            &&& sum_allocated(old(context).memory().calls()) + old(context).memory().frame().claimed() <= RV32Usize::MAX
        },
        !claim ==> slot_readable(old(context).memory(), target, size),
    ensures
        final(context).registers() == old(context).registers(),
        final(context).labels() == old(context).labels(),
        final(context).name() == old(context).name(),
        final(context).params() == old(context).params(),
        final(context).id() == old(context).id(),
        final(context).memory().wf(),
        final(context).memory().calls() == old(context).memory().calls(),
        final(context).memory().args() == old(context).memory().args(),
        claim ==> claimed_into(old(context).memory().frame(), final(context).memory().frame(), target, size as int),
        !claim ==> final(context).memory() == old(context).memory(),
        match slot_of(final(context).memory(), target) {
            None => r matches Err(e) && e@ == "Value is not mapped to stack memory"@,
            Some(off) => r matches Ok(asms) && asms@ == store_text(src, off as i32, lowest_free(*old(context)), src_level == dst_level),
        },
{
    let tmp = obtain_caller_directly_usable_register(context);
    proof {
        lemma_lowest_free(*context, tmp);
        lemma_sum_allocated_nonneg(context.memory().calls());
    }
    if claim {
        context.memory_mapper.stack_claim(target, size);
    }
    let offset = match context.memory_mapper.get_offset(&target, size) {
        Some(o) => o,
        None => {
            return Err(String::from_str("Value is not mapped to stack memory"));
        },
    };
    proof {
        assert(slot_of(context.memory(), target) == Some(offset as int));
        assert(imm_num(RV32Imm::Num(offset as i32)) == (offset as i32) as int);
    }
    if src_level == dst_level {
        let asms = match id {
            Some(v) => add_sw_instruction(src, Register::Sp, RV32Imm::new(offset as i32), Some(InstContext::new(&mut context.register_mapper, v)), Some(tmp)),
            None => add_sw_instruction(src, Register::Sp, RV32Imm::new(offset as i32), None, Some(tmp)),
        };
        return Ok(asms);
    }
    let mut asms = add_lw_instruction(tmp, Register::Sp, RV32Imm::new(offset as i32), None, Some(tmp));
    asms.push(sw_instruction(src, tmp, 0, None));
    Ok(asms)
}

/// What the back end knows of an operand's IR value besides the tables of
/// the context.
#[derive(Debug)]
pub enum OperandKind {
    /// An integer constant.
    Integer(i32),
    /// Argument `index` of the function, of `size` bytes.
    FuncArg { index: usize, size: RV32Usize },
    /// The result of an instruction lowered before.
    Computed,
}

/// An operand of an instruction: its IR value, what kind of value it is, and
/// its size in bytes.
#[derive(Debug)]
pub struct Operand {
    pub value: Value,
    pub kind: OperandKind,
    pub size: RV32Usize,
}

/// The offset from `sp` of argument `index` (the ninth or later) at the
/// function's entry, past everything allocated since.
pub open spec fn arg_slot(mem: MemoryMapper, index: int) -> int {
    mem.args().stacked()[index - 8] + mem.frame().allocated() + sum_allocated(mem.calls())
}

/// The operand can be fetched: when no register holds it, a register is
/// free, its slot (if any) is readable, and without a slot it is a constant
/// or a registered argument.
#[verifier::opaque]
pub open spec fn fetchable(ctx: FunctionContext, op: Operand) -> bool {
    &&& ctx.registers().wf()
    &&& ctx.memory().wf()
    &&& held_by(ctx.registers().values(), op.value).is_empty() ==> {
        &&& exists|reg: Register| takes_result(ctx, reg)
        &&& slot_readable(ctx.memory(), op.value, op.size)
        &&& slot_of(ctx.memory(), op.value) is None ==> match op.kind {
            OperandKind::Integer(_) => true,
            OperandKind::FuncArg { index, size } => {
                &&& index < 8 || index < ctx.memory().args().count()
                &&& 8 <= index < ctx.memory().args().count() ==> {
                    &&& ctx.memory().args().stacked()[index - 8] + size <= ctx.memory().args().total()
                    &&& arg_slot(ctx.memory(), index as int) <= RV32Usize::MAX
                }
            },
            OperandKind::Computed => false,
        }
    }
}

/// Fetching `op` in `before` gives `text` and leaves it in `reg`, with the
/// context becoming `after`: a register already holding the value is used
/// as it is; else the value's slot is loaded; else the constant 0 is `zero`,
/// another constant is loaded with `li`, and an argument is taken from its
/// register or loaded from the caller's frame. A register that gets the
/// value is recorded as holding it.
#[verifier::opaque]
pub open spec fn fetched(before: FunctionContext, op: Operand, after: FunctionContext, text: Seq<RiscvAsm>, reg: Register) -> bool {
    let held = held_by(before.registers().values(), op.value);
    &&& kept(before, after)
    &&& if !held.is_empty() {
        &&& held.contains(reg)
        &&& text.len() == 0
        &&& after.registers() == before.registers()
    } else {
        match slot_of(before.memory(), op.value) {
            Some(off) => {
                &&& reg == lowest_free(before)
                &&& text == lw_text(reg, Register::Sp, off as i32, reg)
                &&& dest_recorded(before.registers(), after.registers(), reg, op.value)
            },
            None => match op.kind {
                OperandKind::Integer(v) => if v == 0 {
                    &&& reg == Register::Zero
                    &&& text.len() == 0
                    &&& after.registers() == before.registers()
                } else {
                    &&& reg == lowest_free(before)
                    &&& text == seq![RiscvAsm::Instruction(RiscvInstruction::Li { dest: reg, imm: RV32Imm::Num(v) })]
                    &&& dest_recorded(before.registers(), after.registers(), reg, op.value)
                },
                OperandKind::FuncArg { index, size } => if index < 8 {
                    &&& reg == reg_of((10 + index) as nat)
                    &&& text.len() == 0
                    &&& dest_recorded(before.registers(), after.registers(), reg, op.value)
                } else {
                    &&& reg == lowest_free(before)
                    &&& text == lw_text(reg, Register::Sp, arg_slot(before.memory(), index as int) as i32, reg)
                    &&& dest_recorded(before.registers(), after.registers(), reg, op.value)
                },
                OperandKind::Computed => false,
            },
        }
    }
}

/// A value that no register held is held by exactly the register recorded
/// for it.
proof fn lemma_recorded_alone(before: RegisterMapper, after: RegisterMapper, dest: Register, v: Value)
    requires
        dest_recorded(before, after, dest, v),
        held_by(before.values(), v).is_empty(),
    ensures
        held_by(after.values(), v) == set![dest],
{
    let freed = match usage_of(before.usage(), dest) {
        Some(RegisterValue::InstRet(w)) => before.values().insert(w, held_by(before.values(), w).remove(dest)),
        _ => before.values(),
    };
    assert(held_by(freed, v) =~= Set::<Register>::empty());
    assert(held_by(after.values(), v) =~= set![dest]);
}

/// The register newly recorded for `value`, which no register held: the one
/// the table now gives for it.
fn recorded_register(context: &FunctionContext, value: Value, Ghost(before): Ghost<RegisterMapper>, Ghost(dest): Ghost<Register>) -> (r: Register)
    requires
        dest_recorded(before, context.registers(), dest, value),
        held_by(before.values(), value).is_empty(),
    ensures
        r == dest,
{
    proof {
        lemma_recorded_alone(before, context.registers(), dest, value);
    }
    match context.register_mapper.get_by_value(&value) {
        Some(regs) => {
            proof {
                assert(regs@.to_set().contains(regs@[0]));
            }
            regs[0]
        },
        None => {
            proof {
                assert(set![dest].contains(dest));
            }
            Register::Zero
        },
    }
}

/// Fetches argument `index` of the function, which no register holds.
fn fetch_arg(context: &mut FunctionContext, value: Value, index: usize, size: RV32Usize) -> (r: (Vec<RiscvAsm>, Register))
    requires
        old(context).registers().wf(),
        old(context).memory().wf(),
        held_by(old(context).registers().values(), value).is_empty(),
        exists|reg: Register| takes_result(*old(context), reg),
        index < 8 || index < old(context).memory().args().count(),
        8 <= index < old(context).memory().args().count() ==> {
            &&& old(context).memory().args().stacked()[index - 8] + size <= old(context).memory().args().total()
            &&& arg_slot(old(context).memory(), index as int) <= RV32Usize::MAX
        },
    ensures
        kept(*old(context), *final(context)),
        index < 8 ==> r.1 == reg_of((10 + index) as nat) && r.0@.len() == 0,
        index >= 8 ==> r.1 == lowest_free(*old(context))
            && r.0@ == lw_text(r.1, Register::Sp, arg_slot(old(context).memory(), index as int) as i32, r.1),
        dest_recorded(old(context).registers(), final(context).registers(), r.1, value),
{
    let ghost mid = *context;
    proof {
        lemma_sum_allocated_nonneg(context.memory().calls());
        if index >= 8 {
            let a = arg_slot(mid.memory(), index as int);
            assert(0 <= a <= RV32Usize::MAX);
            assert((a as RV32Usize) as int == a);
            assert(((a as RV32Usize) as i32) == a as i32);
        }
    }
    let asms = func_arg_asm(context, index, size, value);
    let ghost dest = if index < 8 { reg_of((10 + index) as nat) } else { lowest_free(mid) };
    let reg = recorded_register(context, value, Ghost(mid.registers()), Ghost(dest));
    (asms, reg)
}

/// Fetches a constant or an argument that neither a register nor a slot
/// holds.
fn fetch_unslotted(context: &mut FunctionContext, op: &Operand) -> (r: (Vec<RiscvAsm>, Register))
    requires
        fetchable(*old(context), *op),
        held_by(old(context).registers().values(), op.value).is_empty(),
        slot_of(old(context).memory(), op.value) is None,
    ensures
        fetched(*old(context), *op, *final(context), r.0@, r.1),
{
    reveal(fetched);
    reveal(fetchable);
    let ghost mid = *context;
    match op.kind {
        OperandKind::Integer(v) => {
            if v == 0 {
                return (Vec::new(), Register::Zero);
            }
            let asms = integer_asm(context, v, op.value);
            let reg = recorded_register(context, op.value, Ghost(mid.registers()), Ghost(lowest_free(mid)));
            (asms, reg)
        },
        OperandKind::FuncArg { index, size } => fetch_arg(context, op.value, index, size),
        OperandKind::Computed => {
            proof {
                assert(false);
            }
            (Vec::new(), Register::Zero)
        },
    }
}

/// Puts the value of `op` in a register, emitting the code that does so.
pub fn get_value(context: &mut FunctionContext, op: &Operand) -> (r: (Vec<RiscvAsm>, Register))
    requires
        fetchable(*old(context), *op),
    ensures
        fetched(*old(context), *op, *final(context), r.0@, r.1),
{
    reveal(fetched);
    reveal(fetchable);
    match context.register_mapper.get_by_value(&op.value) {
        Some(regs) => {
            proof {
                assert(regs@.to_set().contains(regs@[0]));
            }
            return (Vec::new(), regs[0]);
        },
        None => {},
    }
    match load_from_local(op.value, context, Some(op.value), op.size, 0, 0) {
        Ok(loaded) => {
            return loaded;
        },
        Err(_) => {},
    }
    fetch_unslotted(context, op)
}

/// Fetching changes nothing but the registers, and keeps their table well
/// formed.
pub proof fn lemma_fetched_kept(before: FunctionContext, op: Operand, after: FunctionContext, text: Seq<RiscvAsm>, reg: Register)
    requires
        fetchable(before, op),
        fetched(before, op, after, text, reg),
    ensures
        kept(before, after),
        after.registers().wf(),
        after.memory().wf(),
{
    reveal(fetched);
    reveal(fetchable);
}

/// The slot a result is stored in can be claimed: `id` has none yet, `size`
/// bytes fit under the meta area of the frame, and its offset fits in 32
/// bits.
pub open spec fn claimable(mem: MemoryMapper, id: Value, size: RV32Usize) -> bool {
    &&& mem.wf()
    &&& !mem.frame().offsets().dom().contains(id)
    &&& mem.frame().claimed() + size + mem.frame().meta() <= mem.frame().allocated()
    &&& find_in_calls(mem.calls(), id, 0) is None
    &&& fits_in_calls(mem.calls(), id, size as int)
    &&& sum_allocated(mem.calls()) + mem.frame().claimed() <= RV32Usize::MAX
}

/// With both operands fetched, `lhs` in `lhs_reg`, the operation finds a
/// free register when it needs one, and one more is free for the store.
pub open spec fn registers_suffice(ctx: FunctionContext, op: BinaryOp, lhs_reg: Register) -> bool {
    &&& own_destination(op) || !directly_usable(lhs_reg) ==> exists|reg: Register| takes_result(ctx, reg)
    &&& exists|reg: Register| takes_result(ctx, reg) && reg != result_register(ctx, op, lhs_reg)
}

/// Stores the result in `rd` into a slot of `size` bytes claimed for `id`,
/// and frees every register.
fn store_result(context: &mut FunctionContext, rd: Register, id: Value, size: RV32Usize) -> (r: Vec<RiscvAsm>)
    requires
        old(context).registers().wf(),
        exists|reg: Register| takes_result(*old(context), reg),
        claimable(old(context).memory(), id, size),
    ensures
        r@ == sw_text(rd, Register::Sp, (sum_allocated(old(context).memory().calls()) + old(context).memory().frame().claimed()) as i32, lowest_free(*old(context))),
        final(context).registers().wf(),
        final(context).registers().values() == Map::<Value, Set<Register>>::empty(),
        final(context).registers().usage() == Map::<Register, RegisterValue>::empty(),
        final(context).memory().wf(),
        claimed_into(old(context).memory().frame(), final(context).memory().frame(), id, size as int),
        final(context).memory().calls() == old(context).memory().calls(),
        final(context).memory().args() == old(context).memory().args(),
        final(context).labels() == old(context).labels(),
        final(context).name() == old(context).name(),
        final(context).params() == old(context).params(),
        final(context).id() == old(context).id(),
{
    let ghost c0 = *context;
    proof {
        lemma_sum_allocated_nonneg(c0.memory().calls());
    }
    let stored = store_to_local(rd, id, context, Some(id), true, size, 0, 0);
    proof {
        assert(slot_of(context.memory(), id) == Some(sum_allocated(c0.memory().calls()) + c0.memory().frame().claimed()));
    }
    let asms = match stored {
        Ok(code) => code,
        Err(_) => {
            proof {
                assert(false);
            }
            Vec::new()
        },
    };
    context.register_mapper.clear();
    asms
}

/// The code of binary instruction `id`, `lhs op rhs`: fetches both operands,
/// computes the result (see [`binary_op_asm`]), stores it into a slot of
/// `size` bytes claimed for `id`, and frees every register. Shifts are not
/// lowered.
pub fn binary_to_asm(context: &mut FunctionContext, id: Value, op: BinaryOp, lhs: Operand, rhs: Operand, size: RV32Usize) -> (r: Vec<RiscvAsm>)
    requires
        lowered(op),
        fetchable(*old(context), lhs),
        forall|c1: FunctionContext, t1: Seq<RiscvAsm>, l: Register|
            #[trigger] fetched(*old(context), lhs, c1, t1, l) ==> fetchable(c1, rhs),
        forall|c1: FunctionContext, t1: Seq<RiscvAsm>, l: Register, c2: FunctionContext, t2: Seq<RiscvAsm>, rr: Register|
            #[trigger] fetched(*old(context), lhs, c1, t1, l) && #[trigger] fetched(c1, rhs, c2, t2, rr) ==> registers_suffice(c2, op, l),
        claimable(old(context).memory(), id, size),
    ensures
        exists|c1: FunctionContext, t1: Seq<RiscvAsm>, l: Register, c2: FunctionContext, t2: Seq<RiscvAsm>, rr: Register, c3: FunctionContext|
            #![trigger fetched(*old(context), lhs, c1, t1, l), fetched(c1, rhs, c2, t2, rr), dest_recorded(c2.registers(), c3.registers(), result_register(c2, op, l), id)]
            {
                let rd = result_register(c2, op, l);
                let off = sum_allocated(old(context).memory().calls()) + old(context).memory().frame().claimed();
                &&& fetched(*old(context), lhs, c1, t1, l)
                &&& fetched(c1, rhs, c2, t2, rr)
                &&& dest_recorded(c2.registers(), c3.registers(), rd, id)
                &&& c3.params() == c2.params()
                &&& r@ == t1 + t2 + binary_text(op, l, rr, rd) + sw_text(rd, Register::Sp, off as i32, lowest_free(c3))
            },
        final(context).registers().wf(),
        final(context).registers().values() == Map::<Value, Set<Register>>::empty(),
        final(context).registers().usage() == Map::<Register, RegisterValue>::empty(),
        final(context).memory().wf(),
        claimed_into(old(context).memory().frame(), final(context).memory().frame(), id, size as int),
        final(context).memory().calls() == old(context).memory().calls(),
        final(context).memory().args() == old(context).memory().args(),
        final(context).labels() == old(context).labels(),
        final(context).name() == old(context).name(),
        final(context).params() == old(context).params(),
        final(context).id() == old(context).id(),
{
    let ghost c0 = *context;
    let (mut asms, lhs_reg) = get_value(context, &lhs);
    let ghost c1 = *context;
    let ghost t1 = asms@;
    proof {
        lemma_fetched_kept(c0, lhs, c1, t1, lhs_reg);
    }
    let (mut more, rhs_reg) = get_value(context, &rhs);
    let ghost c2 = *context;
    let ghost t2 = more@;
    proof {
        lemma_fetched_kept(c1, rhs, c2, t2, rhs_reg);
        assert(registers_suffice(c2, op, lhs_reg));
    }
    asms.append(&mut more);
    let rd = binary_op_asm(op, lhs_reg, rhs_reg, context, id, &mut asms);
    let ghost c3 = *context;
    proof {
        let w = choose|reg: Register| takes_result(c2, reg) && reg != result_register(c2, op, lhs_reg);
        assert(takes_result(c3, w));
    }
    let mut code = store_result(context, rd, id, size);
    asms.append(&mut code);
    proof {
        let off = sum_allocated(c0.memory().calls()) + c0.memory().frame().claimed();
        assert(asms@ =~= t1 + t2 + binary_text(op, lhs_reg, rhs_reg, rd) + sw_text(rd, Register::Sp, off as i32, lowest_free(c3)));
        assert(fetched(c0, lhs, c1, t1, lhs_reg));
        assert(fetched(c1, rhs, c2, t2, rhs_reg));
        assert(dest_recorded(c2.registers(), c3.registers(), result_register(c2, op, lhs_reg), id));
    }
    asms
}

/// The table of held values once `register` is freed.
pub open spec fn freed_values(values: Map<Value, Set<Register>>, usage: Map<Register, RegisterValue>, register: Register) -> Map<Value, Set<Register>> {
    match usage_of(usage, register) {
        Some(RegisterValue::InstRet(v)) => values.insert(v, held_by(values, v).remove(register)),
        _ => values,
    }
}

/// Passing argument `i` of a call, fetched into `reg` (in context `fs`),
/// gives `text` and context `after`: one of the first eight is moved into its
/// argument register, freed first; another is stored into a slot claimed for
/// it in the innermost call frame. Either way `reg` then no longer counts as
/// holding the value.
pub open spec fn passed(fs: FunctionContext, op: Operand, i: int, reg: Register, after: FunctionContext, text: Seq<RiscvAsm>) -> bool {
    &&& after.registers().wf()
    &&& after.labels() == fs.labels()
    &&& after.name() == fs.name()
    &&& after.params() == fs.params()
    &&& after.id() == fs.id()
    &&& if i < 8 {
        let dest = reg_of((10 + i) as nat);
        let values = freed_values(fs.registers().values(), fs.registers().usage(), dest);
        &&& text == seq![RiscvAsm::Instruction(RiscvInstruction::Mv { dest, src: reg })]
        &&& after.memory() == fs.memory()
        &&& after.registers().values() == values.insert(op.value, held_by(values, op.value).remove(reg))
        &&& after.registers().usage() == fs.registers().usage().remove(dest).remove(reg)
    } else {
        let calls = fs.memory().calls();
        &&& after.memory().wf()
        &&& after.memory().frame() == fs.memory().frame()
        &&& after.memory().args() == fs.memory().args()
        &&& after.memory().calls().len() == calls.len()
        &&& after.memory().calls().drop_last() == calls.drop_last()
        &&& claimed_into(calls.last(), after.memory().calls().last(), op.value, op.size as int)
        &&& text == sw_text(reg, Register::Sp, calls.last().claimed() as i32, lowest_free(fs))
        &&& after.registers().values() == fs.registers().values().insert(op.value, held_by(fs.registers().values(), op.value).remove(reg))
        &&& after.registers().usage() == fs.registers().usage().remove(reg)
    }
}

/// What passing argument `i` needs once it is fetched: from the ninth on, a
/// slot of its size in the innermost call frame, and a free register to
/// build a far address in.
pub open spec fn passable(fs: FunctionContext, op: Operand, i: int) -> bool {
    i >= 8 ==> {
        let calls = fs.memory().calls();
        &&& calls.len() > 0
        &&& !calls.last().offsets().dom().contains(op.value)
        &&& calls.last().claimed() + op.size + calls.last().meta() <= calls.last().allocated()
        &&& sum_allocated(calls) <= RV32Usize::MAX
        &&& exists|reg: Register| takes_result(fs, reg)
    }
}

/// Arguments `i` onwards can be passed from `ctx`: each can be fetched and
/// passed, whatever register the fetch takes.
pub open spec fn can_pass(ctx: FunctionContext, args: Seq<Operand>, i: int) -> bool
    decreases args.len() - i,
{
    if i < 0 || i >= args.len() {
        true
    } else {
        &&& fetchable(ctx, args[i])
        &&& forall|fs: FunctionContext, t: Seq<RiscvAsm>, reg: Register| #[trigger] fetched(ctx, args[i], fs, t, reg) ==> {
            &&& passable(fs, args[i], i)
            &&& forall|after: FunctionContext, pt: Seq<RiscvAsm>| #[trigger] passed(fs, args[i], i, reg, after, pt) ==> can_pass(after, args, i + 1)
        }
    }
}

/// The bytes the arguments from the ninth on take.
pub open spec fn stacked_total(sizes: Seq<RV32Usize>) -> int
    decreases sizes.len(),
{
    if sizes.len() == 0 {
        0
    } else {
        stacked_total(sizes.drop_last()) + if sizes.len() > 8 { sizes.last() as int } else { 0 }
    }
}

/// The texts, one after the other.
pub open spec fn joined(texts: Seq<Seq<RiscvAsm>>) -> Seq<RiscvAsm>
    decreases texts.len(),
{
    if texts.len() == 0 {
        Seq::empty()
    } else {
        joined(texts.drop_last()) + texts.last()
    }
}

/// The context in which the arguments start to be passed: `before` with the
/// innermost call frame grown by the stacked arguments' bytes and allocated.
pub open spec fn call_frame_built(before: FunctionContext, sizes: Seq<RV32Usize>, after: FunctionContext) -> bool {
    let calls = before.memory().calls();
    let top = after.memory().calls().last();
    &&& after.registers() == before.registers()
    &&& after.labels() == before.labels()
    &&& after.name() == before.name()
    &&& after.params() == before.params()
    &&& after.id() == before.id()
    &&& after.memory().wf()
    &&& after.memory().frame() == before.memory().frame()
    &&& after.memory().args() == before.memory().args()
    &&& after.memory().calls().len() == calls.len()
    &&& after.memory().calls().drop_last() == calls.drop_last()
    &&& top.reserved() == calls.last().reserved() + stacked_total(sizes)
    &&& top.allocated() == align_up(top.reserved() as int)
    &&& top.claimed() == calls.last().claimed()
    &&& top.meta() == calls.last().meta()
    &&& top.offsets() == calls.last().offsets()
}

/// Arguments `0..n` were passed from `start`: `cs[i]` is the context before
/// argument `i` is fetched, `fs[i]` after, `regs[i]` the register it was
/// fetched into, and `fts[i]`, `pts[i]` the code fetching and passing it.
pub open spec fn traced(
    start: FunctionContext,
    args: Seq<Operand>,
    n: int,
    cs: Seq<FunctionContext>,
    fs: Seq<FunctionContext>,
    regs: Seq<Register>,
    fts: Seq<Seq<RiscvAsm>>,
    pts: Seq<Seq<RiscvAsm>>,
) -> bool {
    &&& 0 <= n <= args.len()
    &&& cs.len() == n + 1
    &&& fs.len() == n
    &&& regs.len() == n
    &&& fts.len() == n
    &&& pts.len() == n
    &&& cs[0] == start
    &&& forall|i: int| 0 <= i < n ==> #[trigger] fetched(cs[i], args[i], fs[i], fts[i], regs[i])
    &&& forall|i: int| 0 <= i < n ==> #[trigger] passed(fs[i], args[i], i, regs[i], cs[i + 1], pts[i])
}

/// The code of argument `i`: its fetch, then its passing.
pub open spec fn arg_texts(fts: Seq<Seq<RiscvAsm>>, pts: Seq<Seq<RiscvAsm>>) -> Seq<Seq<RiscvAsm>> {
    Seq::new(fts.len(), |i: int| fts[i] + pts[i])
}

/// Passes argument `i`, already fetched into `reg`.
fn pass_arg(context: &mut FunctionContext, op: &Operand, i: usize, reg: Register) -> (r: Vec<RiscvAsm>)
    requires
        old(context).registers().wf(),
        old(context).memory().wf(),
        passable(*old(context), *op, i as int),
    ensures
        passed(*old(context), *op, i as int, reg, *final(context), r@),
{
    let mut asms: Vec<RiscvAsm> = Vec::new();
    if i < 8 {
        let dest = Register::from_index(10 + i as u8);
        context.register_mapper.remove_by_register(dest);
        asms.push(mv_instruction(dest, reg, None));
    } else {
        let ghost c0 = *context;
        context.memory_mapper.function_claim(op.value, op.size);
        proof {
            let calls = context.memory().calls();
            assert(calls.last().offsets().dom().contains(op.value));
            assert(calls.drop_last().push(calls.last()) =~= calls);
            assert(sum_allocated(calls) == sum_allocated(c0.memory().calls()));
        }
        let offset = match context.memory_mapper.get_offset(&op.value, op.size) {
            Some(o) => o,
            None => {
                proof {
                    assert(false);
                }
                0
            },
        };
        proof {
            assert forall|reg: Register| takes_result(*context, reg) == takes_result(c0, reg) by {}
            let w = choose|reg: Register| takes_result(c0, reg);
            assert(takes_result(*context, w));
        }
        let tmp = obtain_caller_directly_usable_register(context);
        proof {
            lemma_lowest_free(c0, tmp);
            assert(offset == c0.memory().calls().last().claimed());
            assert(imm_num(RV32Imm::Num(offset as i32)) == (offset as i32) as int);
        }
        let mut code = add_sw_instruction(reg, Register::Sp, RV32Imm::new(offset as i32), None, Some(tmp));
        asms.append(&mut code);
    }
    context.register_mapper.remove(op.value, reg);
    asms
}

/// The stacked bytes of the first `k` sizes grow with `k`.
proof fn lemma_stacked_total_prefix(sizes: Seq<RV32Usize>, k: int)
    requires
        0 <= k <= sizes.len(),
    ensures
        0 <= stacked_total(sizes.take(k)) <= stacked_total(sizes),
    decreases sizes.len(),
{
    if k < sizes.len() {
        assert(sizes.drop_last().take(k) =~= sizes.take(k));
        lemma_stacked_total_prefix(sizes.drop_last(), k);
    } else {
        assert(sizes.take(k) =~= sizes);
        if sizes.len() > 0 {
            lemma_stacked_total_prefix(sizes.drop_last(), k - 1);
            assert(sizes.drop_last().take(k - 1) =~= sizes.drop_last());
        }
    }
}

/// Passing arguments changes neither the function's frame nor its
/// arguments, nor the call frames but the innermost one, nor that one's
/// size; the register table stays well formed.
pub open spec fn keeps(a: FunctionContext, b: FunctionContext) -> bool {
    &&& b.registers().wf()
    &&& b.memory().wf()
    &&& b.memory().frame() == a.memory().frame()
    &&& b.memory().args() == a.memory().args()
    &&& b.memory().calls().len() == a.memory().calls().len()
    &&& b.memory().calls().drop_last() == a.memory().calls().drop_last()
    &&& b.labels() == a.labels()
    &&& b.name() == a.name()
    &&& b.params() == a.params()
    &&& b.id() == a.id()
}

/// The arguments were set up from `before` to `after` with code `text`,
/// along the given trace.
pub open spec fn set_up_by(
    before: FunctionContext,
    args: Seq<Operand>,
    sizes: Seq<RV32Usize>,
    after: FunctionContext,
    text: Seq<RiscvAsm>,
    c0: FunctionContext,
    cs: Seq<FunctionContext>,
    fs: Seq<FunctionContext>,
    regs: Seq<Register>,
    fts: Seq<Seq<RiscvAsm>>,
    pts: Seq<Seq<RiscvAsm>>,
) -> bool {
    &&& call_frame_built(before, sizes, c0)
    &&& traced(c0, args, args.len() as int, cs, fs, regs, fts, pts)
    &&& after == cs.last()
    &&& text == grow_text(c0.memory().calls().last().allocated() as int) + joined(arg_texts(fts, pts))
}

/// The arguments of a call were set up from `before` to `after` with code
/// `text`: the call frame was built, and each argument fetched and passed in
/// turn (see [`fetched`] and [`passed`]).
pub open spec fn set_up(before: FunctionContext, args: Seq<Operand>, sizes: Seq<RV32Usize>, after: FunctionContext, text: Seq<RiscvAsm>) -> bool {
    exists|c0: FunctionContext, cs: Seq<FunctionContext>, fs: Seq<FunctionContext>, regs: Seq<Register>, fts: Seq<Seq<RiscvAsm>>, pts: Seq<Seq<RiscvAsm>>|
        #[trigger] set_up_by(before, args, sizes, after, text, c0, cs, fs, regs, fts, pts)
}

/// Along a trace, each context keeps what the start had (see [`keeps`]),
/// and the innermost call frame its size.
proof fn lemma_trace_keeps(
    start: FunctionContext,
    args: Seq<Operand>,
    n: int,
    cs: Seq<FunctionContext>,
    fs: Seq<FunctionContext>,
    regs: Seq<Register>,
    fts: Seq<Seq<RiscvAsm>>,
    pts: Seq<Seq<RiscvAsm>>,
    i: int,
)
    requires
        traced(start, args, n, cs, fs, regs, fts, pts),
        start.registers().wf(),
        start.memory().wf(),
        start.memory().calls().len() > 0,
        0 <= i <= n,
    ensures
        keeps(start, cs[i]),
        cs[i].memory().calls().last().allocated() == start.memory().calls().last().allocated(),
    decreases i,
{
    if i > 0 {
        let j = i - 1;
        lemma_trace_keeps(start, args, n, cs, fs, regs, fts, pts, j);
        assert(fetched(cs[j], args[j], fs[j], fts[j], regs[j]));
        assert(passed(fs[j], args[j], j, regs[j], cs[j + 1], pts[j]));
        reveal(fetched);
    }
}

/// Sets up the arguments of a call whose frame was just opened (see
/// `MemoryMapper::new_function_call`): reserves and allocates the bytes of
/// the arguments from the ninth on in that frame, then fetches each
/// argument in turn and moves it into its argument register, or stores it
/// into a slot claimed for it in the frame. `sizes` are the sizes of the
/// callee's parameters, which the arguments must match.
pub fn call_setup_asm(context: &mut FunctionContext, args: &[Operand], sizes: &[RV32Usize]) -> (r: Vec<RiscvAsm>)
    requires
        args@.len() == sizes@.len(),
        forall|i: int| 0 <= i < args@.len() ==> #[trigger] args@[i].size == sizes@[i],
        old(context).registers().wf(),
        old(context).memory().wf(),
        old(context).memory().calls().len() > 0,
        old(context).memory().calls().last().allocated() == 0,
        old(context).memory().calls().last().meta() <= old(context).memory().calls().last().reserved(),
        align_up(old(context).memory().calls().last().reserved() + stacked_total(sizes@)) <= i32::MAX,
        forall|c0: FunctionContext| #[trigger] call_frame_built(*old(context), sizes@, c0) ==> can_pass(c0, args@, 0),
    ensures
        set_up(*old(context), args@, sizes@, *final(context), r@),
        keeps(*old(context), *final(context)),
        final(context).memory().calls().last().allocated() == align_up(old(context).memory().calls().last().reserved() + stacked_total(sizes@)),
{
    let ghost before = *context;
    let n = args.len();
    let mut i: usize = if n < 8 { n } else { 8 };
    proof {
        lemma_stacked_zero(sizes@, i as int);
    }
    while i < n
        invariant
            i <= n,
            i >= 8 || i == n,
            n == sizes@.len(),
            before.memory().calls().len() > 0,
            context.memory().wf(),
            context.memory().calls().len() == before.memory().calls().len(),
            context.memory().calls().drop_last() == before.memory().calls().drop_last(),
            context.memory().calls().last().reserved() == before.memory().calls().last().reserved() + stacked_total(sizes@.take(i as int)),
            context.memory().calls().last().allocated() == 0,
            context.memory().calls().last().claimed() == before.memory().calls().last().claimed(),
            context.memory().calls().last().meta() == before.memory().calls().last().meta(),
            context.memory().calls().last().offsets() == before.memory().calls().last().offsets(),
            context.memory().frame() == before.memory().frame(),
            context.memory().args() == before.memory().args(),
            context.registers() == before.registers(),
            context.labels() == before.labels(),
            context.name() == before.name(),
            context.params() == before.params(),
            context.id() == before.id(),
            align_up(before.memory().calls().last().reserved() + stacked_total(sizes@)) <= i32::MAX,
        decreases n - i,
    {
        proof {
            assert(sizes@.take(i + 1).drop_last() =~= sizes@.take(i as int));
            lemma_stacked_total_prefix(sizes@, i + 1);
            law_align_up(before.memory().calls().last().reserved() + stacked_total(sizes@.take(i + 1)), 0);
            law_align_up_monotone(
                before.memory().calls().last().reserved() + stacked_total(sizes@.take(i + 1)),
                before.memory().calls().last().reserved() + stacked_total(sizes@),
            );
        }
        context.memory_mapper.function_reserve(sizes[i]);
        i = i + 1;
    }
    proof {
        assert(sizes@.take(n as int) =~= sizes@);
        lemma_stacked_total_prefix(sizes@, sizes@.len() as int);
        law_align_up(before.memory().calls().last().reserved() + stacked_total(sizes@), 0);
    }
    let mut asms = context.memory_mapper.function_extend();
    let ghost c0 = *context;
    proof {
        assert(call_frame_built(before, sizes@, c0));
        assert(asms@ =~= grow_text(c0.memory().calls().last().allocated() as int) + joined(arg_texts(Seq::empty(), Seq::empty())));
    }
    let ghost mut cs: Seq<FunctionContext> = seq![c0];
    let ghost mut fs: Seq<FunctionContext> = Seq::empty();
    let ghost mut regs: Seq<Register> = Seq::empty();
    let ghost mut fts: Seq<Seq<RiscvAsm>> = Seq::empty();
    let ghost mut pts: Seq<Seq<RiscvAsm>> = Seq::empty();
    let mut j: usize = 0;
    while j < n
        invariant
            j <= n,
            n == args@.len(),
            call_frame_built(before, sizes@, c0),
            traced(c0, args@, j as int, cs, fs, regs, fts, pts),
            *context == cs.last(),
            can_pass(*context, args@, j as int),
            context.registers().wf(),
            context.memory().wf(),
            asms@ == grow_text(c0.memory().calls().last().allocated() as int) + joined(arg_texts(fts, pts)),
        decreases n - j,
    {
        let ghost cj = *context;
        let (mut code, Ghost(step)) = pass_next(context, &args[j], j, Ghost(args@));
        proof {
            let (fj, reg, ftj, ptj) = step;
            lemma_trace_push(c0, args@, j as int, cs, fs, regs, fts, pts, fj, reg, ftj, *context, ptj);
            cs = cs.push(*context);
            fs = fs.push(fj);
            regs = regs.push(reg);
            fts = fts.push(ftj);
            pts = pts.push(ptj);
        }
        asms.append(&mut code);
        proof {
            assert(asms@ =~= grow_text(c0.memory().calls().last().allocated() as int) + joined(arg_texts(fts, pts)));
        }
        j = j + 1;
    }
    proof {
        lemma_trace_keeps(c0, args@, n as int, cs, fs, regs, fts, pts, n as int);
        assert(set_up_by(before, args@, sizes@, *context, asms@, c0, cs, fs, regs, fts, pts));
    }
    asms
}

/// One more argument passed extends the trace and its code.
proof fn lemma_trace_push(
    start: FunctionContext,
    args: Seq<Operand>,
    j: int,
    cs: Seq<FunctionContext>,
    fs: Seq<FunctionContext>,
    regs: Seq<Register>,
    fts: Seq<Seq<RiscvAsm>>,
    pts: Seq<Seq<RiscvAsm>>,
    f: FunctionContext,
    reg: Register,
    ft: Seq<RiscvAsm>,
    after: FunctionContext,
    pt: Seq<RiscvAsm>,
)
    requires
        j < args.len(),
        traced(start, args, j, cs, fs, regs, fts, pts),
        fetched(cs.last(), args[j], f, ft, reg),
        passed(f, args[j], j, reg, after, pt),
    ensures
        traced(start, args, j + 1, cs.push(after), fs.push(f), regs.push(reg), fts.push(ft), pts.push(pt)),
        joined(arg_texts(fts.push(ft), pts.push(pt))) == joined(arg_texts(fts, pts)) + (ft + pt),
{
    let cs2 = cs.push(after);
    let fs2 = fs.push(f);
    let regs2 = regs.push(reg);
    let fts2 = fts.push(ft);
    let pts2 = pts.push(pt);
    assert forall|i: int| 0 <= i < j + 1 implies #[trigger] fetched(cs2[i], args[i], fs2[i], fts2[i], regs2[i]) by {
        if i < j {
            assert(fetched(cs[i], args[i], fs[i], fts[i], regs[i]));
        }
    }
    assert forall|i: int| 0 <= i < j + 1 implies #[trigger] passed(fs2[i], args[i], i, regs2[i], cs2[i + 1], pts2[i]) by {
        if i < j {
            assert(passed(fs[i], args[i], i, regs[i], cs[i + 1], pts[i]));
        }
    }
    assert(arg_texts(fts2, pts2).drop_last() =~= arg_texts(fts, pts));
}

/// Fetches and passes argument `j`; gives its code, and the context after
/// the fetch, the register fetched into, and the code of each part.
fn pass_next(context: &mut FunctionContext, op: &Operand, j: usize, Ghost(args): Ghost<Seq<Operand>>)
    -> (r: (Vec<RiscvAsm>, Ghost<(FunctionContext, Register, Seq<RiscvAsm>, Seq<RiscvAsm>)>))
    requires
        j < args.len(),
        args[j as int] == *op,
        can_pass(*old(context), args, j as int),
    ensures
        ({
            let (f, reg, ft, pt) = r.1@;
            &&& fetched(*old(context), *op, f, ft, reg)
            &&& passed(f, *op, j as int, reg, *final(context), pt)
            &&& r.0@ == ft + pt
        }),
        can_pass(*final(context), args, j as int + 1),
        final(context).registers().wf(),
        final(context).memory().wf(),
{
    let ghost cj = *context;
    let (mut asms, reg) = get_value(context, op);
    let ghost fj = *context;
    let ghost ftj = asms@;
    proof {
        lemma_fetched_kept(cj, *op, fj, ftj, reg);
        assert(fetched(cj, args[j as int], fj, ftj, reg));
    }
    let mut pass = pass_arg(context, op, j, reg);
    let ghost ptj = pass@;
    proof {
        assert(passed(fj, args[j as int], j as int, reg, *context, ptj));
    }
    asms.append(&mut pass);
    (asms, Ghost((fj, reg, ftj, ptj)))
}

/// The first eight sizes stack nothing.
proof fn lemma_stacked_zero(sizes: Seq<RV32Usize>, k: int)
    requires
        0 <= k <= 8,
        k <= sizes.len(),
    ensures
        stacked_total(sizes.take(k)) == 0,
    decreases k,
{
    if k > 0 {
        assert(sizes.take(k).drop_last() =~= sizes.take(k - 1));
        lemma_stacked_zero(sizes, k - 1);
    }
}

/// Reads the global named `n` into the lowest free register, recording
/// nothing.
fn load_global_place(context: &mut FunctionContext, n: &String) -> (r: (Vec<RiscvAsm>, Register))
    requires
        old(context).registers().wf(),
        exists|reg: Register| takes_result(*old(context), reg),
        sigil_name(n@),
    ensures
        final(context).registers() == old(context).registers(),
        kept(*old(context), *final(context)),
        r.1 == lowest_free(*old(context)),
        r.0@.len() == 2,
        r.0@[0] matches RiscvAsm::Instruction(RiscvInstruction::La { dest: d, label: l }) && d == r.1 && l@ == n@.drop_first(),
        r.0@[1] == RiscvAsm::Instruction(RiscvInstruction::Lw { dest: r.1, base: r.1, offset: RV32Imm12::Num(0) }),
{
    let name = n.clone();
    let loaded = load_from_global(context, Some(name), None);
    match loaded {
        Ok(pair) => pair,
        Err(_) => (Vec::new(), Register::Zero),
    }
}

/// Reads the slot of local `v` into the lowest free register, recording
/// nothing.
fn load_local_place(context: &mut FunctionContext, v: Value, size: RV32Usize, src_level: u32, dst_level: u32) -> (r: (Vec<RiscvAsm>, Register))
    requires
        old(context).registers().wf(),
        exists|reg: Register| takes_result(*old(context), reg),
        slot_readable(old(context).memory(), v, size),
        slot_of(old(context).memory(), v) is Some,
        src_level == dst_level || dst_level + 1 == src_level,
    ensures
        final(context).registers() == old(context).registers(),
        kept(*old(context), *final(context)),
        r.1 == lowest_free(*old(context)),
        r.0@ == load_text(r.1, slot_of(old(context).memory(), v)->0 as i32, src_level == dst_level),
{
    let loaded = load_from_local(v, context, None, size, src_level, dst_level);
    match loaded {
        Ok(pair) => pair,
        Err(_) => (Vec::new(), Register::Zero),
    }
}

/// Where a load reads or a store writes: the slot of a local value, or a
/// global by its IR name (with its sigil).
#[derive(Debug)]
pub enum Place {
    Local(Value),
    Global(String),
}

/// `text` reads `p` into `rd`: the slot of a local (the word itself, or the
/// word it points to), or the global through its address.
pub open spec fn place_loaded(text: Seq<RiscvAsm>, mem: MemoryMapper, p: Place, rd: Register, direct: bool) -> bool {
    match p {
        Place::Local(v) => text == load_text(rd, slot_of(mem, v)->0 as i32, direct),
        Place::Global(n) => {
            &&& text.len() == 2
            &&& text[0] matches RiscvAsm::Instruction(RiscvInstruction::La { dest: d, label: l }) && d == rd && l@ == n@.drop_first()
            &&& text[1] == RiscvAsm::Instruction(RiscvInstruction::Lw { dest: rd, base: rd, offset: RV32Imm12::Num(0) })
        },
    }
}

/// `text` writes `src` to `p`, with `tmp` for an address: the slot of a
/// local (or where it points), or the global through its address.
pub open spec fn place_stored(text: Seq<RiscvAsm>, mem: MemoryMapper, p: Place, src: Register, tmp: Register, direct: bool) -> bool {
    match p {
        Place::Local(v) => text == store_text(src, slot_of(mem, v)->0 as i32, tmp, direct),
        Place::Global(n) => {
            &&& text.len() == 2
            &&& text[0] matches RiscvAsm::Instruction(RiscvInstruction::La { dest: d, label: l }) && d == tmp && l@ == n@.drop_first()
            &&& text[1] == RiscvAsm::Instruction(RiscvInstruction::Sw { src, base: tmp, offset: RV32Imm12::Num(0) })
        },
    }
}

/// The place can be read or written with `size` bytes: a local has a
/// readable slot, a global a name with a sigil.
pub open spec fn place_ready(mem: MemoryMapper, p: Place, size: RV32Usize) -> bool {
    match p {
        Place::Local(v) => slot_readable(mem, v, size) && slot_of(mem, v) is Some,
        Place::Global(n) => sigil_name(n@),
    }
}

/// Reads `p` into the lowest free register, recording nothing.
fn load_place(context: &mut FunctionContext, p: &Place, size: RV32Usize, src_level: u32, dst_level: u32) -> (r: (Vec<RiscvAsm>, Register))
    requires
        old(context).registers().wf(),
        exists|reg: Register| takes_result(*old(context), reg),
        place_ready(old(context).memory(), *p, size),
        src_level == dst_level || dst_level + 1 == src_level,
    ensures
        final(context).registers() == old(context).registers(),
        kept(*old(context), *final(context)),
        r.1 == lowest_free(*old(context)),
        place_loaded(r.0@, old(context).memory(), *p, r.1, src_level == dst_level),
{
    match p {
        Place::Local(v) => load_local_place(context, *v, size, src_level, dst_level),
        Place::Global(n) => load_global_place(context, n),
    }
}

/// Writes `src` to the slot of local `v`, through the lowest free register.
fn store_local_place(context: &mut FunctionContext, src: Register, v: Value, id: Value, size: RV32Usize, src_level: u32, dst_level: u32) -> (r: Vec<RiscvAsm>)
    requires
        old(context).registers().wf(),
        exists|reg: Register| takes_result(*old(context), reg),
        slot_readable(old(context).memory(), v, size),
        slot_of(old(context).memory(), v) is Some,
        src_level == dst_level || src_level + 1 == dst_level,
    ensures
        final(context).registers() == old(context).registers(),
        kept(*old(context), *final(context)),
        r@ == store_text(src, slot_of(old(context).memory(), v)->0 as i32, lowest_free(*old(context)), src_level == dst_level),
{
    let stored = store_to_local(src, v, context, Some(id), false, size, src_level, dst_level);
    match stored {
        Ok(code) => code,
        Err(_) => Vec::new(),
    }
}

/// Writes `src` to the global named `n`, through the lowest free register.
fn store_global_place(context: &mut FunctionContext, src: Register, n: &String, id: Value) -> (r: Vec<RiscvAsm>)
    requires
        old(context).registers().wf(),
        exists|reg: Register| takes_result(*old(context), reg),
        sigil_name(n@),
    ensures
        final(context).registers() == old(context).registers(),
        kept(*old(context), *final(context)),
        r@.len() == 2,
        r@[0] matches RiscvAsm::Instruction(RiscvInstruction::La { dest: d, label: l }) && d == lowest_free(*old(context)) && l@ == n@.drop_first(),
        r@[1] == RiscvAsm::Instruction(RiscvInstruction::Sw { src, base: lowest_free(*old(context)), offset: RV32Imm12::Num(0) }),
{
    let name = n.clone();
    let stored = store_to_global(src, Some(name), context, Some(id));
    match stored {
        Ok(code) => code,
        Err(_) => Vec::new(),
    }
}

/// Writes `src` to `p`, through the lowest free register.
fn store_place(context: &mut FunctionContext, src: Register, p: &Place, id: Value, size: RV32Usize, src_level: u32, dst_level: u32) -> (r: Vec<RiscvAsm>)
    requires
        old(context).registers().wf(),
        exists|reg: Register| takes_result(*old(context), reg),
        place_ready(old(context).memory(), *p, size),
        src_level == dst_level || src_level + 1 == dst_level,
    ensures
        final(context).registers() == old(context).registers(),
        kept(*old(context), *final(context)),
        place_stored(r@, old(context).memory(), *p, src, lowest_free(*old(context)), src_level == dst_level),
{
    match p {
        Place::Local(v) => store_local_place(context, src, *v, id, size, src_level, dst_level),
        Place::Global(n) => store_global_place(context, src, n, id),
    }
}

/// Contexts that agree on what may take a result have the same lowest free
/// register.
proof fn lemma_same_lowest_free(a: FunctionContext, b: FunctionContext)
    requires
        exists|reg: Register| takes_result(a, reg),
        forall|reg: Register| takes_result(a, reg) == takes_result(b, reg),
    ensures
        lowest_free(a) == lowest_free(b),
{
    lemma_lowest_exists(a);
    lemma_lowest_free(b, lowest_free(a));
}

/// The lowest free register exists when some register is free.
proof fn lemma_lowest_exists(a: FunctionContext)
    requires
        exists|reg: Register| takes_result(a, reg),
    ensures
        takes_result(a, lowest_free(a)),
        forall|reg: Register| reg_index(reg) < reg_index(lowest_free(a)) ==> !takes_result(a, reg),
{
    let w = choose|reg: Register| takes_result(a, reg);
    let m = lowest_index_from(a, w, reg_index(w) as int);
    assert(takes_result(a, m) && forall|reg: Register| reg_index(reg) < reg_index(m) ==> !takes_result(a, reg));
}

/// A free register with no free register below it, found from `w` down.
proof fn lowest_index_from(a: FunctionContext, w: Register, k: int) -> (m: Register)
    requires
        takes_result(a, w),
        0 <= k <= reg_index(w),
        forall|reg: Register| k <= reg_index(reg) < reg_index(w) ==> !takes_result(a, reg),
    ensures
        takes_result(a, m),
        forall|reg: Register| reg_index(reg) < reg_index(m) ==> !takes_result(a, reg),
    decreases k,
{
    if k == 0 {
        w
    } else {
        let r = crate::riscv::meta::reg_of((k - 1) as nat);
        crate::riscv::meta::law_register_numbering(r, (k - 1) as nat);
        if takes_result(a, r) {
            lowest_index_from(a, r, k - 1)
        } else {
            lowest_index_from(a, w, k - 1)
        }
    }
}

/// Whether a slot holds the value itself rather than a pointer to it.
pub open spec fn same_level(a: u32, b: u32) -> bool {
    a == b
}

/// The code of load instruction `id`: reads `src` (a slot holding a value
/// of `size` bytes, or a pointer to one, as the pointer levels say; or a
/// global) into the lowest free register, stores it into a slot claimed for
/// `id`, and frees every register. The store builds a far address in that
/// same register.
pub fn load_asm(context: &mut FunctionContext, id: Value, src: Place, size: RV32Usize, src_level: u32, dst_level: u32) -> (r: Vec<RiscvAsm>)
    requires
        old(context).registers().wf(),
        exists|reg: Register| takes_result(*old(context), reg),
        place_ready(old(context).memory(), src, size),
        src_level == dst_level || dst_level + 1 == src_level,
        claimable(old(context).memory(), id, size),
    ensures
        exists|text: Seq<RiscvAsm>|
            #![trigger place_loaded(text, old(context).memory(), src, lowest_free(*old(context)), same_level(src_level, dst_level))]
            {
                let rd = lowest_free(*old(context));
                let off = sum_allocated(old(context).memory().calls()) + old(context).memory().frame().claimed();
                &&& place_loaded(text, old(context).memory(), src, rd, same_level(src_level, dst_level))
                &&& r@ == text + sw_text(rd, Register::Sp, off as i32, rd)
            },
        final(context).registers().wf(),
        final(context).registers().values() == Map::<Value, Set<Register>>::empty(),
        final(context).registers().usage() == Map::<Register, RegisterValue>::empty(),
        final(context).memory().wf(),
        claimed_into(old(context).memory().frame(), final(context).memory().frame(), id, size as int),
        final(context).memory().calls() == old(context).memory().calls(),
        final(context).memory().args() == old(context).memory().args(),
        final(context).labels() == old(context).labels(),
        final(context).name() == old(context).name(),
        final(context).params() == old(context).params(),
        final(context).id() == old(context).id(),
{
    let ghost c0 = *context;
    let (mut asms, rd) = load_place(context, &src, size, src_level, dst_level);
    let ghost c1 = *context;
    let ghost lt = asms@;
    proof {
        assert forall|reg: Register| takes_result(c0, reg) == takes_result(c1, reg) by {}
        lemma_same_lowest_free(c0, c1);
        let w = choose|reg: Register| takes_result(c0, reg);
        assert(takes_result(c1, w));
    }
    let mut code = store_result(context, rd, id, size);
    asms.append(&mut code);
    proof {
        assert(place_loaded(lt, c0.memory(), src, lowest_free(c0), same_level(src_level, dst_level)));
    }
    asms
}

/// The code of store instruction `id`: fetches `value`, writes it to `dest`
/// (a slot holding a value of `size` bytes, or a pointer to one, as the
/// pointer levels say; or a global) through the lowest free register, and
/// then no longer counts the fetched register as holding the value.
pub fn store_asm(context: &mut FunctionContext, id: Value, value: Operand, dest: Place, size: RV32Usize, src_level: u32, dst_level: u32) -> (r: Vec<RiscvAsm>)
    requires
        fetchable(*old(context), value),
        forall|c1: FunctionContext, t: Seq<RiscvAsm>, reg: Register|
            #[trigger] fetched(*old(context), value, c1, t, reg) ==> exists|free: Register| takes_result(c1, free),
        place_ready(old(context).memory(), dest, size),
        src_level == dst_level || src_level + 1 == dst_level,
    ensures
        exists|c1: FunctionContext, t: Seq<RiscvAsm>, reg: Register, st: Seq<RiscvAsm>|
            #![trigger fetched(*old(context), value, c1, t, reg), place_stored(st, old(context).memory(), dest, reg, lowest_free(c1), same_level(src_level, dst_level))]
            {
                &&& fetched(*old(context), value, c1, t, reg)
                &&& place_stored(st, old(context).memory(), dest, reg, lowest_free(c1), same_level(src_level, dst_level))
                &&& r@ == t + st
                &&& final(context).registers().values() == c1.registers().values().insert(value.value, held_by(c1.registers().values(), value.value).remove(reg))
                &&& final(context).registers().usage() == c1.registers().usage().remove(reg)
            },
        final(context).registers().wf(),
        final(context).memory() == old(context).memory(),
        final(context).labels() == old(context).labels(),
        final(context).name() == old(context).name(),
        final(context).params() == old(context).params(),
        final(context).id() == old(context).id(),
{
    let ghost c0 = *context;
    let (mut asms, reg) = get_value(context, &value);
    let ghost c1 = *context;
    let ghost t = asms@;
    proof {
        lemma_fetched_kept(c0, value, c1, t, reg);
        assert(fetched(c0, value, c1, t, reg));
    }
    let mut code = store_place(context, reg, &dest, id, size, src_level, dst_level);
    let ghost st = code@;
    context.register_mapper.remove(value.value, reg);
    asms.append(&mut code);
    proof {
        assert(place_stored(st, c0.memory(), dest, reg, lowest_free(c1), same_level(src_level, dst_level)));
    }
    asms
}

/// `call` calls the function named `name` (an IR name, with its sigil).
pub open spec fn calls_func(call: RiscvAsm, name: Seq<char>) -> bool {
    call matches RiscvAsm::Instruction(RiscvInstruction::Call { func: f }) && f@ == name.drop_first()
}

/// `after` is `before` with an empty call frame opened.
pub open spec fn call_opened(before: FunctionContext, after: FunctionContext) -> bool {
    &&& after.registers() == before.registers()
    &&& after.labels() == before.labels()
    &&& after.name() == before.name()
    &&& after.params() == before.params()
    &&& after.id() == before.id()
    &&& after.memory().wf()
    &&& after.memory().calls().len() == before.memory().calls().len() + 1
    &&& after.memory().calls().drop_last() == before.memory().calls()
    &&& fresh(after.memory().calls().last())
    &&& after.memory().frame() == before.memory().frame()
    &&& after.memory().args() == before.memory().args()
}

/// With every register free, `t0` is the lowest that may take a result.
proof fn lemma_t0_free(ctx: FunctionContext)
    requires
        ctx.registers().usage() == Map::<Register, RegisterValue>::empty(),
    ensures
        takes_result(ctx, Register::T0),
        lowest_free(ctx) == Register::T0,
{
    assert(takes_result(ctx, Register::T0));
    assert forall|reg: Register| reg_index(reg) < reg_index(Register::T0) implies !takes_result(ctx, reg) by {
        crate::riscv::meta::law_register_numbering(reg, 0);
    }
    lemma_lowest_free(ctx, Register::T0);
}

/// The code of call instruction `id` to the function named `callee` (its
/// IR name, with its sigil): opens a call frame, sets up the arguments (see
/// [`call_setup_asm`]), frees every register, calls, gives the call frame
/// back and closes it; a result (`has_result`) is then stored from `a0` into a
/// slot of `ret_size` bytes claimed for `id`.
pub fn call_asm(
    context: &mut FunctionContext,
    id: Value,
    callee: &String,
    args: &[Operand],
    sizes: &[RV32Usize],
    has_result: bool,
    ret_size: RV32Usize,
) -> (r: Vec<RiscvAsm>)
    requires
        sigil_name(callee@),
        args@.len() == sizes@.len(),
        forall|i: int| 0 <= i < args@.len() ==> #[trigger] args@[i].size == sizes@[i],
        old(context).registers().wf(),
        old(context).memory().wf(),
        align_up(stacked_total(sizes@)) <= i32::MAX,
        forall|c: FunctionContext, c0: FunctionContext|
            #[trigger] call_opened(*old(context), c) && #[trigger] call_frame_built(c, sizes@, c0) ==> can_pass(c0, args@, 0),
        has_result ==> claimable(old(context).memory(), id, ret_size),
    ensures
        exists|c: FunctionContext, c_set: FunctionContext, setup: Seq<RiscvAsm>, call: RiscvAsm|
            #![trigger call_opened(*old(context), c), set_up(c, args@, sizes@, c_set, setup), calls_func(call, callee@)]
            {
                let off = sum_allocated(old(context).memory().calls()) + old(context).memory().frame().claimed();
                &&& call_opened(*old(context), c)
                &&& set_up(c, args@, sizes@, c_set, setup)
                &&& calls_func(call, callee@)
                &&& r@ == setup + seq![call] + shrink_text(c_set.memory().calls().last().allocated() as int)
                    + if has_result { sw_text(Register::A0, Register::Sp, off as i32, Register::T0) } else { Seq::empty() }
            },
        final(context).registers().wf(),
        final(context).registers().usage() == Map::<Register, RegisterValue>::empty(),
        final(context).memory().wf(),
        final(context).memory().calls() == old(context).memory().calls(),
        final(context).memory().args() == old(context).memory().args(),
        has_result ==> claimed_into(old(context).memory().frame(), final(context).memory().frame(), id, ret_size as int),
        !has_result ==> final(context).memory().frame() == old(context).memory().frame(),
        final(context).labels() == old(context).labels(),
        final(context).name() == old(context).name(),
        final(context).params() == old(context).params(),
        final(context).id() == old(context).id(),
{
    context.memory_mapper.new_function_call();
    let ghost c = *context;
    proof {
        assert(call_opened(*old(context), c));
        assert(c.memory().calls().last().reserved() + stacked_total(sizes@) == stacked_total(sizes@));
    }
    let mut asms = call_setup_asm(context, args, sizes);
    let ghost c_set = *context;
    let ghost setup = asms@;
    context.register_mapper.clear();
    let name = callee.as_str();
    let len = name.unicode_len();
    let short = name.substring_char(1, len);
    let call = call_instruction(short);
    let ghost the_call = call;
    asms.push(call);
    let mut back = context.memory_mapper.function_resume();
    asms.append(&mut back);
    context.memory_mapper.end_function_call();
    proof {
        assert(context.memory().calls() =~= old(context).memory().calls());
        assert(asms@ =~= setup + seq![the_call] + shrink_text(c_set.memory().calls().last().allocated() as int));
    }
    if has_result {
        proof {
            lemma_t0_free(*context);
            lemma_sum_allocated_nonneg(context.memory().calls());
        }
        let ghost before_store = asms@;
        let stored = store_to_local(Register::A0, id, context, Some(id), true, ret_size, 0, 0);
        proof {
            assert(slot_of(context.memory(), id) == Some(sum_allocated(old(context).memory().calls()) + old(context).memory().frame().claimed()));
        }
        match stored {
            Ok(mut code) => {
                asms.append(&mut code);
            },
            Err(_) => {
                proof {
                    assert(false);
                }
            },
        }
    }
    proof {
        assert(set_up(c, args@, sizes@, c_set, setup));
        assert(calls_func(the_call, callee@));
    }
    asms
}

/// The move of a returned value into `a0`: none when one of the registers
/// holding it is `a0`, else from `reg`.
pub open spec fn return_head(holding: Set<Register>, reg: Register) -> Seq<RiscvAsm> {
    if holding.contains(Register::A0) {
        Seq::empty()
    } else {
        seq![RiscvAsm::Instruction(RiscvInstruction::Mv { dest: Register::A0, src: reg })]
    }
}

/// The end of a function with frame as in `mem`: reloads `ra`, frees the
/// frame, and returns.
pub open spec fn epilogue_text(mem: MemoryMapper) -> Seq<RiscvAsm> {
    let frame = mem.frame();
    load_ra_text((((frame.reserved() - frame.meta()) as RV32Usize) as i32) as int) + shrink_text(frame.allocated() as int)
        + seq![RiscvAsm::Instruction(RiscvInstruction::Ret)]
}

/// The code of return instruction `id`: fetches the returned value, if
/// any, moves it into `a0` unless a register holding it is `a0`, and ends
/// the function (see [`return_asm`]). No call may be in set-up.
pub fn return_value_asm(context: &mut FunctionContext, value: Option<Operand>, id: Value) -> (r: Vec<RiscvAsm>)
    requires
        old(context).registers().wf(),
        old(context).memory().wf(),
        old(context).memory().calls().len() == 0,
        old(context).memory().frame().meta() <= old(context).memory().frame().reserved(),
        value matches Some(op) ==> fetchable(*old(context), op),
    ensures
        value is None ==> r@ == epilogue_text(old(context).memory()),
        value matches Some(op) ==> exists|c1: FunctionContext, t: Seq<RiscvAsm>, reg: Register|
            #[trigger] fetched(*old(context), op, c1, t, reg) && {
                let held = held_by(old(context).registers().values(), op.value);
                let holding = if held.is_empty() { set![reg] } else { held };
                r@ == t + return_head(holding, reg) + epilogue_text(old(context).memory())
            },
        final(context).registers().wf(),
        final(context).registers().values() == Map::<Value, Set<Register>>::empty(),
        final(context).registers().usage() == Map::<Register, RegisterValue>::empty(),
        final(context).memory() == old(context).memory(),
        final(context).labels() == old(context).labels(),
        final(context).name() == old(context).name(),
        final(context).params() == old(context).params(),
        final(context).id() == old(context).id(),
{
    let ghost c0 = *context;
    match value {
        None => return_asm(context, None, id),
        Some(op) => match context.register_mapper.get_by_value(&op.value) {
            Some(regs) => {
                let ghost reg = regs@[0];
                proof {
                    assert(regs@.to_set().contains(reg));
                    assert(regs@.contains(Register::A0) == regs@.to_set().contains(Register::A0));
                    reveal(fetched);
                    assert(fetched(c0, op, c0, Seq::empty(), reg));
                }
                let asms = return_asm(context, Some(regs), id);
                proof {
                    assert(asms@ =~= Seq::<RiscvAsm>::empty() + return_head(held_by(c0.registers().values(), op.value), reg) + epilogue_text(c0.memory()));
                }
                asms
            },
            None => {
                let (mut code, reg) = get_value(context, &op);
                let ghost c1 = *context;
                let ghost t = code@;
                proof {
                    lemma_fetched_kept(c0, op, c1, t, reg);
                }
                let mut regs: Vec<Register> = Vec::new();
                regs.push(reg);
                let mut rest = return_asm(context, Some(regs), id);
                code.append(&mut rest);
                proof {
                    assert(regs@.contains(Register::A0) == set![reg].contains(Register::A0)) by {
                        if regs@.contains(Register::A0) {
                            assert(regs@[0] == Register::A0);
                        }
                        if reg == Register::A0 {
                            assert(regs@[0] == Register::A0);
                        }
                    }
                    assert(code@ =~= t + return_head(set![reg], reg) + epilogue_text(c0.memory()));
                    assert(fetched(c0, op, c1, t, reg));
                }
                code
            },
        },
    }
}

/// The code of a branch on `cond`: fetches it, goes to `true_bb` when it is
/// not zero and to `false_bb` otherwise (see [`branch_asm`]), and then no
/// longer counts the fetched register as holding it.
pub fn branch_value_asm(context: &mut FunctionContext, cond: Operand, true_bb: BasicBlock, false_bb: BasicBlock) -> (r: Vec<RiscvAsm>)
    requires
        fetchable(*old(context), cond),
        has_label(*old(context), true_bb),
        has_label(*old(context), false_bb),
    ensures
        exists|c1: FunctionContext, t: Seq<RiscvAsm>, reg: Register|
            #[trigger] fetched(*old(context), cond, c1, t, reg) && {
                &&& r@.len() == t.len() + 2
                &&& r@.take(t.len() as int) == t
                &&& r@[t.len() as int] matches RiscvAsm::Instruction(RiscvInstruction::Bnez { src, label })
                    && src == reg && label@ == label_of(*old(context), true_bb)
                &&& r@[t.len() as int + 1] matches RiscvAsm::Instruction(RiscvInstruction::J { label }) && label@ == label_of(*old(context), false_bb)
                &&& final(context).registers().values() == c1.registers().values().insert(cond.value, held_by(c1.registers().values(), cond.value).remove(reg))
                &&& final(context).registers().usage() == c1.registers().usage().remove(reg)
            },
        final(context).registers().wf(),
        final(context).memory() == old(context).memory(),
        final(context).labels() == old(context).labels(),
        final(context).name() == old(context).name(),
        final(context).params() == old(context).params(),
        final(context).id() == old(context).id(),
{
    let ghost c0 = *context;
    let (mut code, reg) = get_value(context, &cond);
    let ghost c1 = *context;
    let ghost t = code@;
    proof {
        lemma_fetched_kept(c0, cond, c1, t, reg);
        assert(label_of(c1, true_bb) == label_of(c0, true_bb));
        assert(label_of(c1, false_bb) == label_of(c0, false_bb));
    }
    let mut jump = branch_asm(context, cond.value, reg, true_bb, false_bb);
    code.append(&mut jump);
    proof {
        assert(code@.take(t.len() as int) =~= t);
        assert(fetched(c0, cond, c1, t, reg));
    }
    code
}

} // verus!
