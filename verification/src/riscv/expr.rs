//! Lowering single IR instructions: choosing their registers and emitting
//! their code.
use vstd::prelude::*;

use koopa::ir::{BasicBlock, Value};

use crate::riscv::context::{has_label, label_of, FunctionContext};
use crate::riscv::inst::{
    add_instruction, add_lw_instruction, and_instruction, bnez_instruction, dest_recorded,
    div_instruction, imm_num, j_instruction, li_instruction, mul_instruction, mv_instruction,
    or_instruction, rem_instruction, ret_instruction, seqz_instruction, sgt_instruction,
    slt_instruction, snez_instruction, sub_instruction, xor_instruction, InstContext,
};
use crate::riscv::meta::{
    directly_usable, fits_imm12, law_register_numbering, reg_index, reg_of, RV32Imm, RV32Imm12,
    RV32Usize, Register, RiscvAsm, RiscvInstruction,
};
use crate::riscv::regmap::{held_by, RegisterValue};
use crate::riscv::stack::{claimed_into, lemma_reserved_fits, shrink_text, sum_allocated, ArgLocation};

verus! {

/// Whether `r` is not one of the first `count` argument registers (`a0`
/// onwards, at most eight of them).
pub open spec fn outside_params(count: u8, r: Register) -> bool {
    let n: int = if count < 8 { count as int } else { 8 };
    reg_index(r) < 10 || reg_index(r) >= 10 + n
}

/// A filter that keeps the registers that do not carry one of the first
/// `count` arguments.
pub fn get_param_registers_filter(count: u8) -> (f: impl Fn(&Register) -> bool)
    ensures
        forall|r: &Register| #[trigger] f.requires((r,)),
        forall|r: &Register, b: bool| f.ensures((r,), b) ==> b == outside_params(count, *r),
{
    let n: u8 = if count < 8 { count } else { 8 };
    move |r: &Register| -> (b: bool)
        ensures
            b == outside_params(count, *r),
        {
            let i = r.index();
            i < 10 || i >= 10 + n
        }
}

/// Whether `r` may take a new result in the function of `ctx`: it is free,
/// caller-saved and usable, and carries none of the parameters.
pub open spec fn takes_result(ctx: FunctionContext, r: Register) -> bool {
    let count: u8 = if ctx.params() < 8 { ctx.params() as u8 } else { 8 };
    &&& !ctx.registers().usage().dom().contains(r)
    &&& directly_usable(r)
    &&& outside_params(count, r)
}

/// The lowest-numbered register that may take a new result. One must be
/// available.
pub fn obtain_caller_directly_usable_register(context: &FunctionContext) -> (r: Register)
    requires
        context.registers().wf(),
        exists|reg: Register| takes_result(*context, reg),
    ensures
        takes_result(*context, r),
        forall|reg: Register| reg_index(reg) < reg_index(r) ==> !takes_result(*context, reg),
{
    let param_count: u8 = if context.param_count() < 8 { context.param_count() as u8 } else { 8 };
    let available = context.register_mapper.get_available_registers_filtered(|reg: &Register| -> (b: bool)
        ensures
            b == (directly_usable(*reg) && outside_params(param_count, *reg)),
        {
            let i = reg.index();
            reg.caller_directly_usable() && (i < 10 || i >= 10 + param_count)
        });
    proof {
        let w = choose|reg: Register| takes_result(*context, reg);
        if !available@.contains(w) {
            assert(false);
        }
    }
    let r = available[0];
    proof {
        assert forall|reg: Register| reg_index(reg) < reg_index(r) implies !takes_result(*context, reg) by {
            if takes_result(*context, reg) {
                assert(available@.contains(reg));
                let k = choose|k: int| 0 <= k < available@.len() && available@[k] == reg;
                if k > 0 {
                    assert(reg_index(available@[0]) < reg_index(available@[k]));
                }
            }
        }
    }
    r
}

/// The lowest-numbered register that may take a new result.
pub open spec fn lowest_free(ctx: FunctionContext) -> Register {
    choose|r: Register| takes_result(ctx, r) && forall|reg: Register| reg_index(reg) < reg_index(r) ==> !takes_result(ctx, reg)
}

/// At most one register is the lowest that may take a result.
pub(crate) proof fn lemma_lowest_free(ctx: FunctionContext, r: Register)
    requires
        takes_result(ctx, r),
        forall|reg: Register| reg_index(reg) < reg_index(r) ==> !takes_result(ctx, reg),
    ensures
        lowest_free(ctx) == r,
{
    let l = lowest_free(ctx);
    law_register_numbering(l, 0);
    law_register_numbering(r, 0);
    assert(reg_index(l) == reg_index(r));
}

/// The binary operators of the IR.
#[derive(Debug, Clone, Copy, PartialEq, Eq, Structural)]
pub enum BinaryOp {
    NotEq,
    Eq,
    Gt,
    Lt,
    Ge,
    Le,
    Add,
    Sub,
    Mul,
    Div,
    Mod,
    And,
    Or,
    Xor,
    Shl,
    Shr,
    Sar,
}

/// The operators the back end lowers (all but the shifts).
pub open spec fn lowered(op: BinaryOp) -> bool {
    !(op is Shl || op is Shr || op is Sar)
}

/// The operators that compute into a register of their own rather than into
/// the left operand's: comparisons for (in)equality and `>=`, `<=`.
pub open spec fn own_destination(op: BinaryOp) -> bool {
    op is Eq || op is NotEq || op is Ge || op is Le
}

/// The register that receives the result: the left operand's when the
/// operator computes in place and that register is freely usable, else the
/// lowest free one.
pub open spec fn result_register(ctx: FunctionContext, op: BinaryOp, lhs: Register) -> Register {
    if !own_destination(op) && directly_usable(lhs) {
        lhs
    } else {
        lowest_free(ctx)
    }
}

/// The instruction `dest = lhs op rhs` for the operators that compute in
/// place.
pub open spec fn in_place(op: BinaryOp, dest: Register, lhs: Register, rhs: Register) -> RiscvInstruction {
    match op {
        BinaryOp::Sub => RiscvInstruction::Sub { dest, src1: lhs, src2: rhs },
        BinaryOp::Mul => RiscvInstruction::Mul { dest, src1: lhs, src2: rhs },
        BinaryOp::Div => RiscvInstruction::Div { dest, src1: lhs, src2: rhs },
        BinaryOp::Mod => RiscvInstruction::Mod { dest, src1: lhs, src2: rhs },
        BinaryOp::And => RiscvInstruction::And { dest, src1: lhs, src2: rhs },
        BinaryOp::Or => RiscvInstruction::Or { dest, src1: lhs, src2: rhs },
        BinaryOp::Xor => RiscvInstruction::Xor { dest, src1: lhs, src2: rhs },
        BinaryOp::Gt => RiscvInstruction::Sgt { dest, src1: lhs, src2: rhs },
        BinaryOp::Lt => RiscvInstruction::Slt { dest, src1: lhs, src2: rhs },
        _ => RiscvInstruction::Add { dest, src1: lhs, src2: rhs },
    }
}

/// The code computing `lhs op rhs` into `rd`. Equality against `zero` is a
/// single `seqz`/`snez`; otherwise the operands are compared with `xor`,
/// which overwrites `lhs`. `>=` and `<=` negate `<` and `>`.
pub open spec fn binary_text(op: BinaryOp, lhs: Register, rhs: Register, rd: Register) -> Seq<RiscvAsm> {
    match op {
        BinaryOp::Eq | BinaryOp::NotEq => {
            let test = |src: Register| if op is Eq {
                RiscvAsm::Instruction(RiscvInstruction::Seqz { dest: rd, src })
            } else {
                RiscvAsm::Instruction(RiscvInstruction::Snez { dest: rd, src })
            };
            if rhs == Register::Zero {
                seq![test(lhs)]
            } else if lhs == Register::Zero {
                seq![test(rhs)]
            } else {
                seq![RiscvAsm::Instruction(RiscvInstruction::Xor { dest: lhs, src1: lhs, src2: rhs }), test(lhs)]
            }
        },
        BinaryOp::Ge => seq![
            RiscvAsm::Instruction(RiscvInstruction::Slt { dest: rd, src1: lhs, src2: rhs }),
            RiscvAsm::Instruction(RiscvInstruction::Seqz { dest: rd, src: rd }),
        ],
        BinaryOp::Le => seq![
            RiscvAsm::Instruction(RiscvInstruction::Sgt { dest: rd, src1: lhs, src2: rhs }),
            RiscvAsm::Instruction(RiscvInstruction::Seqz { dest: rd, src: rd }),
        ],
        _ => seq![RiscvAsm::Instruction(in_place(op, rd, lhs, rhs))],
    }
}

/// Emits `dest = lhs op rhs` for an operator that computes in place, into
/// the left operand's register when it is freely usable, else into the
/// lowest free register; records the destination as holding `id`.
fn binary_op_helper(
    op: BinaryOp,
    lhs_reg: Register,
    rhs_reg: Register,
    context: &mut FunctionContext,
    id: Value,
    asms: &mut Vec<RiscvAsm>,
) -> (rd: Register)
    requires
        !own_destination(op),
        lowered(op),
        old(context).registers().wf(),
        !directly_usable(lhs_reg) ==> exists|reg: Register| takes_result(*old(context), reg),
    ensures
        rd == result_register(*old(context), op, lhs_reg),
        final(asms)@ == old(asms)@ + binary_text(op, lhs_reg, rhs_reg, rd),
        dest_recorded(old(context).registers(), final(context).registers(), rd, id),
        final(context).memory() == old(context).memory(),
        final(context).labels() == old(context).labels(),
        final(context).name() == old(context).name(),
        final(context).params() == old(context).params(),
        final(context).id() == old(context).id(),
{
    let rd = if lhs_reg.caller_directly_usable() {
        lhs_reg
    } else {
        let r = obtain_caller_directly_usable_register(context);
        proof {
            lemma_lowest_free(*context, r);
        }
        r
    };
    let ctx = Some(InstContext::new(&mut context.register_mapper, id));
    let inst = match op {
        BinaryOp::Sub => sub_instruction(rd, lhs_reg, rhs_reg, ctx),
        BinaryOp::Mul => mul_instruction(rd, lhs_reg, rhs_reg, ctx),
        BinaryOp::Div => div_instruction(rd, lhs_reg, rhs_reg, ctx),
        BinaryOp::Mod => rem_instruction(rd, lhs_reg, rhs_reg, ctx),
        BinaryOp::And => and_instruction(rd, lhs_reg, rhs_reg, ctx),
        BinaryOp::Or => or_instruction(rd, lhs_reg, rhs_reg, ctx),
        BinaryOp::Xor => xor_instruction(rd, lhs_reg, rhs_reg, ctx),
        BinaryOp::Gt => sgt_instruction(rd, lhs_reg, rhs_reg, ctx),
        BinaryOp::Lt => slt_instruction(rd, lhs_reg, rhs_reg, ctx),
        _ => add_instruction(rd, lhs_reg, rhs_reg, ctx),
    };
    asms.push(inst);
    rd
}

/// Emits the code of `lhs op rhs` for an IR binary instruction `id` whose
/// operands are in `lhs_reg` and `rhs_reg`; returns the register that holds
/// the result, which is recorded as holding `id`. Shifts are not lowered.
pub fn binary_op_asm(
    op: BinaryOp,
    lhs_reg: Register,
    rhs_reg: Register,
    context: &mut FunctionContext,
    id: Value,
    asms: &mut Vec<RiscvAsm>,
) -> (rd: Register)
    requires
        lowered(op),
        old(context).registers().wf(),
        own_destination(op) || !directly_usable(lhs_reg) ==> exists|reg: Register| takes_result(*old(context), reg),
    ensures
        rd == result_register(*old(context), op, lhs_reg),
        final(asms)@ == old(asms)@ + binary_text(op, lhs_reg, rhs_reg, rd),
        dest_recorded(old(context).registers(), final(context).registers(), rd, id),
        final(context).memory() == old(context).memory(),
        final(context).labels() == old(context).labels(),
        final(context).name() == old(context).name(),
        final(context).params() == old(context).params(),
        final(context).id() == old(context).id(),
{
    match op {
        BinaryOp::Eq | BinaryOp::NotEq => {
            let rd = obtain_caller_directly_usable_register(context);
            proof {
                lemma_lowest_free(*context, rd);
            }
            let is_eq = match op {
                BinaryOp::Eq => true,
                _ => false,
            };
            let src = if rhs_reg == Register::Zero {
                lhs_reg
            } else if lhs_reg == Register::Zero {
                rhs_reg
            } else {
                asms.push(xor_instruction(lhs_reg, lhs_reg, rhs_reg, None));
                lhs_reg
            };
            let ctx = Some(InstContext::new(&mut context.register_mapper, id));
            if is_eq {
                asms.push(seqz_instruction(rd, src, ctx));
            } else {
                asms.push(snez_instruction(rd, src, ctx));
            }
            assert(final(asms)@ =~= old(asms)@ + binary_text(op, lhs_reg, rhs_reg, rd));
            rd
        },
        BinaryOp::Ge | BinaryOp::Le => {
            let rd = obtain_caller_directly_usable_register(context);
            proof {
                lemma_lowest_free(*context, rd);
            }
            match op {
                BinaryOp::Ge => asms.push(slt_instruction(rd, lhs_reg, rhs_reg, None)),
                _ => asms.push(sgt_instruction(rd, lhs_reg, rhs_reg, None)),
            }
            let ctx = Some(InstContext::new(&mut context.register_mapper, id));
            asms.push(seqz_instruction(rd, rd, ctx));
            assert(final(asms)@ =~= old(asms)@ + binary_text(op, lhs_reg, rhs_reg, rd));
            rd
        },
        _ => binary_op_helper(op, lhs_reg, rhs_reg, context, id, asms),
    }
}

/// Loads a constant into the lowest free register, which is recorded as
/// holding `id`.
pub fn integer_asm(context: &mut FunctionContext, value: i32, id: Value) -> (r: Vec<RiscvAsm>)
    requires
        old(context).registers().wf(),
        exists|reg: Register| takes_result(*old(context), reg),
    ensures
        r@ == seq![RiscvAsm::Instruction(RiscvInstruction::Li { dest: lowest_free(*old(context)), imm: RV32Imm::Num(value) })],
        dest_recorded(old(context).registers(), final(context).registers(), lowest_free(*old(context)), id),
        final(context).memory() == old(context).memory(),
        final(context).labels() == old(context).labels(),
        final(context).name() == old(context).name(),
        final(context).params() == old(context).params(),
        final(context).id() == old(context).id(),
{
    let rd = obtain_caller_directly_usable_register(context);
    proof {
        lemma_lowest_free(*context, rd);
    }
    let mut asms: Vec<RiscvAsm> = Vec::new();
    asms.push(li_instruction(rd, value, Some(InstContext::new(&mut context.register_mapper, id))));
    asms
}

/// The instructions that reload `ra` from `offset` from `sp`.
pub open spec fn load_ra_text(offset: int) -> Seq<RiscvAsm> {
    if fits_imm12(offset) {
        seq![RiscvAsm::Instruction(RiscvInstruction::Lw { dest: Register::Ra, base: Register::Sp, offset: RV32Imm12::Num(offset as i16) })]
    } else {
        seq![
            RiscvAsm::Instruction(RiscvInstruction::Li { dest: Register::T1, imm: RV32Imm::Num(offset as i32) }),
            RiscvAsm::Instruction(RiscvInstruction::Add { dest: Register::T1, src1: Register::Sp, src2: Register::T1 }),
            RiscvAsm::Instruction(RiscvInstruction::Lw { dest: Register::Ra, base: Register::T1, offset: RV32Imm12::Num(0) }),
        ]
    }
}

/// A return: moves the value into `a0` unless one of its registers is `a0`,
/// reloads `ra`, frees the frame, forgets all registers, and returns. A
/// returned value must be in at least one register.
pub fn return_asm(context: &mut FunctionContext, value: Option<Vec<Register>>, id: Value) -> (r: Vec<RiscvAsm>)
    requires
        old(context).registers().wf(),
        old(context).memory().wf(),
        old(context).memory().calls().len() == 0,
        old(context).memory().frame().meta() <= old(context).memory().frame().reserved(),
        value matches Some(regs) ==> regs@.len() > 0,
    ensures
        ({
            let frame = old(context).memory().frame();
            let offset = ((frame.reserved() - frame.meta()) as RV32Usize) as i32;
            let head = match value {
                Some(regs) => if regs@.contains(Register::A0) {
                    Seq::empty()
                } else {
                    seq![RiscvAsm::Instruction(RiscvInstruction::Mv { dest: Register::A0, src: regs@[0] })]
                },
                None => Seq::empty(),
            };
            r@ == head + load_ra_text(offset as int) + shrink_text(frame.allocated() as int) + seq![RiscvAsm::Instruction(RiscvInstruction::Ret)]
        }),
        final(context).registers().wf(),
        final(context).registers().values() == Map::<Value, Set<Register>>::empty(),
        final(context).registers().usage() == Map::<Register, RegisterValue>::empty(),
        final(context).memory() == old(context).memory(),
        final(context).labels() == old(context).labels(),
        final(context).name() == old(context).name(),
        final(context).params() == old(context).params(),
        final(context).id() == old(context).id(),
{
    let mut asms: Vec<RiscvAsm> = Vec::new();
    match &value {
        Some(regs) => {
            let mut has_a0 = false;
            let mut i: usize = 0;
            while i < regs.len()
                invariant
                    i <= regs@.len(),
                    has_a0 == (exists|k: int| 0 <= k < i && regs@[k] == Register::A0),
                decreases regs.len() - i,
            {
                if regs[i] == Register::A0 {
                    has_a0 = true;
                }
                i = i + 1;
            }
            if !has_a0 {
                asms.push(mv_instruction(Register::A0, regs[0], Some(InstContext::new(&mut context.register_mapper, id))));
            }
        },
        None => {},
    }
    proof {
        lemma_reserved_fits(context.memory().frame());
    }
    let offset = context.memory_mapper.meta_offset();
    let mut load = add_lw_instruction(Register::Ra, Register::Sp, RV32Imm::new(offset as i32), None, Some(Register::T1));
    asms.append(&mut load);
    let mut resume = context.memory_mapper.stack_resume();
    asms.append(&mut resume);
    context.register_mapper.clear();
    asms.push(ret_instruction());
    asms
}

/// An allocation: claims `size` bytes of the frame for `id`; no code.
pub fn alloc_asm(context: &mut FunctionContext, id: Value, size: RV32Usize) -> (r: Vec<RiscvAsm>)
    requires
        old(context).memory().wf(),
        !old(context).memory().frame().offsets().dom().contains(id),
        old(context).memory().frame().claimed() + size + old(context).memory().frame().meta() <= old(context).memory().frame().allocated(),
    ensures
        r@.len() == 0,
        final(context).memory().wf(),
        claimed_into(old(context).memory().frame(), final(context).memory().frame(), id, size as int),
        final(context).memory().calls() == old(context).memory().calls(),
        final(context).memory().args() == old(context).memory().args(),
        final(context).registers() == old(context).registers(),
        final(context).labels() == old(context).labels(),
{
    context.memory_mapper.stack_claim(id, size);
    Vec::new()
}

/// A jump to `target`.
pub fn jump_asm(context: &FunctionContext, target: BasicBlock) -> (r: Vec<RiscvAsm>)
    requires
        has_label(*context, target),
    ensures
        r@.len() == 1,
        r@[0] matches RiscvAsm::Instruction(RiscvInstruction::J { label }) && label@ == label_of(*context, target),
{
    let label = context.get_label(target);
    let mut asms: Vec<RiscvAsm> = Vec::new();
    asms.push(j_instruction(label.as_str()));
    asms
}

/// A branch on `cond`, held in `cond_reg`: to `true_bb` when it is not
/// zero, else to `false_bb`. The register is then dropped from the value.
pub fn branch_asm(
    context: &mut FunctionContext,
    cond: Value,
    cond_reg: Register,
    true_bb: BasicBlock,
    false_bb: BasicBlock,
) -> (r: Vec<RiscvAsm>)
    requires
        old(context).registers().wf(),
        has_label(*old(context), true_bb),
        has_label(*old(context), false_bb),
    ensures
        r@.len() == 2,
        r@[0] matches RiscvAsm::Instruction(RiscvInstruction::Bnez { src, label }) && src == cond_reg && label@ == label_of(*old(context), true_bb),
        r@[1] matches RiscvAsm::Instruction(RiscvInstruction::J { label }) && label@ == label_of(*old(context), false_bb),
        final(context).registers().wf(),
        final(context).registers().values() == old(context).registers().values().insert(cond, held_by(old(context).registers().values(), cond).remove(cond_reg)),
        final(context).registers().usage() == old(context).registers().usage().remove(cond_reg),
        final(context).memory() == old(context).memory(),
        final(context).labels() == old(context).labels(),
        final(context).name() == old(context).name(),
        final(context).params() == old(context).params(),
        final(context).id() == old(context).id(),
{
    let true_label = context.get_label(true_bb);
    let false_label = context.get_label(false_bb);
    let mut asms: Vec<RiscvAsm> = Vec::new();
    asms.push(bnez_instruction(cond_reg, true_label.as_str()));
    asms.push(j_instruction(false_label.as_str()));
    context.register_mapper.remove(cond, cond_reg);
    asms
}

/// Argument `index` of the function, as IR value `id`: one in a register is
/// recorded there; one on the stack is loaded into the lowest free register.
/// The argument must be registered.
pub fn func_arg_asm(context: &mut FunctionContext, index: usize, size: RV32Usize, id: Value) -> (r: Vec<RiscvAsm>)
    requires
        old(context).registers().wf(),
        old(context).memory().wf(),
        index < 8 || index < old(context).memory().args().count(),
        8 <= index < old(context).memory().args().count() ==> {
            &&& old(context).memory().args().stacked()[index - 8] + size <= old(context).memory().args().total()
            &&& old(context).memory().args().stacked()[index - 8] + old(context).memory().frame().allocated() + sum_allocated(old(context).memory().calls()) <= RV32Usize::MAX
            &&& exists|reg: Register| takes_result(*old(context), reg)
        },
    ensures
        index < 8 ==> r@.len() == 0 && dest_recorded(old(context).registers(), final(context).registers(), reg_of((10 + index) as nat), id),
        index >= 8 ==> {
            let offset = (old(context).memory().args().stacked()[index - 8] + old(context).memory().frame().allocated() + sum_allocated(old(context).memory().calls())) as RV32Usize;
            let dest = lowest_free(*old(context));
            &&& dest_recorded(old(context).registers(), final(context).registers(), dest, id)
            &&& fits_imm12((offset as i32) as int) ==> r@ == seq![
                RiscvAsm::Instruction(RiscvInstruction::Lw { dest, base: Register::Sp, offset: RV32Imm12::Num((offset as i32) as i16) }),
            ]
            &&& !fits_imm12((offset as i32) as int) ==> r@ == seq![
                RiscvAsm::Instruction(RiscvInstruction::Li { dest, imm: RV32Imm::Num(offset as i32) }),
                RiscvAsm::Instruction(RiscvInstruction::Add { dest, src1: Register::Sp, src2: dest }),
                RiscvAsm::Instruction(RiscvInstruction::Lw { dest, base: dest, offset: RV32Imm12::Num(0) }),
            ]
        },
        final(context).memory() == old(context).memory(),
        final(context).labels() == old(context).labels(),
        final(context).name() == old(context).name(),
        final(context).params() == old(context).params(),
        final(context).id() == old(context).id(),
{
    match context.memory_mapper.get_arg(index, size) {
        Some(ArgLocation::Register(reg)) => {
            let ghost before = context.registers();
            context.register_mapper.remove_by_register(reg);
            context.register_mapper.insert(RegisterValue::InstRet(id), reg);
            assert(context.registers().usage() =~= before.usage().insert(reg, RegisterValue::InstRet(id)));
            Vec::new()
        },
        Some(ArgLocation::Stack(offset)) => {
            let reg = obtain_caller_directly_usable_register(context);
            proof {
                lemma_lowest_free(*context, reg);
            }
            let asms = add_lw_instruction(reg, Register::Sp, RV32Imm::new(offset as i32), Some(InstContext::new(&mut context.register_mapper, id)), Some(reg));
            proof {
                assert(imm_num(RV32Imm::Num(offset as i32)) == (offset as i32) as int);
            }
            asms
        },
        None => Vec::new(),
    }
}

} // verus!
