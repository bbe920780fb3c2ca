//! What IR binary operations compute, and what RV32IM instructions do to
//! the registers, so that the code of each operation can be held to its
//! meaning.
use vstd::prelude::*;

use crate::ir::expr::{trunc_div, trunc_rem};
use crate::riscv::expr::{binary_text, lowered, BinaryOp};
use crate::riscv::context::FunctionContext;
use crate::riscv::lower::{lw_text, passed, return_head, sw_text, Operand};
use crate::riscv::meta::{fits_imm12, reg_name, reg_of, RV32Imm, RV32Imm12, Register, RiscvAsm, RiscvInstruction};

verus! {

/// The value of the IR operation `a op b` on `i32` operands: comparisons give
/// 1 or 0, arithmetic wraps around on overflow, division and remainder round
/// toward zero. `None` for a division by zero and for the shifts.
pub open spec fn ir_binary_value(op: BinaryOp, a: i32, b: i32) -> Option<i32> {
    match op {
        BinaryOp::NotEq => Some(if a != b { 1i32 } else { 0i32 }),
        BinaryOp::Eq => Some(if a == b { 1i32 } else { 0i32 }),
        BinaryOp::Gt => Some(if a > b { 1i32 } else { 0i32 }),
        BinaryOp::Lt => Some(if a < b { 1i32 } else { 0i32 }),
        BinaryOp::Ge => Some(if a >= b { 1i32 } else { 0i32 }),
        BinaryOp::Le => Some(if a <= b { 1i32 } else { 0i32 }),
        BinaryOp::Add => Some((a + b) as i32),
        BinaryOp::Sub => Some((a - b) as i32),
        BinaryOp::Mul => Some((a * b) as i32),
        BinaryOp::Div => if b == 0 { None } else { Some(trunc_div(a as int, b as int) as i32) },
        BinaryOp::Mod => if b == 0 { None } else { Some(trunc_rem(a as int, b as int) as i32) },
        BinaryOp::And => Some(a & b),
        BinaryOp::Or => Some(a | b),
        BinaryOp::Xor => Some(a ^ b),
        BinaryOp::Shl | BinaryOp::Shr | BinaryOp::Sar => None,
    }
}

/// The registers and what they hold.
pub type Regs = Map<Register, i32>;

/// What a register reads: `zero` always reads 0.
pub open spec fn read(regs: Regs, r: Register) -> i32 {
    if r is Zero {
        0
    } else {
        regs[r]
    }
}

/// Writes `v` to `r`; a write to `zero` is lost.
pub open spec fn write(regs: Regs, r: Register, v: i32) -> Regs {
    if r is Zero {
        regs
    } else {
        regs.insert(r, v)
    }
}

pub open spec fn flag(b: bool) -> i32 {
    if b {
        1
    } else {
        0
    }
}

/// What an RV32IM register-to-register instruction does to the registers;
/// the other instructions leave them as they are here.
pub open spec fn step(regs: Regs, i: RiscvInstruction) -> Regs {
    match i {
        RiscvInstruction::Add { dest, src1, src2 } => write(regs, dest, (read(regs, src1) + read(regs, src2)) as i32),
        RiscvInstruction::Sub { dest, src1, src2 } => write(regs, dest, (read(regs, src1) - read(regs, src2)) as i32),
        RiscvInstruction::Mul { dest, src1, src2 } => write(regs, dest, (read(regs, src1) * read(regs, src2)) as i32),
        RiscvInstruction::Div { dest, src1, src2 } => {
            let (x, y) = (read(regs, src1), read(regs, src2));
            write(regs, dest, if y == 0 { -1i32 } else if x == i32::MIN && y == -1 { i32::MIN } else { trunc_div(x as int, y as int) as i32 })
        },
        RiscvInstruction::Mod { dest, src1, src2 } => {
            let (x, y) = (read(regs, src1), read(regs, src2));
            write(regs, dest, if y == 0 { x } else if x == i32::MIN && y == -1 { 0i32 } else { trunc_rem(x as int, y as int) as i32 })
        },
        RiscvInstruction::And { dest, src1, src2 } => write(regs, dest, read(regs, src1) & read(regs, src2)),
        RiscvInstruction::Or { dest, src1, src2 } => write(regs, dest, read(regs, src1) | read(regs, src2)),
        RiscvInstruction::Xor { dest, src1, src2 } => write(regs, dest, read(regs, src1) ^ read(regs, src2)),
        RiscvInstruction::Slt { dest, src1, src2 } => write(regs, dest, flag(read(regs, src1) < read(regs, src2))),
        RiscvInstruction::Sgt { dest, src1, src2 } => write(regs, dest, flag(read(regs, src1) > read(regs, src2))),
        RiscvInstruction::Seqz { dest, src } => write(regs, dest, flag(read(regs, src) == 0)),
        RiscvInstruction::Snez { dest, src } => write(regs, dest, flag(read(regs, src) != 0)),
        RiscvInstruction::Mv { dest, src } => write(regs, dest, read(regs, src)),
        _ => regs,
    }
}

/// Runs a piece of code, in order, on the registers.
pub open spec fn run(regs: Regs, code: Seq<RiscvAsm>) -> Regs
    decreases code.len(),
{
    if code.len() == 0 {
        regs
    } else {
        let next = match code[0] {
            RiscvAsm::Instruction(i) => step(regs, i),
            _ => regs,
        };
        run(next, code.drop_first())
    }
}

proof fn lemma_run_one(regs: Regs, i: RiscvInstruction)
    ensures
        run(regs, seq![RiscvAsm::Instruction(i)]) == step(regs, i),
{
    assert(seq![RiscvAsm::Instruction(i)].drop_first() =~= Seq::<RiscvAsm>::empty());
    assert(run(step(regs, i), Seq::<RiscvAsm>::empty()) == step(regs, i));
}

proof fn lemma_run_two(regs: Regs, i: RiscvInstruction, j: RiscvInstruction)
    ensures
        run(regs, seq![RiscvAsm::Instruction(i), RiscvAsm::Instruction(j)]) == step(step(regs, i), j),
{
    assert(seq![RiscvAsm::Instruction(i), RiscvAsm::Instruction(j)].drop_first() =~= seq![RiscvAsm::Instruction(j)]);
    lemma_run_one(step(regs, i), j);
}

proof fn lemma_eq_code(op: BinaryOp, lhs: Register, rhs: Register, rd: Register, regs: Regs)
    requires
        op is Eq || op is NotEq,
        !(rd is Zero),
    ensures
        read(run(regs, binary_text(op, lhs, rhs, rd)), rd) == ir_binary_value(op, read(regs, lhs), read(regs, rhs))->0,
{
    let (a, b) = (read(regs, lhs), read(regs, rhs));
    let t_l = if op is Eq { RiscvInstruction::Seqz { dest: rd, src: lhs } } else { RiscvInstruction::Snez { dest: rd, src: lhs } };
    let t_r = if op is Eq { RiscvInstruction::Seqz { dest: rd, src: rhs } } else { RiscvInstruction::Snez { dest: rd, src: rhs } };
    if rhs == Register::Zero {
        assert(binary_text(op, lhs, rhs, rd) == seq![RiscvAsm::Instruction(t_l)]);
        lemma_run_one(regs, t_l);
    } else if lhs == Register::Zero {
        assert(binary_text(op, lhs, rhs, rd) == seq![RiscvAsm::Instruction(t_r)]);
        lemma_run_one(regs, t_r);
    } else {
        let x = RiscvInstruction::Xor { dest: lhs, src1: lhs, src2: rhs };
        assert(binary_text(op, lhs, rhs, rd) == seq![RiscvAsm::Instruction(x), RiscvAsm::Instruction(t_l)]);
        lemma_run_two(regs, x, t_l);
        assert(((a ^ b) == 0i32) == (a == b)) by (bit_vector);
        assert(read(step(regs, x), lhs) == a ^ b);
    }
}

proof fn lemma_in_place_code(op: BinaryOp, lhs: Register, rhs: Register, rd: Register, regs: Regs)
    requires
        lowered(op),
        !(op is Eq || op is NotEq || op is Ge || op is Le),
        !(rd is Zero),
        ir_binary_value(op, read(regs, lhs), read(regs, rhs)) is Some,
        (op is Div || op is Mod) ==> !(read(regs, lhs) == i32::MIN && read(regs, rhs) == -1),
    ensures
        read(run(regs, binary_text(op, lhs, rhs, rd)), rd) == ir_binary_value(op, read(regs, lhs), read(regs, rhs))->0,
{
    let i = crate::riscv::expr::in_place(op, rd, lhs, rhs);
    assert(binary_text(op, lhs, rhs, rd) == seq![RiscvAsm::Instruction(i)]);
    lemma_run_one(regs, i);
}

/// Law: the code emitted for an IR binary operation computes that
/// operation: run on any registers, it leaves in the result register the
/// value of `lhs op rhs` on what the operand registers held, for every
/// operator the back end lowers and every choice of registers (the result
/// register not being `zero`), division and remainder by zero excepted.
pub proof fn law_binary_code_computes(op: BinaryOp, lhs: Register, rhs: Register, rd: Register, regs: Regs)
    requires
        lowered(op),
        !(rd is Zero),
        ir_binary_value(op, read(regs, lhs), read(regs, rhs)) is Some,
        (op is Div || op is Mod) ==> !(read(regs, lhs) == i32::MIN && read(regs, rhs) == -1),
    ensures
        read(run(regs, binary_text(op, lhs, rhs, rd)), rd) == ir_binary_value(op, read(regs, lhs), read(regs, rhs))->0,
{
    match op {
        BinaryOp::Eq | BinaryOp::NotEq => lemma_eq_code(op, lhs, rhs, rd, regs),
        BinaryOp::Ge => {
            lemma_run_two(
                regs,
                RiscvInstruction::Slt { dest: rd, src1: lhs, src2: rhs },
                RiscvInstruction::Seqz { dest: rd, src: rd },
            );
        },
        BinaryOp::Le => {
            lemma_run_two(
                regs,
                RiscvInstruction::Sgt { dest: rd, src1: lhs, src2: rhs },
                RiscvInstruction::Seqz { dest: rd, src: rd },
            );
        },
        _ => lemma_in_place_code(op, lhs, rhs, rd, regs),
    }
}

/// Law: the end of a function leaves the returned value in `a0`: when no
/// register holding it is `a0`, it is moved there.
pub proof fn law_return_value_in_a0(holding: Set<Register>, reg: Register, regs: Regs)
    requires
        holding.contains(Register::A0) ==> read(regs, Register::A0) == read(regs, reg),
    ensures
        read(run(regs, return_head(holding, reg)), Register::A0) == read(regs, reg),
{
    if !holding.contains(Register::A0) {
        lemma_run_one(regs, RiscvInstruction::Mv { dest: Register::A0, src: reg });
    } else {
        assert(run(regs, Seq::<RiscvAsm>::empty()) == regs);
    }
}

/// Memory: the word at each address.
pub type Mem = Map<int, i32>;

/// The address `b + o`, on 32 bits.
pub open spec fn addr(b: i32, o: int) -> int {
    ((b + o) as i32) as int
}

/// What an instruction does to the registers and the memory: loads and
/// stores of words at a numeric offset, loads of numeric immediates, and
/// the register instructions of [`step`].
pub open spec fn mem_step(st: (Regs, Mem), i: RiscvInstruction) -> (Regs, Mem) {
    let (regs, mem) = st;
    match i {
        RiscvInstruction::Lw { dest, base, offset: RV32Imm12::Num(o) } => (write(regs, dest, mem[addr(read(regs, base), o as int)]), mem),
        RiscvInstruction::Sw { src, base, offset: RV32Imm12::Num(o) } => (regs, mem.insert(addr(read(regs, base), o as int), read(regs, src))),
        RiscvInstruction::Li { dest, imm: RV32Imm::Num(n) } => (write(regs, dest, n), mem),
        _ => (step(regs, i), mem),
    }
}

/// Runs a piece of code, in order, on the registers and the memory.
pub open spec fn run_mem(st: (Regs, Mem), code: Seq<RiscvAsm>) -> (Regs, Mem)
    decreases code.len(),
{
    if code.len() == 0 {
        st
    } else {
        let next = match code[0] {
            RiscvAsm::Instruction(i) => mem_step(st, i),
            _ => st,
        };
        run_mem(next, code.drop_first())
    }
}

proof fn lemma_run_mem_one(st: (Regs, Mem), i: RiscvInstruction)
    ensures
        run_mem(st, seq![RiscvAsm::Instruction(i)]) == mem_step(st, i),
{
    assert(seq![RiscvAsm::Instruction(i)].drop_first() =~= Seq::<RiscvAsm>::empty());
    assert(run_mem(mem_step(st, i), Seq::<RiscvAsm>::empty()) == mem_step(st, i));
}

proof fn lemma_run_mem_three(st: (Regs, Mem), i: RiscvInstruction, j: RiscvInstruction, k: RiscvInstruction)
    ensures
        run_mem(st, seq![RiscvAsm::Instruction(i), RiscvAsm::Instruction(j), RiscvAsm::Instruction(k)]) == mem_step(mem_step(mem_step(st, i), j), k),
{
    let c = seq![RiscvAsm::Instruction(i), RiscvAsm::Instruction(j), RiscvAsm::Instruction(k)];
    assert(c.drop_first() =~= seq![RiscvAsm::Instruction(j), RiscvAsm::Instruction(k)]);
    let c2 = seq![RiscvAsm::Instruction(j), RiscvAsm::Instruction(k)];
    assert(c2.drop_first() =~= seq![RiscvAsm::Instruction(k)]);
    lemma_run_mem_one(mem_step(mem_step(st, i), j), k);
    assert(run_mem(mem_step(st, i), c2) == run_mem(mem_step(mem_step(st, i), j), seq![RiscvAsm::Instruction(k)]));
    assert(run_mem(st, c) == run_mem(mem_step(st, i), c2));
}

/// Law: a load from `off(base)` leaves in `dest` the word at address
/// `base + off`, whether the offset fits in the instruction or is first
/// built in `tmp` (which must then differ from `base`).
pub proof fn law_load_reads_word(dest: Register, base: Register, off: i32, tmp: Register, regs: Regs, mem: Mem)
    requires
        !(dest is Zero),
        !fits_imm12(off as int) ==> !(tmp is Zero) && tmp != base,
    ensures
        read(run_mem((regs, mem), lw_text(dest, base, off, tmp)).0, dest) == mem[addr(read(regs, base), off as int)],
{
    if fits_imm12(off as int) {
        lemma_run_mem_one((regs, mem), RiscvInstruction::Lw { dest, base, offset: RV32Imm12::Num(off as i16) });
        assert((off as i16) as int == off as int);
    } else {
        lemma_run_mem_three(
            (regs, mem),
            RiscvInstruction::Li { dest: tmp, imm: RV32Imm::Num(off) },
            RiscvInstruction::Add { dest: tmp, src1: base, src2: tmp },
            RiscvInstruction::Lw { dest, base: tmp, offset: RV32Imm12::Num(0) },
        );
    }
}

/// Law: a store to `off(base)` writes the word of `src` at address
/// `base + off` and no other, whether the offset fits in the instruction or
/// is first built in `tmp` (which must then differ from `base` and `src`).
pub proof fn law_store_writes_word(src: Register, base: Register, off: i32, tmp: Register, regs: Regs, mem: Mem)
    requires
        !fits_imm12(off as int) ==> !(tmp is Zero) && tmp != base && tmp != src,
    ensures
        run_mem((regs, mem), sw_text(src, base, off, tmp)).1 == mem.insert(addr(read(regs, base), off as int), read(regs, src)),
{
    if fits_imm12(off as int) {
        lemma_run_mem_one((regs, mem), RiscvInstruction::Sw { src, base, offset: RV32Imm12::Num(off as i16) });
        assert((off as i16) as int == off as int);
    } else {
        lemma_run_mem_three(
            (regs, mem),
            RiscvInstruction::Li { dest: tmp, imm: RV32Imm::Num(off) },
            RiscvInstruction::Add { dest: tmp, src1: base, src2: tmp },
            RiscvInstruction::Sw { src, base: tmp, offset: RV32Imm12::Num(0) },
        );
    }
}

/// Law: one of the first eight arguments of a call, at position `i`, is
/// moved into the argument register `a<i>`: after its code, that register
/// holds what the register it was fetched into held.
pub proof fn law_argument_in_register(fs: FunctionContext, op: Operand, i: int, reg: Register, after: FunctionContext, text: Seq<RiscvAsm>, regs: Regs)
    requires
        passed(fs, op, i, reg, after, text),
        0 <= i < 8,
    ensures
        read(run(regs, text), reg_of((10 + i) as nat)) == read(regs, reg),
        reg_name(reg_of((10 + i) as nat)) == seq!['a', "01234567"@[i]],
{
    reveal_strlit("01234567");
    let dest = reg_of((10 + i) as nat);
    lemma_run_one(regs, RiscvInstruction::Mv { dest, src: reg });
    reveal_strlit("a0");
    reveal_strlit("a1");
    reveal_strlit("a2");
    reveal_strlit("a3");
    reveal_strlit("a4");
    reveal_strlit("a5");
    reveal_strlit("a6");
    reveal_strlit("a7");
    assert(reg_name(dest) =~= seq!['a', "01234567"@[i]]);
}

} // verus!
