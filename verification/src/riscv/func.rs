//! The prologue of a function: the frame it reserves, where its arguments
//! are, and saving the return address.
use vstd::prelude::*;

use crate::riscv::context::FunctionContext;
use crate::riscv::inst::{add_sw_instruction, imm_num};
use crate::riscv::meta::{fits_imm12, RV32Imm, RV32Imm12, RV32Usize, Register, RiscvAsm, RiscvInstruction, PTR_SIZE};
use crate::riscv::stack::{align_up, grow_text, law_align_up, law_align_up_monotone, sum_allocated, FuncArgManager, StackSizeAllocator};

verus! {

/// What one IR value of a function needs from its frame.
#[derive(Debug, Clone, Copy, PartialEq, Eq, Structural)]
pub enum ValueNeed {
    /// Nothing: constants, returns, zero initialisers and values of unit type.
    Nothing,
    /// An `alloc`: room for the pointee, and for the pointer itself.
    Alloc { pointee: RV32Usize, pointer: RV32Usize },
    /// The result of a load, store, binary operation, call or element
    /// pointer, of the given size.
    Result(RV32Usize),
    /// Argument `index` of the function, of the given size.
    Arg { index: usize, size: RV32Usize },
}

/// The frame bytes one value reserves.
pub open spec fn need_bytes(v: ValueNeed) -> int {
    match v {
        ValueNeed::Alloc { pointee, pointer } => pointee + pointer,
        ValueNeed::Result(size) => size as int,
        _ => 0,
    }
}

/// The frame bytes the values reserve.
pub open spec fn total_need(vs: Seq<ValueNeed>) -> int
    decreases vs.len(),
{
    if vs.len() == 0 {
        0
    } else {
        total_need(vs.drop_last()) + need_bytes(vs.last())
    }
}

/// The indices of the arguments among the values, in the values' order.
pub open spec fn arg_indices(vs: Seq<ValueNeed>) -> Seq<usize>
    decreases vs.len(),
{
    if vs.len() == 0 {
        Seq::empty()
    } else {
        match vs.last() {
            ValueNeed::Arg { index, size } => arg_indices(vs.drop_last()).push(index),
            _ => arg_indices(vs.drop_last()),
        }
    }
}

/// The size of (the last) argument `idx` among the values.
pub open spec fn size_of_arg(vs: Seq<ValueNeed>, idx: usize) -> RV32Usize
    decreases vs.len(),
{
    if vs.len() == 0 {
        0
    } else {
        match vs.last() {
            ValueNeed::Arg { index, size } => if index == idx {
                size
            } else {
                size_of_arg(vs.drop_last(), idx)
            },
            _ => size_of_arg(vs.drop_last(), idx),
        }
    }
}

/// The arguments come exactly once each, numbered on from `first` with no
/// gap: sorted by index they are `first`, `first + 1`, ...
pub open spec fn args_numbered_from(vs: Seq<ValueNeed>, first: int) -> bool {
    &&& arg_indices(vs).no_duplicates()
    &&& forall|k: int| 0 <= k < arg_indices(vs).len() ==> #[trigger] arg_indices(vs).contains((first + k) as usize)
}

/// The stacked offsets and total after registering arguments `first`,
/// `first + 1`, ... of the given sizes: arguments from the ninth on get the
/// running total as offset.
pub open spec fn register_args(stacked: Seq<RV32Usize>, total: int, first: int, sizes: Seq<RV32Usize>) -> (Seq<RV32Usize>, int)
    decreases sizes.len(),
{
    if sizes.len() == 0 {
        (stacked, total)
    } else {
        let (s, t) = register_args(stacked, total, first, sizes.drop_last());
        if first + sizes.len() - 1 >= 8 {
            (s.push(t as RV32Usize), t + sizes.last())
        } else {
            (s, t)
        }
    }
}

/// The sizes of arguments `first`, `first + 1`, ..., in that order.
pub open spec fn arg_sizes(vs: Seq<ValueNeed>, first: int) -> Seq<RV32Usize> {
    Seq::new(arg_indices(vs).len(), |k: int| size_of_arg(vs, (first + k) as usize))
}

/// The instructions that save `ra` at `offset` from `sp`.
pub open spec fn save_ra_text(offset: int) -> Seq<RiscvAsm> {
    if fits_imm12(offset) {
        seq![RiscvAsm::Instruction(RiscvInstruction::Sw { src: Register::Ra, base: Register::Sp, offset: RV32Imm12::Num(offset as i16) })]
    } else {
        seq![
            RiscvAsm::Instruction(RiscvInstruction::Li { dest: Register::T1, imm: RV32Imm::Num(offset as i32) }),
            RiscvAsm::Instruction(RiscvInstruction::Add { dest: Register::T1, src1: Register::Sp, src2: Register::T1 }),
            RiscvAsm::Instruction(RiscvInstruction::Sw { src: Register::Ra, base: Register::T1, offset: RV32Imm12::Num(0) }),
        ]
    }
}

proof fn lemma_total_need_nonneg(vs: Seq<ValueNeed>)
    ensures
        total_need(vs) >= 0,
    decreases vs.len(),
{
    if vs.len() > 0 {
        lemma_total_need_nonneg(vs.drop_last());
    }
}

proof fn lemma_total_need_prefix(vs: Seq<ValueNeed>, i: int)
    requires
        0 <= i <= vs.len(),
    ensures
        0 <= total_need(vs.take(i)) <= total_need(vs),
    decreases vs.len(),
{
    lemma_total_need_nonneg(vs.take(i));
    if i < vs.len() {
        assert(vs.drop_last().take(i) =~= vs.take(i));
        lemma_total_need_prefix(vs.drop_last(), i);
    } else {
        assert(vs.take(i) =~= vs);
    }
}

proof fn lemma_register_args_total(stacked: Seq<RV32Usize>, total: int, first: int, sizes: Seq<RV32Usize>, j: int)
    requires
        0 <= j <= sizes.len(),
    ensures
        register_args(stacked, total, first, sizes.take(j)).1 <= register_args(stacked, total, first, sizes).1,
        register_args(stacked, total, first, sizes.take(j)).1 >= total,
    decreases sizes.len(),
{
    if j < sizes.len() {
        assert(sizes.drop_last().take(j) =~= sizes.take(j));
        lemma_register_args_total(stacked, total, first, sizes.drop_last(), j);
    } else {
        assert(sizes.take(j) =~= sizes);
        if sizes.len() > 0 {
            lemma_register_args_total(stacked, total, first, sizes.drop_last(), j - 1);
            assert(sizes.drop_last().take(j - 1) =~= sizes.drop_last());
        }
    }
}

/// The size of argument `idx` among the values, if it is there.
fn arg_size(values: &[ValueNeed], idx: usize) -> (r: Option<RV32Usize>)
    ensures
        r == (if arg_indices(values@).contains(idx) { Some(size_of_arg(values@, idx)) } else { None }),
{
    let mut j: usize = values.len();
    proof {
        assert(values@.take(j as int) =~= values@);
    }
    while j > 0
        invariant
            j <= values@.len(),
            arg_indices(values@).contains(idx) == arg_indices(values@.take(j as int)).contains(idx),
            size_of_arg(values@, idx) == size_of_arg(values@.take(j as int), idx),
        decreases j,
    {
        let ghost pre = values@.take(j as int);
        proof {
            assert(pre.drop_last() =~= values@.take(j - 1));
            assert(pre.last() == values@[j - 1]);
        }
        match values[j - 1] {
            ValueNeed::Arg { index, size } => {
                if index == idx {
                    proof {
                        assert(arg_indices(pre) == arg_indices(pre.drop_last()).push(index));
                        assert(arg_indices(pre).last() == idx);
                        assert(arg_indices(pre).contains(idx));
                    }
                    return Some(size);
                }
                proof {
                    let t = arg_indices(pre.drop_last());
                    assert(arg_indices(pre) == t.push(index));
                    if t.push(index).contains(idx) {
                        let q = choose|q: int| 0 <= q < t.push(index).len() && t.push(index)[q] == idx;
                        assert(q < t.len());
                        assert(t.contains(idx));
                    }
                    if t.contains(idx) {
                        let q = choose|q: int| 0 <= q < t.len() && t[q] == idx;
                        assert(t.push(index)[q] == idx);
                    }
                }
            },
            _ => {},
        }
        j = j - 1;
    }
    proof {
        assert(values@.take(0) =~= Seq::<ValueNeed>::empty());
    }
    None
}

/// The prologue of a function: reserves room for the return address (the
/// frame's meta area) and for every value, registers the arguments in order
/// of their indices, allocates the frame, and saves `ra` at the top of it.
/// The frame must not be allocated yet, no call may be in set-up, and the
/// arguments must be numbered on from those already registered.
pub fn function_prologue(context: &mut FunctionContext, values: &[ValueNeed]) -> (r: Vec<RiscvAsm>)
    requires
        old(context).memory().wf(),
        old(context).memory().frame().allocated() == 0,
        old(context).memory().calls().len() == 0,
        align_up(old(context).memory().frame().reserved() + PTR_SIZE + total_need(values@)) <= i32::MAX,
        args_numbered_from(values@, old(context).memory().args().count() as int),
        old(context).memory().args().count() + arg_indices(values@).len() < usize::MAX,
        register_args(
            old(context).memory().args().stacked(),
            old(context).memory().args().total() as int,
            old(context).memory().args().count() as int,
            arg_sizes(values@, old(context).memory().args().count() as int),
        ).1 <= RV32Usize::MAX,
    ensures
        ({
            let reserved = old(context).memory().frame().reserved() + PTR_SIZE + total_need(values@);
            let first = old(context).memory().args().count() as int;
            let regs = register_args(
                old(context).memory().args().stacked(),
                old(context).memory().args().total() as int,
                first,
                arg_sizes(values@, first),
            );
            &&& final(context).memory().wf()
            &&& r@ == grow_text(align_up(reserved)) + save_ra_text(reserved - PTR_SIZE)
            &&& final(context).memory().frame().reserved() == reserved
            &&& final(context).memory().frame().meta() == PTR_SIZE
            &&& final(context).memory().frame().allocated() == align_up(reserved)
            &&& final(context).memory().frame().claimed() == old(context).memory().frame().claimed()
            &&& final(context).memory().frame().offsets() == old(context).memory().frame().offsets()
            &&& final(context).memory().calls() == old(context).memory().calls()
            &&& final(context).memory().args().count() == first + arg_indices(values@).len()
            &&& final(context).memory().args().stacked() == regs.0
            &&& final(context).memory().args().total() == regs.1
        }),
        final(context).registers() == old(context).registers(),
        final(context).labels() == old(context).labels(),
        final(context).name() == old(context).name(),
        final(context).params() == old(context).params(),
        final(context).id() == old(context).id(),
{
    let ghost r0 = context.memory().frame().reserved();
    let ghost first = context.memory().args().count() as int;
    let ghost sizes = arg_sizes(values@, first);
    let ghost st0 = context.memory().args().stacked();
    let ghost t0 = context.memory().args().total() as int;
    proof {
        lemma_total_need_nonneg(values@);
        law_align_up_monotone(r0 + PTR_SIZE, r0 + PTR_SIZE + total_need(values@));
    }
    context.memory_mapper.stack_reserve(PTR_SIZE);
    context.memory_mapper.set_meta_size(PTR_SIZE);

    let mut i: usize = 0;
    let mut arg_count: usize = 0;
    while i < values.len()
        invariant
            i <= values@.len(),
            context.memory().wf(),
            context.memory().frame().allocated() == 0,
            context.memory().frame().meta() == PTR_SIZE,
            context.memory().frame().reserved() == r0 + PTR_SIZE + total_need(values@.take(i as int)),
            context.memory().frame().claimed() == old(context).memory().frame().claimed(),
            context.memory().frame().offsets() == old(context).memory().frame().offsets(),
            context.memory().calls() == old(context).memory().calls(),
            context.memory().args() == old(context).memory().args(),
            arg_count == arg_indices(values@.take(i as int)).len(),
            arg_indices(values@).len() < usize::MAX,
            align_up(r0 + PTR_SIZE + total_need(values@)) <= i32::MAX,
            context.registers() == old(context).registers(),
            context.labels() == old(context).labels(),
            context.name() == old(context).name(),
            context.params() == old(context).params(),
            context.id() == old(context).id(),
        decreases values.len() - i,
    {
        proof {
            assert(values@.take(i + 1).drop_last() =~= values@.take(i as int));
            assert(values@.take(i + 1).last() == values@[i as int]);
            lemma_total_need_prefix(values@, i + 1);
            law_align_up_monotone(r0 + PTR_SIZE + total_need(values@.take(i + 1)), r0 + PTR_SIZE + total_need(values@));
            law_align_up(r0 + PTR_SIZE + total_need(values@.take(i + 1)), 0);
            law_align_up(r0 + PTR_SIZE + total_need(values@), 0);
            lemma_total_need_prefix(values@.take(i + 1), i as int);
            assert(values@.take(i + 1).take(i as int) =~= values@.take(i as int));
            lemma_arg_indices_len(values@, i + 1);
            lemma_arg_indices_prefix(values@, i + 1);
        }
        match values[i] {
            ValueNeed::Alloc { pointee, pointer } => {
                proof {
                    law_align_up_monotone(r0 + PTR_SIZE + total_need(values@.take(i as int)) + pointee, r0 + PTR_SIZE + total_need(values@.take(i + 1)));
                }
                context.memory_mapper.stack_reserve(pointee);
                context.memory_mapper.stack_reserve(pointer);
            },
            ValueNeed::Result(size) => {
                context.memory_mapper.stack_reserve(size);
            },
            ValueNeed::Arg { index, size } => {
                arg_count = arg_count + 1;
            },
            ValueNeed::Nothing => {},
        }
        i = i + 1;
    }
    proof {
        assert(values@.take(i as int) =~= values@);
    }

    let base = context.memory_mapper.args_count();
    let mut k: usize = 0;
    while k < arg_count
        invariant
            k <= arg_count,
            arg_count == arg_indices(values@).len(),
            base == first,
            first + arg_count < usize::MAX,
            args_numbered_from(values@, first),
            sizes == arg_sizes(values@, first),
            register_args(st0, t0, first, sizes).1 <= RV32Usize::MAX,
            context.memory().wf(),
            context.memory().args().count() == first + k,
            (context.memory().args().stacked(), context.memory().args().total() as int) == register_args(st0, t0, first, sizes.take(k as int)),
            context.memory().frame().allocated() == 0,
            context.memory().frame().meta() == PTR_SIZE,
            context.memory().frame().reserved() == r0 + PTR_SIZE + total_need(values@),
            context.memory().frame().claimed() == old(context).memory().frame().claimed(),
            context.memory().frame().offsets() == old(context).memory().frame().offsets(),
            context.memory().calls() == old(context).memory().calls(),
            context.registers() == old(context).registers(),
            context.labels() == old(context).labels(),
            context.name() == old(context).name(),
            context.params() == old(context).params(),
            context.id() == old(context).id(),
        decreases arg_count - k,
    {
        let idx = base + k;
        proof {
            assert(arg_indices(values@).contains((first + k) as usize));
            assert(sizes.take(k + 1).drop_last() =~= sizes.take(k as int));
            lemma_register_args_total(st0, t0, first, sizes, k + 1);
        }
        let size = match arg_size(values, idx) {
            Some(s) => s,
            None => 0,
        };
        context.memory_mapper.register_func_arg(idx, size);
        k = k + 1;
    }
    proof {
        assert(sizes.take(k as int) =~= sizes);
        law_align_up(r0 + PTR_SIZE + total_need(values@), 0);
    }

    let mut asms = context.memory_mapper.stack_extend();
    let offset = context.memory_mapper.meta_offset();
    let save = add_sw_instruction(Register::Ra, Register::Sp, RV32Imm::new(offset as i32), None, Some(Register::T1));
    proof {
        assert(imm_num(RV32Imm::Num(offset as i32)) == offset);
    }
    let mut save = save;
    asms.append(&mut save);
    asms
}

proof fn lemma_arg_indices_prefix(vs: Seq<ValueNeed>, i: int)
    requires
        0 <= i <= vs.len(),
    ensures
        arg_indices(vs.take(i)).len() <= arg_indices(vs).len(),
    decreases vs.len(),
{
    if i < vs.len() {
        assert(vs.drop_last().take(i) =~= vs.take(i));
        lemma_arg_indices_prefix(vs.drop_last(), i);
    } else {
        assert(vs.take(i) =~= vs);
    }
}

proof fn lemma_arg_indices_len(vs: Seq<ValueNeed>, i: int)
    requires
        0 < i <= vs.len(),
    ensures
        arg_indices(vs.take(i)).len() == arg_indices(vs.take(i - 1)).len() + (if vs[i - 1] is Arg { 1int } else { 0int }),
{
    assert(vs.take(i).drop_last() =~= vs.take(i - 1));
    assert(vs.take(i).last() == vs[i - 1]);
}

/// The `.globl` line of a function, named without its IR sigil; the name
/// must start with an ASCII character.
pub fn register_func(func_name: &str) -> (r: Option<RiscvAsm>)
    requires
        func_name@.len() > 0,
        (func_name@[0] as u32) < 128,
    ensures
        r matches Some(RiscvAsm::Global(name)) && name@ == func_name@.drop_first(),
{
    let len = func_name.unicode_len();
    let name = func_name.substring_char(1, len).to_string();
    assert(name@ =~= func_name@.drop_first());
    Some(RiscvAsm::Global(name))
}

} // verus!
