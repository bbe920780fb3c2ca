//! The stack frame of a function: how much stack it reserves, where each value
//! lives in it, and the instructions that grow and shrink it.
use vstd::prelude::*;

use koopa::ir::Value;

use crate::ir::meta::same_value;
use crate::riscv::inst::{add_instruction, addi_instruction, li_instruction};
use crate::riscv::meta::{reg_of, RV32Imm, RV32Imm12, RV32Usize, Register, RiscvAsm, RiscvInstruction, STACK_ALIGNMENT};

verus! {

/// `n` rounded up to the next multiple of the stack alignment.
pub open spec fn align_up(n: int) -> int {
    let a = STACK_ALIGNMENT as int;
    if n % a == 0 {
        n
    } else {
        n + (a - n % a)
    }
}

/// Rounding up to the stack alignment gives the least multiple of the
/// alignment that is not below `n`.
pub proof fn law_align_up(n: int, m: int)
    requires
        0 <= n,
    ensures
        align_up(n) % (STACK_ALIGNMENT as int) == 0,
        n <= align_up(n) < n + STACK_ALIGNMENT,
        m % (STACK_ALIGNMENT as int) == 0 && n <= m ==> align_up(n) <= m,
{
}

/// Rounding up never decreases: more reserved stack never aligns to less.
pub proof fn law_align_up_monotone(a: int, b: int)
    requires
        0 <= a <= b,
    ensures
        align_up(a) <= align_up(b),
{
    law_align_up(a, align_up(b));
    law_align_up(b, 0);
}

/// Counts the stack a function needs, without allocating it: the bytes asked
/// for so far, and that size rounded up to the stack alignment.
#[derive(Debug, Clone, Copy)]
pub struct StackSizeCalculator {
    size: RV32Usize,
    aligned_size: RV32Usize,
}

impl View for StackSizeCalculator {
    type V = nat;

    /// The bytes asked for so far.
    closed spec fn view(&self) -> nat {
        self.size as nat
    }
}

impl StackSizeCalculator {
    #[verifier::type_invariant]
    spec fn aligned(self) -> bool {
        self.aligned_size == align_up(self.size as int)
    }

    pub fn new() -> (r: Self)
        ensures
            r@ == 0,
    {
        Self { size: 0, aligned_size: 0 }
    }

    /// Asks for `size` more bytes; returns by how much the aligned size grew.
    pub fn allocate(&mut self, size: RV32Usize) -> (r: RV32Usize)
        requires
            align_up(old(self)@ + size) <= RV32Usize::MAX,
        ensures
            final(self)@ == old(self)@ + size,
            r == align_up(final(self)@ as int) - align_up(old(self)@ as int),
    {
        proof {
            use_type_invariant(&*self);
            law_align_up_monotone(self.size as int, self.size + size);
        }
        let old_aligned = self.aligned_size;
        let new_size = self.size + size;
        let aligned = if new_size % STACK_ALIGNMENT == 0 {
            new_size
        } else {
            new_size + (STACK_ALIGNMENT - new_size % STACK_ALIGNMENT)
        };
        *self = Self { size: new_size, aligned_size: aligned };
        aligned - old_aligned
    }

    /// The bytes asked for, rounded up to the stack alignment.
    pub fn stack_size(&self) -> (r: RV32Usize)
        ensures
            r == align_up(self@ as int),
    {
        proof {
            use_type_invariant(self);
        }
        self.aligned_size
    }

    /// The bytes asked for.
    pub fn size(&self) -> (r: RV32Usize)
        ensures
            r == self@,
    {
        self.size
    }

    /// Whether the bytes asked for are already a multiple of the alignment.
    pub fn is_aligned(&self) -> (r: bool)
        ensures
            r == (align_up(self@ as int) == self@),
    {
        proof {
            use_type_invariant(self);
        }
        self.size == self.aligned_size
    }

    pub fn clear(&mut self)
        ensures
            final(self)@ == 0,
    {
        *self = Self { size: 0, aligned_size: 0 };
    }
}

/// Instructions that move `sp` down by `size` bytes: `addi` when the
/// immediate fits, else through `t1`.
pub open spec fn grow_text(size: int) -> Seq<RiscvAsm> {
    if size == 0 {
        Seq::empty()
    } else if size > 2048 {
        seq![
            RiscvAsm::Instruction(RiscvInstruction::Li { dest: Register::T1, imm: RV32Imm::Num((-size) as i32) }),
            RiscvAsm::Instruction(RiscvInstruction::Add { dest: Register::Sp, src1: Register::Sp, src2: Register::T1 }),
        ]
    } else {
        seq![RiscvAsm::Instruction(RiscvInstruction::Addi { dest: Register::Sp, src1: Register::Sp, src2: RV32Imm12::Num((-size) as i16) })]
    }
}

/// Instructions that move `sp` up by `size` bytes.
pub open spec fn shrink_text(size: int) -> Seq<RiscvAsm> {
    if size == 0 {
        Seq::empty()
    } else if size > 2047 {
        seq![
            RiscvAsm::Instruction(RiscvInstruction::Li { dest: Register::T1, imm: RV32Imm::Num(size as i32) }),
            RiscvAsm::Instruction(RiscvInstruction::Add { dest: Register::Sp, src1: Register::Sp, src2: Register::T1 }),
        ]
    } else {
        seq![RiscvAsm::Instruction(RiscvInstruction::Addi { dest: Register::Sp, src1: Register::Sp, src2: RV32Imm12::Num(size as i16) })]
    }
}

/// The registers `sp` and `t1` of a machine that runs only `li t1`,
/// `add sp, sp, t1` and `addi sp, sp, imm`.
pub open spec fn run_sp(code: Seq<RiscvAsm>, sp: int, t1: int) -> (int, int)
    decreases code.len(),
{
    if code.len() == 0 {
        (sp, t1)
    } else {
        let (sp2, t12) = match code[0] {
            RiscvAsm::Instruction(RiscvInstruction::Li { dest: Register::T1, imm: RV32Imm::Num(v) }) => (sp, v as int),
            RiscvAsm::Instruction(RiscvInstruction::Add { dest: Register::Sp, src1: Register::Sp, src2: Register::T1 }) => (sp + t1, t1),
            RiscvAsm::Instruction(RiscvInstruction::Addi { dest: Register::Sp, src1: Register::Sp, src2: RV32Imm12::Num(v) }) => (sp + v, t1),
            _ => (sp, t1),
        };
        run_sp(code.drop_first(), sp2, t12)
    }
}

/// Running two pieces of code one after the other.
proof fn lemma_run_sp_concat(a: Seq<RiscvAsm>, b: Seq<RiscvAsm>, sp: int, t1: int)
    ensures
        run_sp(a + b, sp, t1) == run_sp(b, run_sp(a, sp, t1).0, run_sp(a, sp, t1).1),
    decreases a.len(),
{
    if a.len() > 0 {
        assert((a + b).drop_first() =~= a.drop_first() + b);
        assert((a + b)[0] == a[0]);
        let (sp2, t12) = match a[0] {
            RiscvAsm::Instruction(RiscvInstruction::Li { dest: Register::T1, imm: RV32Imm::Num(v) }) => (sp, v as int),
            RiscvAsm::Instruction(RiscvInstruction::Add { dest: Register::Sp, src1: Register::Sp, src2: Register::T1 }) => (sp + t1, t1),
            RiscvAsm::Instruction(RiscvInstruction::Addi { dest: Register::Sp, src1: Register::Sp, src2: RV32Imm12::Num(v) }) => (sp + v, t1),
            _ => (sp, t1),
        };
        lemma_run_sp_concat(a.drop_first(), b, sp2, t12);
    } else {
        assert(a + b =~= b);
    }
}

/// Growing the stack by `size` moves `sp` down by `size`, shrinking it by
/// `size` moves `sp` back up, and shrinking after growing leaves `sp` where
/// it was: the epilogue pops exactly the frame that the prologue pushed.
pub proof fn law_shrink_undoes_grow(size: int, sp: int, t1: int)
    requires
        0 <= size <= i32::MAX,
    ensures
        run_sp(grow_text(size), sp, t1).0 == sp - size,
        run_sp(shrink_text(size), sp, t1).0 == sp + size,
        run_sp(grow_text(size) + shrink_text(size), sp, t1).0 == sp,
{
    reveal_with_fuel(run_sp, 3);
    let g = grow_text(size);
    if size > 2048 {
        assert(g.drop_first().drop_first() =~= Seq::<RiscvAsm>::empty());
    } else if size > 0 {
        assert(g.drop_first() =~= Seq::<RiscvAsm>::empty());
    }
    let h = shrink_text(size);
    if size > 2047 {
        assert(h.drop_first().drop_first() =~= Seq::<RiscvAsm>::empty());
    } else if size > 0 {
        assert(h.drop_first() =~= Seq::<RiscvAsm>::empty());
    }
    lemma_run_sp_concat(g, h, sp, t1);
    let mid = run_sp(g, sp, t1);
    if size > 2047 {
        assert(run_sp(h, mid.0, mid.1).0 == mid.0 + size);
    } else if size > 0 {
        assert(run_sp(h, mid.0, mid.1).0 == mid.0 + size);
    }
}

/// The map of claimed offsets that a list of `(value, offset)` entries spells.
pub open spec fn entries_map(s: Seq<(Value, RV32Usize)>) -> Map<Value, RV32Usize>
    decreases s.len(),
{
    if s.len() == 0 {
        Map::empty()
    } else {
        entries_map(s.drop_last()).insert(s.last().0, s.last().1)
    }
}

/// No value is listed twice.
pub open spec fn distinct_keys(s: Seq<(Value, RV32Usize)>) -> bool {
    forall|i: int, j: int| 0 <= i < j < s.len() ==> s[i].0 != s[j].0
}

proof fn lemma_entries_map(s: Seq<(Value, RV32Usize)>)
    requires
        distinct_keys(s),
    ensures
        forall|v: Value| #[trigger] entries_map(s).dom().contains(v) <==> exists|i: int| 0 <= i < s.len() && s[i].0 == v,
        forall|i: int| 0 <= i < s.len() ==> entries_map(s)[#[trigger] s[i].0] == s[i].1,
    decreases s.len(),
{
    if s.len() > 0 {
        let t = s.drop_last();
        assert(distinct_keys(t));
        lemma_entries_map(t);
        assert forall|v: Value| #[trigger] entries_map(s).dom().contains(v) <==> exists|i: int| 0 <= i < s.len() && s[i].0 == v by {
            if entries_map(t).dom().contains(v) {
                let i = choose|i: int| 0 <= i < t.len() && t[i].0 == v;
                assert(s[i].0 == v);
            }
            if exists|i: int| 0 <= i < s.len() && s[i].0 == v {
                let i = choose|i: int| 0 <= i < s.len() && s[i].0 == v;
                if i < s.len() - 1 {
                    assert(t[i].0 == v);
                }
            }
        }
        assert forall|i: int| 0 <= i < s.len() implies entries_map(s)[#[trigger] s[i].0] == s[i].1 by {
            if i < s.len() - 1 {
                assert(t[i] == s[i]);
            }
        }
    }
}

/// The stack frame of one function (or the argument area of one call): what
/// it reserves, what it has allocated by moving `sp`, and where each value
/// lives in it, as an offset from `sp`. An offset never changes once
/// claimed.
#[derive(Debug, Clone)]
pub struct StackSizeAllocator {
    calculator: StackSizeCalculator,
    map: Vec<(Value, RV32Usize)>,
    claimed: RV32Usize,
    allocated: RV32Usize,
    meta_size: RV32Usize,
}

impl StackSizeAllocator {
    /// No value has two offsets; the allocated size is nothing or the whole
    /// aligned reservation, which fits in an `i32`.
    pub closed spec fn wf(&self) -> bool {
        &&& distinct_keys(self.map@)
        &&& (self.allocated == 0 || self.allocated == align_up(self.calculator@ as int))
        &&& self.allocated <= i32::MAX
    }

    /// The bytes reserved so far.
    pub closed spec fn reserved(&self) -> nat {
        self.calculator@
    }

    /// The bytes allocated by moving `sp`.
    pub closed spec fn allocated(&self) -> RV32Usize {
        self.allocated
    }

    /// The bytes handed out to claimed values.
    pub closed spec fn claimed(&self) -> RV32Usize {
        self.claimed
    }

    /// The bytes at the top of the frame kept for the return address and such.
    pub closed spec fn meta(&self) -> RV32Usize {
        self.meta_size
    }

    /// The offset of each claimed value.
    pub closed spec fn offsets(&self) -> Map<Value, RV32Usize> {
        entries_map(self.map@)
    }

    pub fn new() -> (r: Self)
        ensures
            r.wf(),
            r.reserved() == 0,
            r.allocated() == 0,
            r.claimed() == 0,
            r.meta() == 0,
            r.offsets() == Map::<Value, RV32Usize>::empty(),
    {
        StackSizeAllocator {
            calculator: StackSizeCalculator::new(),
            map: Vec::new(),
            claimed: 0,
            allocated: 0,
            meta_size: 0,
        }
    }

    pub fn set_meta_size(&mut self, size: RV32Usize)
        requires
            old(self).wf(),
        ensures
            final(self).wf(),
            final(self).meta() == size,
            final(self).reserved() == old(self).reserved(),
            final(self).allocated() == old(self).allocated(),
            final(self).claimed() == old(self).claimed(),
            final(self).offsets() == old(self).offsets(),
    {
        self.meta_size = size;
    }

    /// Reserves `size` more bytes; only before the frame is allocated.
    /// Returns by how much the aligned size grew.
    pub fn reserve(&mut self, size: RV32Usize) -> (r: RV32Usize)
        requires
            old(self).wf(),
            old(self).allocated() == 0,
            align_up(old(self).reserved() + size) <= RV32Usize::MAX,
        ensures
            final(self).wf(),
            final(self).reserved() == old(self).reserved() + size,
            r == align_up(final(self).reserved() as int) - align_up(old(self).reserved() as int),
            final(self).allocated() == old(self).allocated(),
            final(self).claimed() == old(self).claimed(),
            final(self).meta() == old(self).meta(),
            final(self).offsets() == old(self).offsets(),
    {
        self.calculator.allocate(size)
    }

    pub fn reserved_size(&self) -> (r: RV32Usize)
        ensures
            r == self.reserved(),
    {
        self.calculator.size()
    }

    /// The reserved bytes rounded up to the stack alignment.
    pub fn calculated_size(&self) -> (r: RV32Usize)
        ensures
            r == align_up(self.reserved() as int),
    {
        self.calculator.stack_size()
    }

    /// The bytes allocated.
    pub fn size(&self) -> (r: RV32Usize)
        ensures
            r == self.allocated(),
    {
        self.allocated
    }

    pub fn is_aligned(&self) -> (r: bool)
        ensures
            r == (align_up(self.reserved() as int) == self.reserved()),
    {
        self.calculator.is_aligned()
    }

    /// Allocates the aligned reservation by moving `sp` down, once. The
    /// reservation must hold the meta area and fit in an `i32`.
    pub fn extend_stack(&mut self) -> (r: Vec<RiscvAsm>)
        requires
            old(self).wf(),
            old(self).allocated() == 0,
            old(self).meta() <= old(self).reserved(),
            align_up(old(self).reserved() as int) <= i32::MAX,
        ensures
            final(self).wf(),
            r@ == grow_text(align_up(old(self).reserved() as int)),
            final(self).allocated() == align_up(old(self).reserved() as int),
            final(self).reserved() == old(self).reserved(),
            final(self).claimed() == old(self).claimed(),
            final(self).meta() == old(self).meta(),
            final(self).offsets() == old(self).offsets(),
    {
        let mut asms: Vec<RiscvAsm> = Vec::new();
        let calculated = self.calculated_size();
        if calculated > self.allocated {
            let size = calculated - self.allocated;
            let size = size as i32;
            if size > 2048 {
                asms.push(li_instruction(Register::T1, -size, None));
                asms.push(add_instruction(Register::Sp, Register::Sp, Register::T1, None));
            } else {
                asms.push(addi_instruction(Register::Sp, Register::Sp, -(size as i16), None));
            }
            self.allocated = self.allocated + size as RV32Usize;
        }
        assert(asms@ =~= grow_text(align_up(old(self).reserved() as int)));
        asms
    }

    /// Moves `sp` back up by the allocated size, for the epilogue; the frame
    /// itself is left as it is.
    pub fn resume_stack(&mut self) -> (r: Vec<RiscvAsm>)
        requires
            old(self).wf(),
        ensures
            r@ == shrink_text(old(self).allocated() as int),
            *final(self) == *old(self),
    {
        let mut asms: Vec<RiscvAsm> = Vec::new();
        if self.allocated > 0 {
            let size = self.allocated as i32;
            if size > 2047 {
                asms.push(li_instruction(Register::T1, size, None));
                asms.push(add_instruction(Register::Sp, Register::Sp, Register::T1, None));
            } else {
                asms.push(addi_instruction(Register::Sp, Register::Sp, size as i16, None));
            }
        }
        assert(asms@ =~= shrink_text(old(self).allocated() as int));
        asms
    }

    /// Index of `value` in the entries, if claimed.
    fn find(&self, value: Value) -> (r: Option<usize>)
        ensures
            match r {
                Some(i) => i < self.map@.len() && self.map@[i as int].0 == value,
                None => forall|i: int| 0 <= i < self.map@.len() ==> self.map@[i].0 != value,
            },
    {
        let mut i: usize = 0;
        while i < self.map.len()
            invariant
                i <= self.map@.len(),
                forall|j: int| 0 <= j < i ==> self.map@[j].0 != value,
            decreases self.map.len() - i,
        {
            if same_value(self.map[i].0, value) {
                return Some(i);
            }
            i = i + 1;
        }
        None
    }

    /// Gives `value` the next `size` bytes of the allocated frame; its offset
    /// is fixed from now on. The value must not be claimed yet, and the bytes
    /// must fit under the meta area.
    pub fn claim(&mut self, value: Value, size: RV32Usize)
        requires
            old(self).wf(),
            !old(self).offsets().dom().contains(value),
            old(self).claimed() + size + old(self).meta() <= old(self).allocated(),
        ensures
            final(self).wf(),
            final(self).offsets() == old(self).offsets().insert(value, old(self).claimed()),
            final(self).claimed() == old(self).claimed() + size,
            final(self).reserved() == old(self).reserved(),
            final(self).allocated() == old(self).allocated(),
            final(self).meta() == old(self).meta(),
    {
        proof {
            lemma_entries_map(self.map@);
        }
        let ghost before = self.map@;
        let offset = self.claimed;
        self.map.push((value, offset));
        self.claimed = self.claimed + size;
        proof {
            assert(self.map@.drop_last() =~= before);
            assert forall|i: int, j: int| 0 <= i < j < self.map@.len() implies self.map@[i].0 != self.map@[j].0 by {
                if j == self.map@.len() - 1 {
                    assert(entries_map(before).dom().contains(before[i].0));
                }
            }
        }
    }

    /// The offset of `value`, if claimed; a claimed value's `size` bytes must
    /// fit under the meta area.
    pub fn get_offset(&self, value: &Value, size: RV32Usize) -> (r: Option<RV32Usize>)
        requires
            self.wf(),
            self.offsets().dom().contains(*value) ==> self.offsets()[*value] + size + self.meta() <= self.allocated(),
        ensures
            r == (if self.offsets().dom().contains(*value) {
                Some(self.offsets()[*value])
            } else {
                None
            }),
    {
        proof {
            lemma_entries_map(self.map@);
        }
        match self.find(*value) {
            Some(i) => Some(self.map[i].1),
            None => None,
        }
    }

    /// Forgets the frame, keeping the meta size.
    pub fn clear(&mut self)
        requires
            old(self).wf(),
        ensures
            final(self).wf(),
            final(self).reserved() == 0,
            final(self).allocated() == 0,
            final(self).claimed() == 0,
            final(self).meta() == old(self).meta(),
            final(self).offsets() == Map::<Value, RV32Usize>::empty(),
    {
        self.map = Vec::new();
        self.calculator.clear();
        self.allocated = 0;
        self.claimed = 0;
    }

    pub fn meta_size(&self) -> (r: RV32Usize)
        ensures
            r == self.meta(),
    {
        self.meta_size
    }
}

/// Ending a call undoes starting it: the call frames are those from before
/// `new_function_call`, whatever was done to the new frame in between.
pub proof fn law_end_call_undoes_new_call(before: MemoryMapper, started: MemoryMapper, worked: MemoryMapper, ended: MemoryMapper)
    requires
        started.calls().drop_last() == before.calls(),
        started.calls().len() == before.calls().len() + 1,
        worked.calls().len() == started.calls().len(),
        worked.calls().drop_last() == started.calls().drop_last(),
        ended.calls() == worked.calls().drop_last(),
    ensures
        ended.calls() == before.calls(),
{
}

/// The bytes a frame reserves fit in 32 bits.
pub proof fn lemma_reserved_fits(a: StackSizeAllocator)
    ensures
        a.reserved() <= RV32Usize::MAX,
{
}

/// Claiming a value fixes its offset at the bytes claimed before it, and
/// leaves the offsets of the values claimed earlier as they were: offsets
/// never move once claimed.
pub proof fn law_claim_keeps_offsets(before: StackSizeAllocator, after: StackSizeAllocator, v: Value, size: int, w: Value)
    requires
        !before.offsets().dom().contains(v),
        claimed_into(before, after, v, size),
    ensures
        after.offsets().dom().contains(v),
        after.offsets()[v] == before.claimed(),
        before.offsets().dom().contains(w) ==> after.offsets().dom().contains(w) && after.offsets()[w] == before.offsets()[w],
{
}

/// The epilogue of a frame moves `sp` back by exactly what its prologue
/// moved it: after `extend_stack`, the code of `resume_stack` undoes the code
/// of `extend_stack`.
pub proof fn law_resume_undoes_extend(before: StackSizeAllocator, after: StackSizeAllocator, sp: int, t1: int)
    requires
        extended(before, after),
        align_up(before.reserved() as int) <= i32::MAX,
    ensures
        run_sp(grow_text(align_up(before.reserved() as int)) + shrink_text(after.allocated() as int), sp, t1).0 == sp,
{
    law_align_up(before.reserved() as int, 0);
    law_shrink_undoes_grow(align_up(before.reserved() as int), sp, t1);
}

/// The offsets, from `sp` at a callee's entry, of the arguments passed on the
/// stack: the first eight arguments travel in `a0`..`a7`, the others are
/// registered in order.
#[derive(Debug, Clone)]
pub struct FuncArgManager {
    function_args: Vec<RV32Usize>,
    size: RV32Usize,
    arg_count: usize,
}

impl FuncArgManager {
    /// One offset per registered argument after the eighth.
    pub closed spec fn wf(&self) -> bool {
        self.function_args@.len() == (if self.arg_count > 8 { self.arg_count - 8 } else { 0 })
    }

    /// How many arguments are registered.
    pub closed spec fn count(&self) -> nat {
        self.arg_count as nat
    }

    /// The bytes the stacked arguments take.
    pub closed spec fn total(&self) -> RV32Usize {
        self.size
    }

    /// The offset of argument `8 + k`, for each `k`.
    pub closed spec fn stacked(&self) -> Seq<RV32Usize> {
        self.function_args@
    }

    pub fn new() -> (r: Self)
        ensures
            r.wf(),
            r.count() == 0,
            r.total() == 0,
            r.stacked() == Seq::<RV32Usize>::empty(),
    {
        FuncArgManager { function_args: Vec::new(), size: 0, arg_count: 0 }
    }

    /// Registers argument `idx` of `size` bytes; arguments come in order.
    pub fn insert(&mut self, idx: usize, size: RV32Usize)
        requires
            old(self).wf(),
            idx == old(self).count(),
            idx < usize::MAX,
            idx >= 8 ==> old(self).total() + size <= RV32Usize::MAX,
        ensures
            final(self).wf(),
            final(self).count() == old(self).count() + 1,
            final(self).stacked().len() == (if idx >= 8 { idx - 7 } else { 0 }),
            idx < 8 ==> final(self).total() == old(self).total() && final(self).stacked() == old(self).stacked(),
            idx >= 8 ==> final(self).total() == old(self).total() + size && final(self).stacked() == old(self).stacked().push(old(self).total()),
    {
        if idx < 8 {
            self.arg_count = self.arg_count + 1;
            return;
        }
        self.function_args.push(self.size);
        self.size = self.size + size;
        self.arg_count = self.arg_count + 1;
    }

    /// The offset of argument `idx` if it is registered and passed on the
    /// stack; its `size` bytes must lie within the stacked arguments.
    pub fn get_offset(&self, idx: usize, size: RV32Usize) -> (r: Option<RV32Usize>)
        requires
            self.wf(),
            8 <= idx < self.count() ==> self.stacked()[idx - 8] + size <= self.total(),
        ensures
            r == (if 8 <= idx < self.count() { Some(self.stacked()[idx - 8]) } else { None }),
    {
        if idx < 8 {
            None
        } else if idx - 8 < self.function_args.len() {
            Some(self.function_args[idx - 8])
        } else {
            None
        }
    }
}

/// Where an argument of the current function is.
#[derive(Debug, Clone, Copy)]
pub enum ArgLocation {
    Register(Register),
    Stack(RV32Usize),
}

/// The sum of the allocated sizes of the given frames.
pub open spec fn sum_allocated(calls: Seq<StackSizeAllocator>) -> int
    decreases calls.len(),
{
    if calls.len() == 0 {
        0
    } else {
        sum_allocated(calls.drop_last()) + calls.last().allocated()
    }
}

/// The sum of the aligned reservations of the given frames.
pub open spec fn sum_calculated(calls: Seq<StackSizeAllocator>) -> int
    decreases calls.len(),
{
    if calls.len() == 0 {
        0
    } else {
        sum_calculated(calls.drop_last()) + align_up(calls.last().reserved() as int)
    }
}

/// The offset from `sp` of `value` in the innermost call frame that claims
/// it, `base` being the bytes of the frames above the last one.
pub open spec fn find_in_calls(calls: Seq<StackSizeAllocator>, value: Value, base: int) -> Option<int>
    decreases calls.len(),
{
    if calls.len() == 0 {
        None
    } else if calls.last().offsets().dom().contains(value) {
        Some(base + calls.last().offsets()[value])
    } else {
        find_in_calls(calls.drop_last(), value, base + calls.last().allocated())
    }
}

/// The innermost call frame that claims `value` holds its `size` bytes under
/// the meta area.
pub open spec fn fits_in_calls(calls: Seq<StackSizeAllocator>, value: Value, size: int) -> bool
    decreases calls.len(),
{
    if calls.len() == 0 {
        true
    } else if calls.last().offsets().dom().contains(value) {
        calls.last().offsets()[value] + size + calls.last().meta() <= calls.last().allocated()
    } else {
        fits_in_calls(calls.drop_last(), value, size)
    }
}

/// The frame after `reserve(size)`.
pub open spec fn reserved_more(a: StackSizeAllocator, b: StackSizeAllocator, size: int) -> bool {
    &&& b.wf()
    &&& b.reserved() == a.reserved() + size
    &&& b.allocated() == a.allocated()
    &&& b.claimed() == a.claimed()
    &&& b.meta() == a.meta()
    &&& b.offsets() == a.offsets()
}

/// The frame after `claim(value, size)`.
pub open spec fn claimed_into(a: StackSizeAllocator, b: StackSizeAllocator, value: Value, size: int) -> bool {
    &&& b.wf()
    &&& b.offsets() == a.offsets().insert(value, a.claimed())
    &&& b.claimed() == a.claimed() + size
    &&& b.reserved() == a.reserved()
    &&& b.allocated() == a.allocated()
    &&& b.meta() == a.meta()
}

/// The frame after `extend_stack()`.
pub open spec fn extended(a: StackSizeAllocator, b: StackSizeAllocator) -> bool {
    &&& b.wf()
    &&& b.allocated() == align_up(a.reserved() as int)
    &&& b.reserved() == a.reserved()
    &&& b.claimed() == a.claimed()
    &&& b.meta() == a.meta()
    &&& b.offsets() == a.offsets()
}

/// The frame after `clear()`.
pub open spec fn cleared(a: StackSizeAllocator, b: StackSizeAllocator) -> bool {
    &&& b.wf()
    &&& b.reserved() == 0
    &&& b.allocated() == 0
    &&& b.claimed() == 0
    &&& b.meta() == a.meta()
    &&& b.offsets() == Map::<Value, RV32Usize>::empty()
}

/// A frame as `new()` makes it.
pub open spec fn fresh(b: StackSizeAllocator) -> bool {
    &&& b.wf()
    &&& b.reserved() == 0
    &&& b.allocated() == 0
    &&& b.claimed() == 0
    &&& b.meta() == 0
    &&& b.offsets() == Map::<Value, RV32Usize>::empty()
}

/// The memory of the function being lowered: its own frame, a stack of
/// frames for the calls being set up (innermost last), and its stacked
/// arguments.
#[derive(Debug, Clone)]
pub struct MemoryMapper {
    stack_allocator: StackSizeAllocator,
    caller_stack: Vec<StackSizeAllocator>,
    function_args: FuncArgManager,
}

impl MemoryMapper {
    pub closed spec fn wf(&self) -> bool {
        &&& self.stack_allocator.wf()
        &&& forall|k: int| 0 <= k < self.caller_stack@.len() ==> (#[trigger] self.caller_stack@[k]).wf()
        &&& self.function_args.wf()
    }

    /// The function's own frame.
    pub closed spec fn frame(&self) -> StackSizeAllocator {
        self.stack_allocator
    }

    /// The frames of the calls being set up, innermost last.
    pub closed spec fn calls(&self) -> Seq<StackSizeAllocator> {
        self.caller_stack@
    }

    /// The function's stacked arguments.
    pub closed spec fn args(&self) -> FuncArgManager {
        self.function_args
    }

    pub fn new() -> (r: Self)
        ensures
            r.wf(),
            fresh(r.frame()),
            r.calls() == Seq::<StackSizeAllocator>::empty(),
            r.args().wf() && r.args().count() == 0 && r.args().total() == 0,
            r.args().stacked() == Seq::<RV32Usize>::empty(),
    {
        MemoryMapper {
            stack_allocator: StackSizeAllocator::new(),
            caller_stack: Vec::new(),
            function_args: FuncArgManager::new(),
        }
    }

    pub fn stack_reserve(&mut self, size: RV32Usize)
        requires
            old(self).wf(),
            old(self).frame().allocated() == 0,
            align_up(old(self).frame().reserved() + size) <= RV32Usize::MAX,
        ensures
            final(self).wf(),
            reserved_more(old(self).frame(), final(self).frame(), size as int),
            final(self).calls() == old(self).calls(),
            final(self).args() == old(self).args(),
    {
        self.stack_allocator.reserve(size);
    }

    /// Takes the innermost call frame out, to work on it.
    fn pop_call(&mut self) -> (top: StackSizeAllocator)
        requires
            old(self).wf(),
            old(self).calls().len() > 0,
        ensures
            final(self).wf(),
            top.wf(),
            top == old(self).calls().last(),
            final(self).calls() == old(self).calls().drop_last(),
            final(self).frame() == old(self).frame(),
            final(self).args() == old(self).args(),
    {
        let top = self.caller_stack.pop().unwrap();
        proof {
            assert(old(self).calls().last() == old(self).caller_stack@[old(self).caller_stack@.len() - 1]);
        }
        top
    }

    fn push_call(&mut self, top: StackSizeAllocator)
        requires
            old(self).wf(),
            top.wf(),
        ensures
            final(self).wf(),
            final(self).calls() == old(self).calls().push(top),
            final(self).frame() == old(self).frame(),
            final(self).args() == old(self).args(),
    {
        self.caller_stack.push(top);
    }

    pub fn function_reserve(&mut self, size: RV32Usize)
        requires
            old(self).wf(),
            old(self).calls().len() > 0,
            old(self).calls().last().allocated() == 0,
            align_up(old(self).calls().last().reserved() + size) <= RV32Usize::MAX,
        ensures
            final(self).wf(),
            final(self).calls().len() == old(self).calls().len(),
            final(self).calls().drop_last() == old(self).calls().drop_last(),
            reserved_more(old(self).calls().last(), final(self).calls().last(), size as int),
            final(self).frame() == old(self).frame(),
            final(self).args() == old(self).args(),
    {
        let mut top = self.pop_call();
        top.reserve(size);
        self.push_call(top);
    }

    pub fn stack_claim(&mut self, value: Value, size: RV32Usize)
        requires
            old(self).wf(),
            !old(self).frame().offsets().dom().contains(value),
            old(self).frame().claimed() + size + old(self).frame().meta() <= old(self).frame().allocated(),
        ensures
            final(self).wf(),
            claimed_into(old(self).frame(), final(self).frame(), value, size as int),
            final(self).calls() == old(self).calls(),
            final(self).args() == old(self).args(),
    {
        self.stack_allocator.claim(value, size);
    }

    pub fn function_claim(&mut self, value: Value, size: RV32Usize)
        requires
            old(self).wf(),
            old(self).calls().len() > 0,
            !old(self).calls().last().offsets().dom().contains(value),
            old(self).calls().last().claimed() + size + old(self).calls().last().meta() <= old(self).calls().last().allocated(),
        ensures
            final(self).wf(),
            final(self).calls().len() == old(self).calls().len(),
            final(self).calls().drop_last() == old(self).calls().drop_last(),
            claimed_into(old(self).calls().last(), final(self).calls().last(), value, size as int),
            final(self).frame() == old(self).frame(),
            final(self).args() == old(self).args(),
    {
        let mut top = self.pop_call();
        top.claim(value, size);
        self.push_call(top);
    }

    pub fn stack_alloc_size(&self) -> (r: RV32Usize)
        ensures
            r == self.frame().allocated(),
    {
        self.stack_allocator.size()
    }

    pub fn stack_calculated_size(&self) -> (r: RV32Usize)
        ensures
            r == align_up(self.frame().reserved() as int),
    {
        self.stack_allocator.calculated_size()
    }

    /// The bytes allocated by all call frames.
    pub fn function_alloc_size(&self) -> (r: RV32Usize)
        requires
            sum_allocated(self.calls()) <= RV32Usize::MAX,
        ensures
            r == sum_allocated(self.calls()),
    {
        let mut total: RV32Usize = 0;
        let mut i: usize = 0;
        while i < self.caller_stack.len()
            invariant
                i <= self.caller_stack@.len(),
                sum_allocated(self.calls()) <= RV32Usize::MAX,
                total == sum_allocated(self.calls().take(i as int)),
            decreases self.caller_stack.len() - i,
        {
            proof {
                assert(self.calls().take(i + 1).drop_last() =~= self.calls().take(i as int));
                lemma_sum_allocated_prefix(self.calls(), i + 1);
            }
            total = total + self.caller_stack[i].size();
            i = i + 1;
        }
        assert(self.calls().take(i as int) =~= self.calls());
        total
    }

    /// The aligned bytes reserved by all call frames.
    pub fn function_calculated_size(&self) -> (r: RV32Usize)
        requires
            sum_calculated(self.calls()) <= RV32Usize::MAX,
        ensures
            r == sum_calculated(self.calls()),
    {
        let mut total: RV32Usize = 0;
        let mut i: usize = 0;
        while i < self.caller_stack.len()
            invariant
                i <= self.caller_stack@.len(),
                sum_calculated(self.calls()) <= RV32Usize::MAX,
                total == sum_calculated(self.calls().take(i as int)),
            decreases self.caller_stack.len() - i,
        {
            proof {
                assert(self.calls().take(i + 1).drop_last() =~= self.calls().take(i as int));
                lemma_sum_calculated_prefix(self.calls(), i + 1);
            }
            total = total + self.caller_stack[i].calculated_size();
            i = i + 1;
        }
        assert(self.calls().take(i as int) =~= self.calls());
        total
    }

    /// The bytes allocated by the frame and all call frames.
    pub fn alloc_size(&self) -> (r: RV32Usize)
        requires
            self.frame().allocated() + sum_allocated(self.calls()) <= RV32Usize::MAX,
        ensures
            r == self.frame().allocated() + sum_allocated(self.calls()),
    {
        proof {
            lemma_sum_allocated_nonneg(self.calls());
        }
        self.stack_alloc_size() + self.function_alloc_size()
    }

    /// The aligned bytes reserved by the frame and all call frames.
    pub fn calculated_size(&self) -> (r: RV32Usize)
        requires
            align_up(self.frame().reserved() as int) + sum_calculated(self.calls()) <= RV32Usize::MAX,
        ensures
            r == align_up(self.frame().reserved() as int) + sum_calculated(self.calls()),
    {
        proof {
            lemma_sum_calculated_nonneg(self.calls());
            law_align_up(self.frame().reserved() as int, 0);
        }
        self.stack_calculated_size() + self.function_calculated_size()
    }

    /// The offset from `sp` of `value`: in the innermost call frame that
    /// claims it, counting the frames above; else in the function's own
    /// frame, above all call frames.
    pub fn get_offset(&self, value: &Value, size: RV32Usize) -> (r: Option<RV32Usize>)
        requires
            self.wf(),
            sum_allocated(self.calls()) <= RV32Usize::MAX,
            fits_in_calls(self.calls(), *value, size as int),
            find_in_calls(self.calls(), *value, 0) is None && self.frame().offsets().dom().contains(*value) ==> {
                &&& self.frame().offsets()[*value] + size + self.frame().meta() <= self.frame().allocated()
                &&& sum_allocated(self.calls()) + self.frame().offsets()[*value] <= RV32Usize::MAX
            },
        ensures
            r == (match find_in_calls(self.calls(), *value, 0) {
                Some(o) => Some(o as RV32Usize),
                None => if self.frame().offsets().dom().contains(*value) {
                    Some((sum_allocated(self.calls()) + self.frame().offsets()[*value]) as RV32Usize)
                } else {
                    None
                },
            }),
            find_in_calls(self.calls(), *value, 0) matches Some(o) ==> 0 <= o <= RV32Usize::MAX,
    {
        let mut offset: RV32Usize = 0;
        let mut i: usize = self.caller_stack.len();
        proof {
            assert(self.calls().take(i as int) =~= self.calls());
            lemma_sum_allocated_nonneg(self.calls());
        }
        while i > 0
            invariant
                i <= self.caller_stack@.len(),
                self.wf(),
                sum_allocated(self.calls()) <= RV32Usize::MAX,
                offset + sum_allocated(self.calls().take(i as int)) == sum_allocated(self.calls()),
                find_in_calls(self.calls(), *value, 0) == find_in_calls(self.calls().take(i as int), *value, offset as int),
                fits_in_calls(self.calls().take(i as int), *value, size as int),
            decreases i,
        {
            let ghost pre = self.calls().take(i as int);
            proof {
                assert(pre.drop_last() =~= self.calls().take(i - 1));
                assert(pre.last() == self.caller_stack@[i - 1]);
                lemma_sum_allocated_nonneg(pre.drop_last());
            }
            let stack = &self.caller_stack[i - 1];
            match stack.get_offset(value, size) {
                Some(off) => {
                    return Some(off + offset);
                },
                None => {},
            }
            offset = offset + stack.size();
            i = i - 1;
        }
        proof {
            assert(self.calls().take(0) =~= Seq::<StackSizeAllocator>::empty());
        }
        match self.stack_allocator.get_offset(value, size) {
            Some(off) => Some(offset + off),
            None => None,
        }
    }

    /// The offset from `sp` of the meta area of the function's frame.
    pub fn meta_offset(&self) -> (r: RV32Usize)
        requires
            self.wf(),
            sum_allocated(self.calls()) + self.frame().reserved() <= RV32Usize::MAX,
            self.frame().meta() <= sum_allocated(self.calls()) + self.frame().reserved(),
        ensures
            r == sum_allocated(self.calls()) + self.frame().reserved() - self.frame().meta(),
    {
        proof {
            lemma_sum_allocated_nonneg(self.calls());
        }
        let offset = self.function_alloc_size();
        offset + self.stack_allocator.reserved_size() - self.stack_allocator.meta_size()
    }

    /// Allocates the function's frame; no call may be in set-up.
    pub fn stack_extend(&mut self) -> (r: Vec<RiscvAsm>)
        requires
            old(self).wf(),
            old(self).calls().len() == 0,
            old(self).frame().allocated() == 0,
            old(self).frame().meta() <= old(self).frame().reserved(),
            align_up(old(self).frame().reserved() as int) <= i32::MAX,
        ensures
            final(self).wf(),
            r@ == grow_text(align_up(old(self).frame().reserved() as int)),
            extended(old(self).frame(), final(self).frame()),
            final(self).calls() == old(self).calls(),
            final(self).args() == old(self).args(),
    {
        self.stack_allocator.extend_stack()
    }

    /// Allocates the innermost call frame.
    pub fn function_extend(&mut self) -> (r: Vec<RiscvAsm>)
        requires
            old(self).wf(),
            old(self).calls().len() > 0,
            old(self).calls().last().allocated() == 0,
            old(self).calls().last().meta() <= old(self).calls().last().reserved(),
            align_up(old(self).calls().last().reserved() as int) <= i32::MAX,
        ensures
            final(self).wf(),
            r@ == grow_text(align_up(old(self).calls().last().reserved() as int)),
            final(self).calls().len() == old(self).calls().len(),
            final(self).calls().drop_last() == old(self).calls().drop_last(),
            extended(old(self).calls().last(), final(self).calls().last()),
            final(self).frame() == old(self).frame(),
            final(self).args() == old(self).args(),
    {
        let mut top = self.pop_call();
        let asms = top.extend_stack();
        self.push_call(top);
        asms
    }

    /// Frees the function's frame, for the epilogue; no call may be in set-up.
    pub fn stack_resume(&mut self) -> (r: Vec<RiscvAsm>)
        requires
            old(self).wf(),
            old(self).calls().len() == 0,
        ensures
            r@ == shrink_text(old(self).frame().allocated() as int),
            *final(self) == *old(self),
    {
        self.stack_allocator.resume_stack()
    }

    /// Frees the innermost call frame, after the call.
    pub fn function_resume(&mut self) -> (r: Vec<RiscvAsm>)
        requires
            old(self).wf(),
            old(self).calls().len() > 0,
        ensures
            final(self).wf(),
            r@ == shrink_text(old(self).calls().last().allocated() as int),
            final(self).calls() == old(self).calls(),
            final(self).frame() == old(self).frame(),
            final(self).args() == old(self).args(),
    {
        let mut top = self.pop_call();
        let asms = top.resume_stack();
        self.push_call(top);
        proof {
            assert(final(self).calls() =~= old(self).calls());
        }
        asms
    }

    /// Drops the call frames and clears the function's frame.
    pub fn clear(&mut self)
        requires
            old(self).wf(),
        ensures
            final(self).wf(),
            final(self).calls() == Seq::<StackSizeAllocator>::empty(),
            cleared(old(self).frame(), final(self).frame()),
            final(self).args() == old(self).args(),
    {
        self.caller_stack = Vec::new();
        self.stack_allocator.clear();
    }

    /// Clears the innermost call frame, if there is one.
    pub fn function_clear(&mut self)
        requires
            old(self).wf(),
        ensures
            final(self).wf(),
            old(self).calls().len() == 0 ==> final(self).calls() == old(self).calls(),
            old(self).calls().len() > 0 ==> {
                &&& final(self).calls().len() == old(self).calls().len()
                &&& final(self).calls().drop_last() == old(self).calls().drop_last()
                &&& cleared(old(self).calls().last(), final(self).calls().last())
            },
            final(self).frame() == old(self).frame(),
            final(self).args() == old(self).args(),
    {
        if self.caller_stack.len() > 0 {
            let mut top = self.pop_call();
            top.clear();
            self.push_call(top);
        }
    }

    /// Registers argument `idx` of the function, of `size` bytes.
    pub fn register_func_arg(&mut self, idx: usize, size: RV32Usize)
        requires
            old(self).wf(),
            idx == old(self).args().count(),
            idx < usize::MAX,
            idx >= 8 ==> old(self).args().total() + size <= RV32Usize::MAX,
        ensures
            final(self).wf(),
            final(self).args().count() == old(self).args().count() + 1,
            final(self).args().stacked().len() == (if idx >= 8 { idx - 7 } else { 0 }),
            idx < 8 ==> final(self).args().total() == old(self).args().total() && final(self).args().stacked() == old(self).args().stacked(),
            idx >= 8 ==> final(self).args().total() == old(self).args().total() + size && final(self).args().stacked() == old(self).args().stacked().push(old(self).args().total()),
            final(self).frame() == old(self).frame(),
            final(self).calls() == old(self).calls(),
    {
        self.function_args.insert(idx, size);
    }

    /// The register of argument `idx`, for the first eight arguments.
    fn get_arg_register(&self, idx: usize) -> (r: Option<Register>)
        ensures
            r == (if idx < 8 { Some(reg_of((10 + idx) as nat)) } else { None }),
    {
        if idx < 8 {
            Some(Register::from_index(10 + idx as u8))
        } else {
            None
        }
    }

    /// Where argument `idx` of the function is: one of `a0`..`a7`, or an
    /// offset from `sp` past everything allocated.
    pub fn get_arg(&mut self, idx: usize, size: RV32Usize) -> (r: Option<ArgLocation>)
        requires
            old(self).wf(),
            8 <= idx < old(self).args().count() ==> {
                &&& old(self).args().stacked()[idx - 8] + size <= old(self).args().total()
                &&& old(self).args().stacked()[idx - 8] + old(self).frame().allocated() + sum_allocated(old(self).calls()) <= RV32Usize::MAX
            },
        ensures
            *final(self) == *old(self),
            idx < 8 ==> r == Some(ArgLocation::Register(reg_of((10 + idx) as nat))),
            8 <= idx < old(self).args().count() ==> r == Some(ArgLocation::Stack(
                (old(self).args().stacked()[idx - 8] + old(self).frame().allocated() + sum_allocated(old(self).calls())) as RV32Usize,
            )),
            idx >= 8 && idx >= old(self).args().count() ==> r is None,
    {
        if idx < 8 {
            match self.get_arg_register(idx) {
                Some(reg) => Some(ArgLocation::Register(reg)),
                None => None,
            }
        } else {
            match self.function_args.get_offset(idx, size) {
                Some(offset) => {
                    proof {
                        lemma_sum_allocated_nonneg(self.calls());
                    }
                    Some(ArgLocation::Stack(offset + self.alloc_size()))
                },
                None => None,
            }
        }
    }

    /// How many arguments of the function are registered.
    pub fn args_count(&self) -> (r: usize)
        ensures
            r == self.args().count(),
    {
        self.function_args.arg_count
    }

    /// Starts setting up a call: pushes an empty call frame.
    pub fn new_function_call(&mut self)
        requires
            old(self).wf(),
        ensures
            final(self).wf(),
            final(self).calls().len() == old(self).calls().len() + 1,
            final(self).calls().drop_last() == old(self).calls(),
            fresh(final(self).calls().last()),
            final(self).frame() == old(self).frame(),
            final(self).args() == old(self).args(),
    {
        self.push_call(StackSizeAllocator::new());
        proof {
            assert(final(self).calls().drop_last() =~= old(self).calls());
        }
    }

    /// Ends a call: pops its frame.
    pub fn end_function_call(&mut self)
        requires
            old(self).wf(),
            old(self).calls().len() > 0,
        ensures
            final(self).wf(),
            final(self).calls() == old(self).calls().drop_last(),
            final(self).frame() == old(self).frame(),
            final(self).args() == old(self).args(),
    {
        self.pop_call();
    }

    pub fn set_meta_size(&mut self, size: RV32Usize)
        requires
            old(self).wf(),
        ensures
            final(self).wf(),
            final(self).frame().meta() == size,
            final(self).frame().reserved() == old(self).frame().reserved(),
            final(self).frame().allocated() == old(self).frame().allocated(),
            final(self).frame().claimed() == old(self).frame().claimed(),
            final(self).frame().offsets() == old(self).frame().offsets(),
            final(self).calls() == old(self).calls(),
            final(self).args() == old(self).args(),
    {
        self.stack_allocator.set_meta_size(size);
    }
}

pub proof fn lemma_sum_allocated_nonneg(calls: Seq<StackSizeAllocator>)
    ensures
        sum_allocated(calls) >= 0,
    decreases calls.len(),
{
    if calls.len() > 0 {
        lemma_sum_allocated_nonneg(calls.drop_last());
    }
}

proof fn lemma_sum_calculated_nonneg(calls: Seq<StackSizeAllocator>)
    ensures
        sum_calculated(calls) >= 0,
    decreases calls.len(),
{
    if calls.len() > 0 {
        lemma_sum_calculated_nonneg(calls.drop_last());
        law_align_up(calls.last().reserved() as int, 0);
    }
}

/// A prefix of the frames allocates no more than all of them.
proof fn lemma_sum_allocated_prefix(calls: Seq<StackSizeAllocator>, i: int)
    requires
        0 <= i <= calls.len(),
    ensures
        sum_allocated(calls.take(i)) <= sum_allocated(calls),
        0 <= sum_allocated(calls.take(i)),
    decreases calls.len(),
{
    lemma_sum_allocated_nonneg(calls.take(i));
    if i < calls.len() {
        assert(calls.drop_last().take(i) =~= calls.take(i));
        lemma_sum_allocated_prefix(calls.drop_last(), i);
    } else {
        assert(calls.take(i) =~= calls);
    }
}

proof fn lemma_sum_calculated_prefix(calls: Seq<StackSizeAllocator>, i: int)
    requires
        0 <= i <= calls.len(),
    ensures
        sum_calculated(calls.take(i)) <= sum_calculated(calls),
        0 <= sum_calculated(calls.take(i)),
    decreases calls.len(),
{
    lemma_sum_calculated_nonneg(calls.take(i));
    if i < calls.len() {
        assert(calls.drop_last().take(i) =~= calls.take(i));
        lemma_sum_calculated_prefix(calls.drop_last(), i);
        law_align_up(calls.last().reserved() as int, 0);
    } else {
        assert(calls.take(i) =~= calls);
    }
}

impl Default for StackSizeCalculator {
    fn default() -> (r: Self)
        ensures
            r@ == 0,
    {
        Self::new()
    }
}

impl Default for StackSizeAllocator {
    fn default() -> (r: Self)
        ensures
            fresh(r),
    {
        Self::new()
    }
}

impl Default for FuncArgManager {
    fn default() -> (r: Self)
        ensures
            r.wf() && r.count() == 0 && r.total() == 0,
    {
        Self::new()
    }
}

impl Default for MemoryMapper {
    fn default() -> (r: Self)
        ensures
            r.wf() && fresh(r.frame()) && r.calls() == Seq::<StackSizeAllocator>::empty() && r.args().wf() && r.args().count() == 0 && r.args().total() == 0,
    {
        Self::new()
    }
}

} // verus!
