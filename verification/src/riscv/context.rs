//! What the back end knows about the function it is lowering: its name, its
//! basic blocks' labels, and the register and memory maps.
use vstd::prelude::*;
use vstd::string::StringExecFns;

use koopa::ir::BasicBlock;

use crate::ir::meta::same_block;
use crate::riscv::meta::{directly_usable, reg_index, Register};
use crate::riscv::regmap::RegisterMapper;
use crate::riscv::stack::MemoryMapper;
use crate::text::{law_numeral_round_trip, nat_text, push_nat};

verus! {

/// The labels of a function's basic blocks other than the entry: each block
/// gets the next number, from 1, the first time it is inserted.
#[derive(Debug)]
pub struct BlockLabels {
    entry_id: BasicBlock,
    mapper: Vec<(BasicBlock, usize)>,
}

impl BlockLabels {
    /// The `k`-th block inserted has number `k + 1`; no block twice; the
    /// entry never.
    pub closed spec fn wf(&self) -> bool {
        &&& forall|k: int| 0 <= k < self.mapper@.len() ==> (#[trigger] self.mapper@[k]).1 == k + 1
        &&& forall|i: int, j: int| 0 <= i < j < self.mapper@.len() ==> self.mapper@[i].0 != self.mapper@[j].0
        &&& forall|k: int| 0 <= k < self.mapper@.len() ==> (#[trigger] self.mapper@[k]).0 != self.entry_id
    }

    /// The entry block.
    pub closed spec fn entry(&self) -> BasicBlock {
        self.entry_id
    }

    /// The blocks inserted so far, in order; block `k` has number `k + 1`.
    pub closed spec fn blocks(&self) -> Seq<BasicBlock> {
        self.mapper@.map_values(|e: (BasicBlock, usize)| e.0)
    }

    pub fn new(entry_id: BasicBlock) -> (r: Self)
        ensures
            r.wf(),
            r.entry() == entry_id,
            r.blocks() == Seq::<BasicBlock>::empty(),
    {
        let r = BlockLabels { entry_id, mapper: Vec::new() };
        assert(r.blocks() =~= Seq::<BasicBlock>::empty());
        r
    }

    /// Index of `bb` among the inserted blocks.
    fn position(&self, bb: BasicBlock) -> (r: Option<usize>)
        requires
            self.wf(),
        ensures
            match r {
                Some(k) => k < self.blocks().len() && self.blocks()[k as int] == bb,
                None => !self.blocks().contains(bb),
            },
    {
        let mut k: usize = 0;
        while k < self.mapper.len()
            invariant
                k <= self.mapper@.len(),
                forall|j: int| 0 <= j < k ==> self.mapper@[j].0 != bb,
            decreases self.mapper.len() - k,
        {
            if same_block(self.mapper[k].0, bb) {
                return Some(k);
            }
            k = k + 1;
        }
        proof {
            if self.blocks().contains(bb) {
                let j = choose|j: int| 0 <= j < self.blocks().len() && self.blocks()[j] == bb;
                assert(self.mapper@[j].0 == bb);
            }
        }
        None
    }

    /// Gives `bb` the next number, unless it is the entry or already has one.
    pub fn insert(&mut self, bb: BasicBlock)
        requires
            old(self).wf(),
            old(self).blocks().len() < usize::MAX,
        ensures
            final(self).wf(),
            final(self).entry() == old(self).entry(),
            final(self).blocks() == (if bb == old(self).entry() || old(self).blocks().contains(bb) {
                old(self).blocks()
            } else {
                old(self).blocks().push(bb)
            }),
    {
        if !same_block(bb, self.entry_id) && self.position(bb).is_none() {
            let label_id = self.mapper.len() + 1;
            let ghost before = self.mapper@;
            self.mapper.push((bb, label_id));
            proof {
                assert forall|i: int, j: int| 0 <= i < j < self.mapper@.len() implies self.mapper@[i].0 != self.mapper@[j].0 by {
                    if j == before.len() {
                        assert(old(self).blocks()[i] == before[i].0);
                    }
                }
                assert(self.blocks() =~= old(self).blocks().push(bb));
            }
        }
    }

    pub fn entry_id(&self) -> (r: BasicBlock)
        ensures
            r == self.entry(),
    {
        self.entry_id
    }

    /// The number of an inserted block.
    fn number(&self, bb: BasicBlock) -> (r: Option<usize>)
        requires
            self.wf(),
        ensures
            match r {
                Some(n) => 1 <= n <= self.blocks().len() && self.blocks()[n - 1] == bb,
                None => !self.blocks().contains(bb),
            },
    {
        match self.position(bb) {
            Some(k) => Some(self.mapper[k].1),
            None => None,
        }
    }
}

/// Inserted blocks have distinct numbers: the number of a block is one more
/// than its position among the inserted blocks, and no block is inserted
/// twice.
pub proof fn law_block_numbers_distinct(labels: BlockLabels, i: int, j: int)
    requires
        labels.wf(),
        0 <= i < j < labels.blocks().len(),
    ensures
        labels.blocks()[i] != labels.blocks()[j],
        labels.blocks()[i] != labels.entry(),
{
}

/// The label of a block that is not the entry: `LBB<function>_<block>`.
pub open spec fn block_label_text(func_id: nat, number: nat) -> Seq<char> {
    "LBB"@ + nat_text(func_id) + "_"@ + nat_text(number)
}

/// Whether `bb` has a label in the function of `ctx`: it is the entry (and the
/// function's name starts with an ASCII sigil) or an inserted block.
pub open spec fn has_label(ctx: FunctionContext, bb: BasicBlock) -> bool {
    &&& ctx.labels().wf()
    &&& (bb == ctx.labels().entry() ==> ctx.name().len() > 0 && (ctx.name()[0] as u32) < 128)
    &&& (bb != ctx.labels().entry() ==> ctx.labels().blocks().contains(bb))
}

/// The label of `bb` in the function of `ctx`: the function's name without
/// its sigil for the entry block; else built from the block's number.
pub open spec fn label_of(ctx: FunctionContext, bb: BasicBlock) -> Seq<char> {
    if bb == ctx.labels().entry() {
        ctx.name().drop_first()
    } else {
        let k = choose|k: int| 0 <= k < ctx.labels().blocks().len() && ctx.labels().blocks()[k] == bb;
        block_label_text(ctx.id(), (k + 1) as nat)
    }
}

/// The function being lowered: its name (with the IR's leading sigil), how
/// many parameters it has, its number among the functions, and the maps the
/// back end keeps for it.
#[derive(Debug)]
pub struct FunctionContext {
    pub register_mapper: RegisterMapper,
    pub memory_mapper: MemoryMapper,
    pub block_labels: BlockLabels,
    pub func_name: String,
    pub param_count: usize,
    pub func_id: usize,
}

impl FunctionContext {
    pub open spec fn registers(&self) -> RegisterMapper {
        self.register_mapper
    }

    pub open spec fn memory(&self) -> MemoryMapper {
        self.memory_mapper
    }

    pub open spec fn labels(&self) -> BlockLabels {
        self.block_labels
    }

    pub open spec fn name(&self) -> Seq<char> {
        self.func_name@
    }

    pub open spec fn params(&self) -> nat {
        self.param_count as nat
    }

    /// The function's number; never 0.
    pub open spec fn id(&self) -> nat {
        self.func_id as nat
    }

    /// A context for the function named `func_name`, whose body starts at
    /// `entry_id`.
    pub fn new(func_name: String, entry_id: BasicBlock, param_count: usize, id: usize) -> (r: Self)
        requires
            id > 0,
        ensures
            r.name() == func_name@,
            r.params() == param_count,
            r.id() == id,
            r.registers().wf(),
            r.registers().values() == Map::<koopa::ir::Value, Set<Register>>::empty(),
            r.registers().usage() == Map::<Register, crate::riscv::regmap::RegisterValue>::empty(),
            r.memory().wf(),
            crate::riscv::stack::fresh(r.memory().frame()),
            r.memory().calls() == Seq::<crate::riscv::stack::StackSizeAllocator>::empty(),
            r.memory().args().wf(),
            r.memory().args().count() == 0,
            r.memory().args().total() == 0,
            r.memory().args().stacked() == Seq::<crate::riscv::meta::RV32Usize>::empty(),
            r.labels().wf(),
            r.labels().entry() == entry_id,
            r.labels().blocks() == Seq::<BasicBlock>::empty(),
    {
        FunctionContext {
            register_mapper: RegisterMapper::new(),
            memory_mapper: MemoryMapper::new(),
            block_labels: BlockLabels::new(entry_id),
            func_name,
            param_count,
            func_id: id,
        }
    }

    /// The label of `bb`: the function's name without its sigil for the
    /// entry block, else `LBB<function>_<number of the block>`. The block must
    /// be the entry or inserted in the labels.
    pub fn get_label(&self, bb: BasicBlock) -> (r: String)
        requires
            has_label(*self, bb),
        ensures
            r@ == label_of(*self, bb),
    {
        if same_block(bb, self.block_labels.entry_id()) {
            let name = self.func_name.as_str();
            let len = name.unicode_len();
            let rest = name.substring_char(1, len);
            let r = rest.to_string();
            assert(r@ =~= self.name().drop_first());
            r
        } else {
            let n = match self.block_labels.number(bb) {
                Some(n) => n,
                None => 0,
            };
            let mut s = String::from_str("LBB");
            push_nat(&mut s, self.func_id as u64);
            s.append("_");
            push_nat(&mut s, n as u64);
            proof {
                let k = n - 1;
                assert(s@ =~= block_label_text(self.id(), (k + 1) as nat));
                let c = choose|c: int| 0 <= c < self.labels().blocks().len() && self.labels().blocks()[c] == bb;
                if c != k {
                    let (i, j) = if c < k { (c, k as int) } else { (k as int, c) };
                    law_block_numbers_distinct(self.block_labels, i, j);
                }
            }
            s
        }
    }

    /// How many parameters the function has.
    pub fn param_count(&self) -> (r: usize)
        ensures
            r == self.params(),
    {
        self.param_count
    }

    pub fn get_func_id(&self) -> (r: usize)
        ensures
            r == self.id(),
    {
        self.func_id
    }
}

/// Different blocks of a function get different labels: the labels of two
/// numbers are equal only when the numbers are.
pub proof fn law_block_labels_distinct(func_id: nat, a: nat, b: nat)
    requires
        a != b,
    ensures
        block_label_text(func_id, a) != block_label_text(func_id, b),
{
    law_numeral_round_trip(a);
    law_numeral_round_trip(b);
    let p = "LBB"@ + nat_text(func_id) + "_"@;
    let ta = block_label_text(func_id, a);
    let tb = block_label_text(func_id, b);
    assert(ta =~= p + nat_text(a));
    assert(tb =~= p + nat_text(b));
    if ta == tb {
        assert(ta.skip(p.len() as int) =~= nat_text(a));
        assert(tb.skip(p.len() as int) =~= nat_text(b));
    }
}

} // verus!
