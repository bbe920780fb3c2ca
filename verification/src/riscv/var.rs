//! Global data: its definitions in the data section, and loading and storing
//! it by its label.
use vstd::prelude::*;
use vstd::string::StringExecFns;

use koopa::ir::{Type, Value};

use crate::riscv::context::FunctionContext;
use crate::riscv::expr::{lemma_lowest_free, lowest_free, obtain_caller_directly_usable_register, takes_result};
use crate::riscv::inst::{dest_recorded, la_instruction, label_sw_instruction, lemma_dest_recorded_twice, lw_instruction, register_dest, InstContext};
use crate::riscv::meta::{RV32Imm, RV32Imm12, RV32Usize, Register, RiscvAsm, RiscvInit, RiscvInstruction};

verus! {

/// The initial value of a global datum.
#[derive(Debug)]
pub enum GlobalInit {
    /// `size` zero bytes.
    Zero(RV32Usize),
    /// One word.
    Int(i32),
    /// The elements of an array, in order.
    Aggregate(Vec<GlobalInit>),
}

/// The data lines of an initial value: one `.zero` or `.word` per leaf.
pub open spec fn init_lines(i: GlobalInit) -> Seq<RiscvAsm>
    decreases i, 0nat,
{
    match i {
        GlobalInit::Zero(size) => seq![RiscvAsm::Init(RiscvInit::Zero(size))],
        GlobalInit::Int(v) => seq![RiscvAsm::Init(RiscvInit::Word(RV32Imm::Num(v)))],
        GlobalInit::Aggregate(es) => inits_lines(es@, es@.len()),
    }
}

/// The data lines of the first `n` elements.
pub open spec fn inits_lines(es: Seq<GlobalInit>, n: nat) -> Seq<RiscvAsm>
    decreases es, n,
{
    if n == 0 || n > es.len() {
        Seq::empty()
    } else {
        inits_lines(es, (n - 1) as nat) + init_lines(es[n - 1])
    }
}

/// The data lines of an initial value.
pub fn init_global_var(init: &GlobalInit) -> (r: Vec<RiscvAsm>)
    ensures
        r@ == init_lines(*init),
    decreases *init, 0nat,
{
    match init {
        GlobalInit::Zero(size) => {
            let mut v: Vec<RiscvAsm> = Vec::new();
            v.push(RiscvAsm::Init(RiscvInit::Zero(*size)));
            v
        },
        GlobalInit::Int(value) => {
            let mut v: Vec<RiscvAsm> = Vec::new();
            v.push(RiscvAsm::Init(RiscvInit::Word(RV32Imm::new(*value))));
            v
        },
        GlobalInit::Aggregate(es) => {
            let mut v: Vec<RiscvAsm> = Vec::new();
            let mut i: usize = 0;
            while i < es.len()
                invariant
                    i <= es@.len(),
                    v@ == inits_lines(es@, i as nat),
                    *init == GlobalInit::Aggregate(*es),
                decreases es.len() - i,
            {
                proof {
                    assert(decreases_to!(*init => (*init)->Aggregate_0));
                    assert((*init)->Aggregate_0 == *es);
                    assert(decreases_to!(*es => es@));
                    assert(decreases_to!(es@ => es@[i as int]));
                }
                let mut part = init_global_var(&es[i]);
                v.append(&mut part);
                i = i + 1;
            }
            v
        },
    }
}

/// `lines` define the global named `name` (without its sigil) with initial
/// value `init`: `.globl`, the label, the data, and an empty line.
pub open spec fn defines_global(lines: Seq<RiscvAsm>, name: Seq<char>, init: GlobalInit) -> bool {
    &&& lines.len() == init_lines(init).len() + 3
    &&& lines[0] matches RiscvAsm::Global(g) && g@ == name
    &&& lines[1] matches RiscvAsm::Label(l) && l@ == name
    &&& lines.subrange(2, lines.len() - 1) == init_lines(init)
    &&& lines.last() == RiscvAsm::Blank
}

/// `lines` define the given globals, in order; their IR names carry a sigil.
pub open spec fn defines_globals(lines: Seq<RiscvAsm>, globals: Seq<(String, GlobalInit)>) -> bool
    decreases globals.len(),
{
    if globals.len() == 0 {
        lines.len() == 0
    } else {
        let g = globals.last();
        let k = init_lines(g.1).len() + 3;
        &&& lines.len() >= k
        &&& defines_global(lines.subrange(lines.len() - k, lines.len() as int), g.0@.drop_first(), g.1)
        &&& defines_globals(lines.subrange(0, lines.len() - k), globals.drop_last())
    }
}

/// An IR name whose first character (its sigil) is ASCII.
pub open spec fn sigil_name(name: Seq<char>) -> bool {
    name.len() > 0 && (name[0] as u32) < 128
}

/// The data section's lines for the global variables, each given by its IR
/// name and initial value.
pub fn register_global_var(globals: &[(String, GlobalInit)]) -> (r: Vec<RiscvAsm>)
    requires
        forall|k: int| 0 <= k < globals@.len() ==> sigil_name((#[trigger] globals@[k]).0@),
    ensures
        defines_globals(r@, globals@),
{
    let mut insts: Vec<RiscvAsm> = Vec::new();
    let mut i: usize = 0;
    while i < globals.len()
        invariant
            i <= globals@.len(),
            forall|k: int| 0 <= k < globals@.len() ==> sigil_name((#[trigger] globals@[k]).0@),
            defines_globals(insts@, globals@.take(i as int)),
        decreases globals.len() - i,
    {
        let (name, init) = &globals[i];
        assert(sigil_name(globals@[i as int].0@));
        let len = name.as_str().unicode_len();
        let short = name.as_str().substring_char(1, len);
        let ghost before = insts@;
        insts.push(RiscvAsm::Global(short.to_string()));
        insts.push(RiscvAsm::Label(short.to_string()));
        let mut data = init_global_var(init);
        insts.append(&mut data);
        insts.push(RiscvAsm::Blank);
        proof {
            let gs = globals@.take(i + 1);
            assert(gs.drop_last() =~= globals@.take(i as int));
            assert(gs.last() == globals@[i as int]);
            let k = init_lines(*init).len() + 3;
            assert(insts@.subrange(0, insts@.len() - k) =~= before);
            let seg = insts@.subrange(insts@.len() - k, insts@.len() as int);
            assert(seg.subrange(2, seg.len() - 1) =~= init_lines(*init));
            assert(short@ =~= name@.drop_first());
        }
        i = i + 1;
    }
    assert(globals@.take(i as int) =~= globals@);
    insts
}

/// Loads the global named `name` (its IR name, with a sigil) into the lowest
/// free register, recorded as holding `id` when one is given. Fails when the
/// global has no name.
pub fn load_from_global(context: &mut FunctionContext, name: Option<String>, id: Option<Value>) -> (r: Result<(Vec<RiscvAsm>, Register), String>)
    requires
        old(context).registers().wf(),
        exists|reg: Register| takes_result(*old(context), reg),
        name matches Some(n) ==> sigil_name(n@),
    ensures
        name is None ==> (r matches Err(e) && e@ == "Global variable should have a name"@) && *final(context) == *old(context),
        name matches Some(n) ==> {
            let rd = lowest_free(*old(context));
            &&& match r {
                Ok((asms, reg)) => {
                    &&& reg == rd
                    &&& asms@.len() == 2
                    &&& asms@[0] matches RiscvAsm::Instruction(RiscvInstruction::La { dest: d, label: l }) && d == rd && l@ == n@.drop_first()
                    &&& asms@[1] == RiscvAsm::Instruction(RiscvInstruction::Lw { dest: rd, base: rd, offset: RV32Imm12::Num(0) })
                },
                Err(_) => false,
            }
            &&& id matches Some(v) ==> dest_recorded(old(context).registers(), final(context).registers(), rd, v)
            &&& id is None ==> final(context).registers() == old(context).registers()
            &&& final(context).memory() == old(context).memory()
            &&& final(context).labels() == old(context).labels()
            &&& final(context).name() == old(context).name()
            &&& final(context).params() == old(context).params()
            &&& final(context).id() == old(context).id()
        },
{
    let rd = obtain_caller_directly_usable_register(context);
    proof {
        lemma_lowest_free(*context, rd);
    }
    let n = match name {
        Some(n) => n,
        None => {
            return Err(String::from_str("Global variable should have a name"));
        },
    };
    let len = n.as_str().unicode_len();
    let short = n.as_str().substring_char(1, len);
    let mut asms: Vec<RiscvAsm> = Vec::new();
    asms.push(la_instruction(rd, short, None));
    match id {
        Some(v) => {
            let ghost start = context.registers();
            asms.push(lw_instruction(rd, rd, 0, Some(InstContext::new(&mut context.register_mapper, v))));
            let ghost mid = context.registers();
            register_dest(rd, Some(InstContext::new(&mut context.register_mapper, v)));
            proof {
                lemma_dest_recorded_twice(start, mid, context.registers(), rd, v);
            }
        },
        None => {
            asms.push(lw_instruction(rd, rd, 0, None));
            register_dest(rd, None);
        },
    }
    Ok((asms, rd))
}

/// Stores `src` into the global named `name` (its IR name, with a sigil),
/// through the lowest free register. Fails when the global has no name.
pub fn store_to_global(src: Register, name: Option<String>, context: &mut FunctionContext, id: Option<Value>) -> (r: Result<Vec<RiscvAsm>, String>)
    requires
        old(context).registers().wf(),
        name matches Some(n) ==> sigil_name(n@) && exists|reg: Register| takes_result(*old(context), reg),
    ensures
        *final(context) == *old(context),
        name is None ==> (r matches Err(e) && e@ == "Global variable should have a name"@),
        name matches Some(n) ==> {
            let tmp = lowest_free(*old(context));
            match r {
                Ok(asms) => {
                    &&& asms@.len() == 2
                    &&& asms@[0] matches RiscvAsm::Instruction(RiscvInstruction::La { dest: d, label: l }) && d == tmp && l@ == n@.drop_first()
                    &&& asms@[1] == RiscvAsm::Instruction(RiscvInstruction::Sw { src, base: tmp, offset: RV32Imm12::Num(0) })
                },
                Err(_) => false,
            }
        },
{
    let n = match name {
        Some(n) => n,
        None => {
            return Err(String::from_str("Global variable should have a name"));
        },
    };
    let len = n.as_str().unicode_len();
    let short = n.as_str().substring_char(1, len);
    let tmp = obtain_caller_directly_usable_register(context);
    proof {
        lemma_lowest_free(*context, tmp);
    }
    let asms = match id {
        Some(v) => label_sw_instruction(src, short, Some(InstContext::new(&mut context.register_mapper, v)), Some(tmp)),
        None => label_sw_instruction(src, short, None, Some(tmp)),
    };
    Ok(asms)
}

/// The register that already holds a value: `zero` for the integer 0.
/// `integer` is the value when the IR value is an integer constant.
pub fn handle_special_cases(integer: Option<i32>) -> (r: Option<Register>)
    ensures
        r == (if integer == Some(0i32) { Some(Register::Zero) } else { None }),
{
    match integer {
        Some(0) => Some(Register::Zero),
        _ => None,
    }
}

/// How to load a value: the IR value to record the loaded register for, if
/// any, and the type loaded.
#[derive(Debug)]
pub struct LoadContext {
    pub id: Option<Value>,
    pub ty: Type,
}

impl LoadContext {
    pub fn new(ty: Type) -> (r: Self)
        ensures
            r.id is None,
            r.ty == ty,
    {
        Self { id: None, ty }
    }

    pub fn with_id(self, id: Value) -> (r: Self)
        ensures
            r.id == Some(id),
            r.ty == self.ty,
    {
        Self { id: Some(id), ty: self.ty }
    }

    pub fn with_ty(self, ty: Type) -> (r: Self)
        ensures
            r.id == self.id,
            r.ty == ty,
    {
        Self { id: self.id, ty }
    }
}

/// How to store a value: the IR value the store stands for, if any, whether
/// the target's frame bytes are claimed first, and the type stored.
#[derive(Debug)]
pub struct StoreContext {
    pub id: Option<Value>,
    pub claim: bool,
    pub ty: Type,
}

impl StoreContext {
    pub fn new(ty: Type) -> (r: Self)
        ensures
            r.id is None,
            !r.claim,
            r.ty == ty,
    {
        Self { id: None, claim: false, ty }
    }

    pub fn with_id(self, id: Value) -> (r: Self)
        ensures
            r.id == Some(id),
            r.claim == self.claim,
            r.ty == self.ty,
    {
        Self { id: Some(id), claim: self.claim, ty: self.ty }
    }

    pub fn with_claim(self, claim: bool) -> (r: Self)
        ensures
            r.id == self.id,
            r.claim == claim,
            r.ty == self.ty,
    {
        Self { id: self.id, claim, ty: self.ty }
    }

    pub fn with_ty(self, ty: Type) -> (r: Self)
        ensures
            r.id == self.id,
            r.claim == self.claim,
            r.ty == ty,
    {
        Self { id: self.id, claim: self.claim, ty }
    }
}

} // verus!
