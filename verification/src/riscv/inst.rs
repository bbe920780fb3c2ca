//! Building single instructions, and recording which register an
//! instruction's result lands in.
use vstd::prelude::*;

use koopa::ir::Value;

use crate::riscv::meta::{fits_imm12, RV32Imm, RV32Imm12, Register, RiscvAsm, RiscvInstruction};
use crate::riscv::regmap::{held_by, usage_of, RegisterMapper, RegisterValue};

verus! {

/// Where an instruction's destination is recorded: the mapper and the IR value
/// that the instruction computes.
pub struct InstContext<'a> {
    pub register_mapper: &'a mut RegisterMapper,
    pub id: Value,
}

impl<'a> InstContext<'a> {
    pub fn new(register_mapper: &'a mut RegisterMapper, id: Value) -> (r: InstContext<'a>)
        ensures
            r.id == id,
            *r.register_mapper == *old(register_mapper),
            *final(register_mapper) == *final(r.register_mapper),
    {
        InstContext { register_mapper, id }
    }
}

/// The value table after register `dest` is freed and then given to `id`.
pub open spec fn values_after_dest(
    values: Map<Value, Set<Register>>,
    usage: Map<Register, RegisterValue>,
    dest: Register,
    id: Value,
) -> Map<Value, Set<Register>> {
    let freed = match usage_of(usage, dest) {
        Some(RegisterValue::InstRet(w)) => values.insert(w, held_by(values, w).remove(dest)),
        _ => values,
    };
    freed.insert(id, held_by(freed, id).insert(dest))
}

/// `after` is `before` once `dest` is recorded as holding `id`.
pub open spec fn dest_recorded(before: RegisterMapper, after: RegisterMapper, dest: Register, id: Value) -> bool {
    &&& after.wf()
    &&& after.usage() == before.usage().insert(dest, RegisterValue::InstRet(id))
    &&& after.values() == values_after_dest(before.values(), before.usage(), dest, id)
}

/// Recording the same destination for the same value twice is recording it
/// once.
pub proof fn lemma_dest_recorded_twice(a: RegisterMapper, b: RegisterMapper, c: RegisterMapper, dest: Register, id: Value)
    requires
        dest_recorded(a, b, dest, id),
        dest_recorded(b, c, dest, id),
    ensures
        dest_recorded(a, c, dest, id),
{
    assert(c.usage() =~= b.usage());
    let bv = b.values();
    assert(held_by(bv, id).contains(dest));
    assert(held_by(bv, id).remove(dest).insert(dest) =~= held_by(bv, id));
    assert(c.values() =~~= bv);
}

/// Records that `dest` now holds the context's value, after freeing it.
pub fn register_dest(dest: Register, context: Option<InstContext>)
    requires
        context matches Some(ctx) ==> ctx.register_mapper.wf(),
    ensures
        context matches Some(ctx) ==> dest_recorded(*ctx.register_mapper, *final(ctx.register_mapper), dest, ctx.id),
{
    match context {
        Some(ctx) => {
            let ghost before = *ctx.register_mapper;
            ctx.register_mapper.remove_by_register(dest);
            ctx.register_mapper.insert(RegisterValue::InstRet(ctx.id), dest);
            assert(ctx.register_mapper.usage() =~= before.usage().insert(dest, RegisterValue::InstRet(ctx.id)));
        },
        None => {},
    }
}

/// A label line.
pub fn label(name: &str) -> (r: RiscvAsm)
    ensures
        r matches RiscvAsm::Label(s) && s@ == name@,
{
    RiscvAsm::Label(name.to_string())
}

/// `ret`.
pub fn ret_instruction() -> (r: RiscvAsm)
    ensures
        r == RiscvAsm::Instruction(RiscvInstruction::Ret),
{
    RiscvAsm::Instruction(RiscvInstruction::Ret)
}

/// `call func`.
pub fn call_instruction(func: &str) -> (r: RiscvAsm)
    ensures
        r matches RiscvAsm::Instruction(RiscvInstruction::Call { func: f }) && f@ == func@,
{
    RiscvAsm::Instruction(RiscvInstruction::Call { func: func.to_string() })
}

/// `li dest, imm`; records `dest` in the context.
pub fn li_instruction(dest: Register, imm: i32, context: Option<InstContext>) -> (r: RiscvAsm)
    requires
        context matches Some(ctx) ==> ctx.register_mapper.wf(),
    ensures
        r == RiscvAsm::Instruction(RiscvInstruction::Li { dest, imm: RV32Imm::Num(imm) }),
        context matches Some(ctx) ==> dest_recorded(*ctx.register_mapper, *final(ctx.register_mapper), dest, ctx.id),
{
    register_dest(dest, context);
    RiscvAsm::Instruction(RiscvInstruction::Li { dest, imm: RV32Imm::new(imm) })
}

/// `mv dest, src`; records `dest` in the context.
pub fn mv_instruction(dest: Register, src: Register, context: Option<InstContext>) -> (r: RiscvAsm)
    requires
        context matches Some(ctx) ==> ctx.register_mapper.wf(),
    ensures
        r == RiscvAsm::Instruction(RiscvInstruction::Mv { dest, src }),
        context matches Some(ctx) ==> dest_recorded(*ctx.register_mapper, *final(ctx.register_mapper), dest, ctx.id),
{
    register_dest(dest, context);
    RiscvAsm::Instruction(RiscvInstruction::Mv { dest, src })
}

/// `la dest, name`; records `dest` in the context.
pub fn la_instruction(dest: Register, name: &str, context: Option<InstContext>) -> (r: RiscvAsm)
    requires
        context matches Some(ctx) ==> ctx.register_mapper.wf(),
    ensures
        r matches RiscvAsm::Instruction(RiscvInstruction::La { dest: d, label: l }) && d == dest && l@ == name@,
        context matches Some(ctx) ==> dest_recorded(*ctx.register_mapper, *final(ctx.register_mapper), dest, ctx.id),
{
    register_dest(dest, context);
    RiscvAsm::Instruction(RiscvInstruction::La { dest, label: name.to_string() })
}

/// `add dest, src1, src2`; records `dest` in the context.
pub fn add_instruction(dest: Register, src1: Register, src2: Register, context: Option<InstContext>) -> (r: RiscvAsm)
    requires
        context matches Some(ctx) ==> ctx.register_mapper.wf(),
    ensures
        r == RiscvAsm::Instruction(RiscvInstruction::Add { dest, src1, src2 }),
        context matches Some(ctx) ==> dest_recorded(*ctx.register_mapper, *final(ctx.register_mapper), dest, ctx.id),
{
    register_dest(dest, context);
    RiscvAsm::Instruction(RiscvInstruction::Add { dest, src1, src2 })
}

/// `sub dest, src1, src2`; records `dest` in the context.
pub fn sub_instruction(dest: Register, src1: Register, src2: Register, context: Option<InstContext>) -> (r: RiscvAsm)
    requires
        context matches Some(ctx) ==> ctx.register_mapper.wf(),
    ensures
        r == RiscvAsm::Instruction(RiscvInstruction::Sub { dest, src1, src2 }),
        context matches Some(ctx) ==> dest_recorded(*ctx.register_mapper, *final(ctx.register_mapper), dest, ctx.id),
{
    register_dest(dest, context);
    RiscvAsm::Instruction(RiscvInstruction::Sub { dest, src1, src2 })
}

/// `mul dest, src1, src2`; records `dest` in the context.
pub fn mul_instruction(dest: Register, src1: Register, src2: Register, context: Option<InstContext>) -> (r: RiscvAsm)
    requires
        context matches Some(ctx) ==> ctx.register_mapper.wf(),
    ensures
        r == RiscvAsm::Instruction(RiscvInstruction::Mul { dest, src1, src2 }),
        context matches Some(ctx) ==> dest_recorded(*ctx.register_mapper, *final(ctx.register_mapper), dest, ctx.id),
{
    register_dest(dest, context);
    RiscvAsm::Instruction(RiscvInstruction::Mul { dest, src1, src2 })
}

/// `div dest, src1, src2`; records `dest` in the context.
pub fn div_instruction(dest: Register, src1: Register, src2: Register, context: Option<InstContext>) -> (r: RiscvAsm)
    requires
        context matches Some(ctx) ==> ctx.register_mapper.wf(),
    ensures
        r == RiscvAsm::Instruction(RiscvInstruction::Div { dest, src1, src2 }),
        context matches Some(ctx) ==> dest_recorded(*ctx.register_mapper, *final(ctx.register_mapper), dest, ctx.id),
{
    register_dest(dest, context);
    RiscvAsm::Instruction(RiscvInstruction::Div { dest, src1, src2 })
}

/// `rem dest, src1, src2`; records `dest` in the context.
pub fn rem_instruction(dest: Register, src1: Register, src2: Register, context: Option<InstContext>) -> (r: RiscvAsm)
    requires
        context matches Some(ctx) ==> ctx.register_mapper.wf(),
    ensures
        r == RiscvAsm::Instruction(RiscvInstruction::Mod { dest, src1, src2 }),
        context matches Some(ctx) ==> dest_recorded(*ctx.register_mapper, *final(ctx.register_mapper), dest, ctx.id),
{
    register_dest(dest, context);
    RiscvAsm::Instruction(RiscvInstruction::Mod { dest, src1, src2 })
}

/// `and dest, src1, src2`; records `dest` in the context.
pub fn and_instruction(dest: Register, src1: Register, src2: Register, context: Option<InstContext>) -> (r: RiscvAsm)
    requires
        context matches Some(ctx) ==> ctx.register_mapper.wf(),
    ensures
        r == RiscvAsm::Instruction(RiscvInstruction::And { dest, src1, src2 }),
        context matches Some(ctx) ==> dest_recorded(*ctx.register_mapper, *final(ctx.register_mapper), dest, ctx.id),
{
    register_dest(dest, context);
    RiscvAsm::Instruction(RiscvInstruction::And { dest, src1, src2 })
}

/// `or dest, src1, src2`; records `dest` in the context.
pub fn or_instruction(dest: Register, src1: Register, src2: Register, context: Option<InstContext>) -> (r: RiscvAsm)
    requires
        context matches Some(ctx) ==> ctx.register_mapper.wf(),
    ensures
        r == RiscvAsm::Instruction(RiscvInstruction::Or { dest, src1, src2 }),
        context matches Some(ctx) ==> dest_recorded(*ctx.register_mapper, *final(ctx.register_mapper), dest, ctx.id),
{
    register_dest(dest, context);
    RiscvAsm::Instruction(RiscvInstruction::Or { dest, src1, src2 })
}

/// `xor dest, src1, src2`; records `dest` in the context.
pub fn xor_instruction(dest: Register, src1: Register, src2: Register, context: Option<InstContext>) -> (r: RiscvAsm)
    requires
        context matches Some(ctx) ==> ctx.register_mapper.wf(),
    ensures
        r == RiscvAsm::Instruction(RiscvInstruction::Xor { dest, src1, src2 }),
        context matches Some(ctx) ==> dest_recorded(*ctx.register_mapper, *final(ctx.register_mapper), dest, ctx.id),
{
    register_dest(dest, context);
    RiscvAsm::Instruction(RiscvInstruction::Xor { dest, src1, src2 })
}

/// `slt dest, src1, src2`; records `dest` in the context.
pub fn slt_instruction(dest: Register, src1: Register, src2: Register, context: Option<InstContext>) -> (r: RiscvAsm)
    requires
        context matches Some(ctx) ==> ctx.register_mapper.wf(),
    ensures
        r == RiscvAsm::Instruction(RiscvInstruction::Slt { dest, src1, src2 }),
        context matches Some(ctx) ==> dest_recorded(*ctx.register_mapper, *final(ctx.register_mapper), dest, ctx.id),
{
    register_dest(dest, context);
    RiscvAsm::Instruction(RiscvInstruction::Slt { dest, src1, src2 })
}

/// `sgt dest, src1, src2`; records `dest` in the context.
pub fn sgt_instruction(dest: Register, src1: Register, src2: Register, context: Option<InstContext>) -> (r: RiscvAsm)
    requires
        context matches Some(ctx) ==> ctx.register_mapper.wf(),
    ensures
        r == RiscvAsm::Instruction(RiscvInstruction::Sgt { dest, src1, src2 }),
        context matches Some(ctx) ==> dest_recorded(*ctx.register_mapper, *final(ctx.register_mapper), dest, ctx.id),
{
    register_dest(dest, context);
    RiscvAsm::Instruction(RiscvInstruction::Sgt { dest, src1, src2 })
}

/// `seqz dest, src`; records `dest` in the context.
pub fn seqz_instruction(dest: Register, src: Register, context: Option<InstContext>) -> (r: RiscvAsm)
    requires
        context matches Some(ctx) ==> ctx.register_mapper.wf(),
    ensures
        r == RiscvAsm::Instruction(RiscvInstruction::Seqz { dest, src }),
        context matches Some(ctx) ==> dest_recorded(*ctx.register_mapper, *final(ctx.register_mapper), dest, ctx.id),
{
    register_dest(dest, context);
    RiscvAsm::Instruction(RiscvInstruction::Seqz { dest, src })
}

/// `snez dest, src`; records `dest` in the context.
pub fn snez_instruction(dest: Register, src: Register, context: Option<InstContext>) -> (r: RiscvAsm)
    requires
        context matches Some(ctx) ==> ctx.register_mapper.wf(),
    ensures
        r == RiscvAsm::Instruction(RiscvInstruction::Snez { dest, src }),
        context matches Some(ctx) ==> dest_recorded(*ctx.register_mapper, *final(ctx.register_mapper), dest, ctx.id),
{
    register_dest(dest, context);
    RiscvAsm::Instruction(RiscvInstruction::Snez { dest, src })
}

/// `addi dest, src, imm`; the immediate must fit in 12 bits. Records `dest` in the context.
pub fn addi_instruction(dest: Register, src: Register, imm: i16, context: Option<InstContext>) -> (r: RiscvAsm)
    requires
        fits_imm12(imm as int),
        context matches Some(ctx) ==> ctx.register_mapper.wf(),
    ensures
        r == RiscvAsm::Instruction(RiscvInstruction::Addi { dest, src1: src, src2: RV32Imm12::Num(imm) }),
        context matches Some(ctx) ==> dest_recorded(*ctx.register_mapper, *final(ctx.register_mapper), dest, ctx.id),
{
    register_dest(dest, context);
    RiscvAsm::Instruction(RiscvInstruction::Addi { dest, src1: src, src2: RV32Imm12::new(imm) })
}

/// `lw dest, offset(base)`; the offset must fit in 12 bits. Records `dest` in the context.
pub fn lw_instruction(dest: Register, base: Register, offset: i16, context: Option<InstContext>) -> (r: RiscvAsm)
    requires
        fits_imm12(offset as int),
        context matches Some(ctx) ==> ctx.register_mapper.wf(),
    ensures
        r == RiscvAsm::Instruction(RiscvInstruction::Lw { dest, base, offset: RV32Imm12::Num(offset) }),
        context matches Some(ctx) ==> dest_recorded(*ctx.register_mapper, *final(ctx.register_mapper), dest, ctx.id),
{
    register_dest(dest, context);
    RiscvAsm::Instruction(RiscvInstruction::Lw { dest, base, offset: RV32Imm12::new(offset) })
}

/// `sw src, offset(base)`; the offset must fit in 12 bits. A store writes no register, so the context is left as it is.
pub fn sw_instruction(src: Register, base: Register, offset: i16, context: Option<InstContext>) -> (r: RiscvAsm)
    requires
        fits_imm12(offset as int),
    ensures
        r == RiscvAsm::Instruction(RiscvInstruction::Sw { src, base, offset: RV32Imm12::Num(offset) }),
        context matches Some(ctx) ==> *final(ctx.register_mapper) == *ctx.register_mapper,
{
    RiscvAsm::Instruction(RiscvInstruction::Sw { src, base, offset: RV32Imm12::new(offset) })
}

/// `j name`.
pub fn j_instruction(name: &str) -> (r: RiscvAsm)
    ensures
        r matches RiscvAsm::Instruction(RiscvInstruction::J { label: l }) && l@ == name@,
{
    RiscvAsm::Instruction(RiscvInstruction::J { label: name.to_string() })
}

/// `beqz src, name`.
pub fn beqz_instruction(src: Register, name: &str) -> (r: RiscvAsm)
    ensures
        r matches RiscvAsm::Instruction(RiscvInstruction::Beqz { src: s, label: l }) && s == src && l@ == name@,
{
    RiscvAsm::Instruction(RiscvInstruction::Beqz { src, label: name.to_string() })
}

/// `bnez src, name`.
pub fn bnez_instruction(src: Register, name: &str) -> (r: RiscvAsm)
    ensures
        r matches RiscvAsm::Instruction(RiscvInstruction::Bnez { src: s, label: l }) && s == src && l@ == name@,
{
    RiscvAsm::Instruction(RiscvInstruction::Bnez { src, label: name.to_string() })
}

/// `lui dest, imm`; records `dest` in the context.
pub fn lui_instruction(dest: Register, imm: RV32Imm, context: Option<InstContext>) -> (r: RiscvAsm)
    requires
        context matches Some(ctx) ==> ctx.register_mapper.wf(),
    ensures
        r == RiscvAsm::Instruction(RiscvInstruction::Lui { dest, imm }),
        context matches Some(ctx) ==> dest_recorded(*ctx.register_mapper, *final(ctx.register_mapper), dest, ctx.id),
{
    register_dest(dest, context);
    RiscvAsm::Instruction(RiscvInstruction::Lui { dest, imm })
}

/// The number of an immediate that is a number.
pub open spec fn imm_num(imm: RV32Imm) -> int {
    match imm {
        RV32Imm::Num(v) => v as int,
        RV32Imm::Label(_) => 0,
    }
}

/// `lw dest, offset(src)`; when the offset does not fit in 12 bits, the
/// address is first built in `rd`. Records `dest` in the context.
pub fn add_lw_instruction(
    dest: Register,
    src: Register,
    offset: RV32Imm,
    context: Option<InstContext>,
    rd: Option<Register>,
) -> (r: Vec<RiscvAsm>)
    requires
        offset is Num,
        !fits_imm12(imm_num(offset)) ==> rd is Some,
        context matches Some(ctx) ==> ctx.register_mapper.wf(),
    ensures
        fits_imm12(imm_num(offset)) ==> r@ == seq![
            RiscvAsm::Instruction(RiscvInstruction::Lw { dest, base: src, offset: RV32Imm12::Num(imm_num(offset) as i16) }),
        ],
        !fits_imm12(imm_num(offset)) ==> r@ == seq![
            RiscvAsm::Instruction(RiscvInstruction::Li { dest: rd->0, imm: offset }),
            RiscvAsm::Instruction(RiscvInstruction::Add { dest: rd->0, src1: src, src2: rd->0 }),
            RiscvAsm::Instruction(RiscvInstruction::Lw { dest, base: rd->0, offset: RV32Imm12::Num(0) }),
        ],
        context matches Some(ctx) ==> dest_recorded(*ctx.register_mapper, *final(ctx.register_mapper), dest, ctx.id),
{
    let value = offset.value();
    if value < -2048 || value > 2047 {
        let t = rd.unwrap();
        let mut asms: Vec<RiscvAsm> = Vec::new();
        asms.push(li_instruction(t, value, None));
        asms.push(add_instruction(t, src, t, None));
        asms.push(lw_instruction(dest, t, 0, context));
        assert(asms@ =~= seq![
            RiscvAsm::Instruction(RiscvInstruction::Li { dest: t, imm: offset }),
            RiscvAsm::Instruction(RiscvInstruction::Add { dest: t, src1: src, src2: t }),
            RiscvAsm::Instruction(RiscvInstruction::Lw { dest, base: t, offset: RV32Imm12::Num(0) }),
        ]);
        return asms;
    }
    let mut asms: Vec<RiscvAsm> = Vec::new();
    asms.push(lw_instruction(dest, src, value as i16, context));
    assert(asms@ =~= seq![
        RiscvAsm::Instruction(RiscvInstruction::Lw { dest, base: src, offset: RV32Imm12::Num(value as i16) }),
    ]);
    asms
}

/// `sw src, offset(base)`; when the offset does not fit in 12 bits, the
/// address is first built in `rd`. A store records nothing in the context.
pub fn add_sw_instruction(
    src: Register,
    base: Register,
    offset: RV32Imm,
    context: Option<InstContext>,
    rd: Option<Register>,
) -> (r: Vec<RiscvAsm>)
    requires
        offset is Num,
        !fits_imm12(imm_num(offset)) ==> rd is Some,
    ensures
        fits_imm12(imm_num(offset)) ==> r@ == seq![
            RiscvAsm::Instruction(RiscvInstruction::Sw { src, base, offset: RV32Imm12::Num(imm_num(offset) as i16) }),
        ],
        !fits_imm12(imm_num(offset)) ==> r@ == seq![
            RiscvAsm::Instruction(RiscvInstruction::Li { dest: rd->0, imm: offset }),
            RiscvAsm::Instruction(RiscvInstruction::Add { dest: rd->0, src1: base, src2: rd->0 }),
            RiscvAsm::Instruction(RiscvInstruction::Sw { src, base: rd->0, offset: RV32Imm12::Num(0) }),
        ],
        context matches Some(ctx) ==> *final(ctx.register_mapper) == *ctx.register_mapper,
{
    let value = offset.value();
    if value < -2048 || value > 2047 {
        let t = rd.unwrap();
        let mut asms: Vec<RiscvAsm> = Vec::new();
        asms.push(li_instruction(t, value, None));
        asms.push(add_instruction(t, base, t, None));
        asms.push(sw_instruction(src, t, 0, None));
        assert(asms@ =~= seq![
            RiscvAsm::Instruction(RiscvInstruction::Li { dest: t, imm: offset }),
            RiscvAsm::Instruction(RiscvInstruction::Add { dest: t, src1: base, src2: t }),
            RiscvAsm::Instruction(RiscvInstruction::Sw { src, base: t, offset: RV32Imm12::Num(0) }),
        ]);
        return asms;
    }
    let mut asms: Vec<RiscvAsm> = Vec::new();
    asms.push(sw_instruction(src, base, value as i16, context));
    assert(asms@ =~= seq![
        RiscvAsm::Instruction(RiscvInstruction::Sw { src, base, offset: RV32Imm12::Num(value as i16) }),
    ]);
    asms
}

/// Stores `src` at the address of `name`, built in `rd` (which must be given).
pub fn label_sw_instruction(src: Register, name: &str, context: Option<InstContext>, rd: Option<Register>) -> (r: Vec<RiscvAsm>)
    requires
        rd is Some,
    ensures
        r@.len() == 2,
        r@[0] matches RiscvAsm::Instruction(RiscvInstruction::La { dest: d, label: l }) && d == rd->0 && l@ == name@,
        r@[1] == RiscvAsm::Instruction(RiscvInstruction::Sw { src, base: rd->0, offset: RV32Imm12::Num(0) }),
        context matches Some(ctx) ==> *final(ctx.register_mapper) == *ctx.register_mapper,
{
    let t = rd.unwrap();
    let mut asms: Vec<RiscvAsm> = Vec::new();
    asms.push(la_instruction(t, name, None));
    asms.push(sw_instruction(src, t, 0, None));
    asms
}

} // verus!
