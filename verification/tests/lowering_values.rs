use koopa::ir::builder::{BasicBlockBuilder, ValueBuilder};
use koopa::ir::{BasicBlock, FunctionData, Type, Value};
use sysy_compiler::riscv::context::FunctionContext;
use sysy_compiler::riscv::expr::{alloc_asm, branch_asm, func_arg_asm, integer_asm, jump_asm, return_asm};
use sysy_compiler::riscv::func::{function_prologue, ValueNeed};
use sysy_compiler::riscv::meta::{Register, RiscvAsm};
use sysy_compiler::riscv::regmap::RegisterValue;

fn ir(n_values: usize, n_blocks: usize) -> (Vec<Value>, Vec<BasicBlock>) {
    let mut f = FunctionData::new("@f".to_string(), vec![], Type::get_i32());
    let values = (0..n_values).map(|i| f.dfg_mut().new_value().integer(i as i32)).collect();
    let blocks = (0..n_blocks).map(|_| f.dfg_mut().new_bb().basic_block(None)).collect();
    (values, blocks)
}

fn text(lines: &[RiscvAsm]) -> Vec<String> {
    lines.iter().map(|l| l.to_string()).collect()
}

#[test]
fn integers_are_loaded_into_the_lowest_free_register() {
    let (v, b) = ir(2, 1);
    let mut ctx = FunctionContext::new("@f".to_string(), b[0], 0, 1);
    assert_eq!(text(&integer_asm(&mut ctx, 5, v[0])), vec!["  li t0, 5"]);
    assert_eq!(text(&integer_asm(&mut ctx, -1, v[1])), vec!["  li t1, -1"]);
    assert_eq!(ctx.register_mapper.get_by_register(&Register::T0), Some(RegisterValue::InstRet(v[0])));
}

#[test]
fn returns_restore_ra_and_free_the_frame() {
    let (v, b) = ir(1, 1);
    let mut ctx = FunctionContext::new("@f".to_string(), b[0], 0, 1);
    function_prologue(&mut ctx, &[]);
    assert_eq!(
        text(&return_asm(&mut ctx, Some(vec![Register::T0]), v[0])),
        vec!["  mv a0, t0", "  lw ra, 0(sp)", "  addi sp, sp, 16", "  ret"]
    );
    assert_eq!(ctx.register_mapper.get_by_register(&Register::A0), None);
    assert_eq!(
        text(&return_asm(&mut ctx, Some(vec![Register::T2, Register::A0]), v[0])),
        vec!["  lw ra, 0(sp)", "  addi sp, sp, 16", "  ret"]
    );
    assert_eq!(text(&return_asm(&mut ctx, None, v[0])), vec!["  lw ra, 0(sp)", "  addi sp, sp, 16", "  ret"]);
}

#[test]
fn allocations_claim_frame_bytes() {
    let (v, b) = ir(1, 1);
    let mut ctx = FunctionContext::new("@f".to_string(), b[0], 0, 1);
    let prologue = function_prologue(&mut ctx, &[ValueNeed::Alloc { pointee: 4, pointer: 4 }]);
    assert_eq!(text(&prologue), vec!["  addi sp, sp, -16", "  sw ra, 8(sp)"]);
    assert!(alloc_asm(&mut ctx, v[0], 4).is_empty());
    assert_eq!(ctx.memory_mapper.get_offset(&v[0], 4), Some(0));
}

#[test]
fn jumps_and_branches_name_their_blocks() {
    let (v, b) = ir(1, 3);
    let mut ctx = FunctionContext::new("@main".to_string(), b[0], 0, 3);
    ctx.block_labels.insert(b[1]);
    ctx.block_labels.insert(b[2]);
    assert_eq!(text(&jump_asm(&ctx, b[2])), vec!["  j LBB3_2"]);
    assert_eq!(text(&jump_asm(&ctx, b[0])), vec!["  j main"]);
    ctx.register_mapper.insert(RegisterValue::InstRet(v[0]), Register::T0);
    assert_eq!(text(&branch_asm(&mut ctx, v[0], Register::T0, b[1], b[2])), vec!["  bnez t0, LBB3_1", "  j LBB3_2"]);
    assert_eq!(ctx.register_mapper.get_by_register(&Register::T0), None);
    assert!(ctx.register_mapper.contains_value(&v[0]));
}

#[test]
fn arguments_come_from_registers_or_the_callers_frame() {
    let (v, b) = ir(2, 1);
    let mut ctx = FunctionContext::new("@f".to_string(), b[0], 10, 1);
    let needs: Vec<ValueNeed> = (0..10).map(|i| ValueNeed::Arg { index: i, size: 4 }).collect();
    function_prologue(&mut ctx, &needs);
    assert!(func_arg_asm(&mut ctx, 0, 4, v[0]).is_empty());
    assert_eq!(ctx.register_mapper.get_by_register(&Register::A0), Some(RegisterValue::InstRet(v[0])));
    // t0 is the lowest free register that carries no parameter
    assert_eq!(text(&func_arg_asm(&mut ctx, 9, 4, v[1])), vec!["  lw t0, 20(sp)"]);
    assert_eq!(ctx.register_mapper.get_by_register(&Register::T0), Some(RegisterValue::InstRet(v[1])));
}
