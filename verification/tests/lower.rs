use koopa::ir::builder::{BasicBlockBuilder, ValueBuilder};
use koopa::ir::{BasicBlock, FunctionData, Type, Value};
use sysy_compiler::riscv::context::FunctionContext;
use sysy_compiler::riscv::expr::BinaryOp;
use sysy_compiler::riscv::func::{function_prologue, ValueNeed};
use sysy_compiler::riscv::lower::{
    binary_to_asm, branch_value_asm, call_asm, call_setup_asm, return_value_asm, get_value, load_asm, load_from_local, store_asm, store_to_local, Operand, OperandKind, Place,
};
use sysy_compiler::riscv::meta::{Register, RiscvAsm};
use sysy_compiler::riscv::regmap::RegisterValue;

fn ir(n_values: usize) -> (Vec<Value>, BasicBlock) {
    let mut f = FunctionData::new("@f".to_string(), vec![], Type::get_i32());
    let values = (0..n_values).map(|i| f.dfg_mut().new_value().integer(i as i32)).collect();
    let bb = f.dfg_mut().new_bb().basic_block(None);
    (values, bb)
}

fn text(lines: &[RiscvAsm]) -> Vec<String> {
    lines.iter().map(|l| l.to_string()).collect()
}

fn konst(value: Value, v: i32) -> Operand {
    Operand { value, kind: OperandKind::Integer(v), size: 4 }
}

fn computed(value: Value) -> Operand {
    Operand { value, kind: OperandKind::Computed, size: 4 }
}

/// A context whose frame has room for `slots` words besides `ra`.
fn framed(bb: BasicBlock, params: usize, slots: usize) -> FunctionContext {
    let mut ctx = FunctionContext::new("@f".to_string(), bb, params, 1);
    let needs: Vec<ValueNeed> = (0..slots).map(|_| ValueNeed::Result(4)).collect();
    function_prologue(&mut ctx, &needs);
    ctx
}

#[test]
fn prologue_on_a_fresh_context_reserves_and_saves_ra() {
    let (_, bb) = ir(0);
    let mut ctx = FunctionContext::new("@main".to_string(), bb, 0, 1);
    let asms = function_prologue(&mut ctx, &[ValueNeed::Result(4), ValueNeed::Alloc { pointee: 4, pointer: 4 }]);
    // 4 (ra) + 4 + 8 = 16 bytes
    assert_eq!(text(&asms), vec!["  addi sp, sp, -16", "  sw ra, 12(sp)"]);
    assert_eq!(ctx.memory_mapper.stack_alloc_size(), 16);
}

#[test]
fn binary_of_constants_is_computed_and_stored() {
    let (v, bb) = ir(3);
    let mut ctx = framed(bb, 0, 2);
    let asms = binary_to_asm(&mut ctx, v[2], BinaryOp::Add, konst(v[0], 7), konst(v[1], 0), 4);
    assert_eq!(text(&asms), vec!["  li t0, 7", "  add t0, t0, zero", "  sw t0, 0(sp)"]);
    // every register is free again
    assert_eq!(ctx.register_mapper.get_by_register(&Register::T0), None);
    assert_eq!(ctx.register_mapper.get_by_value(&v[2]), None);
}

#[test]
fn binary_reads_earlier_results_from_their_slots() {
    let (v, bb) = ir(5);
    let mut ctx = framed(bb, 0, 2);
    binary_to_asm(&mut ctx, v[2], BinaryOp::Add, konst(v[0], 7), konst(v[1], 0), 4);
    let asms = binary_to_asm(&mut ctx, v[3], BinaryOp::Sub, computed(v[2]), konst(v[4], 3), 4);
    assert_eq!(text(&asms), vec!["  lw t0, 0(sp)", "  li t1, 3", "  sub t0, t0, t1", "  sw t0, 4(sp)"]);
}

#[test]
fn equality_with_zero_is_a_single_test() {
    let (v, bb) = ir(4);
    let mut ctx = framed(bb, 0, 2);
    binary_to_asm(&mut ctx, v[2], BinaryOp::Add, konst(v[0], 5), konst(v[1], 0), 4);
    let asms = binary_to_asm(&mut ctx, v[3], BinaryOp::Eq, computed(v[2]), konst(v[1], 0), 4);
    assert_eq!(text(&asms), vec!["  lw t0, 0(sp)", "  seqz t1, t0", "  sw t1, 4(sp)"]);
}

#[test]
fn arguments_are_fetched_from_their_registers() {
    let (v, bb) = ir(3);
    let mut ctx = framed(bb, 2, 1);
    let arg = Operand { value: v[0], kind: OperandKind::FuncArg { index: 1, size: 4 }, size: 4 };
    let (asms, reg) = get_value(&mut ctx, &arg);
    assert!(asms.is_empty());
    assert_eq!(reg, Register::A1);
    assert_eq!(ctx.register_mapper.get_by_register(&Register::A1), Some(RegisterValue::InstRet(v[0])));
    // a value already in a register is used in place
    let (asms, reg) = get_value(&mut ctx, &computed(v[0]));
    assert!(asms.is_empty());
    assert_eq!(reg, Register::A1);
}

#[test]
fn zero_needs_no_register() {
    let (v, bb) = ir(1);
    let mut ctx = framed(bb, 0, 0);
    let (asms, reg) = get_value(&mut ctx, &konst(v[0], 0));
    assert!(asms.is_empty());
    assert_eq!(reg, Register::Zero);
}

#[test]
fn stores_and_loads_through_pointers() {
    let (v, bb) = ir(2);
    let mut ctx = framed(bb, 0, 2);
    // the slot of v0 holds a value: a plain store
    let asms = store_to_local(Register::T3, v[0], &mut ctx, None, true, 4, 0, 0).unwrap();
    assert_eq!(text(&asms), vec!["  sw t3, 0(sp)"]);
    // the slot of v1 holds a pointer: the store goes where it points
    let asms = store_to_local(Register::T3, v[1], &mut ctx, None, true, 4, 0, 1).unwrap();
    assert_eq!(text(&asms), vec!["  lw t0, 4(sp)", "  sw t3, 0(t0)"]);
    let (asms, rd) = load_from_local(v[0], &mut ctx, None, 4, 0, 0).unwrap();
    assert_eq!(rd, Register::T0);
    assert_eq!(text(&asms), vec!["  lw t0, 0(sp)"]);
    let (asms, _) = load_from_local(v[1], &mut ctx, Some(v[1]), 4, 1, 0).unwrap();
    assert_eq!(text(&asms), vec!["  lw t0, 4(sp)", "  lw t0, 0(t0)"]);
    assert_eq!(ctx.register_mapper.get_by_register(&Register::T0), Some(RegisterValue::InstRet(v[1])));
}

#[test]
fn values_without_a_slot_are_not_loaded() {
    let (v, bb) = ir(1);
    let mut ctx = framed(bb, 0, 1);
    let r = load_from_local(v[0], &mut ctx, None, 4, 0, 0);
    assert_eq!(r.err(), Some("Value is not mapped to stack memory".to_string()));
    let r = store_to_local(Register::T0, v[0], &mut ctx, None, false, 4, 0, 0);
    assert_eq!(r.err(), Some("Value is not mapped to stack memory".to_string()));
}

#[test]
fn call_arguments_go_to_registers() {
    let (v, bb) = ir(2);
    let mut ctx = framed(bb, 0, 0);
    ctx.memory_mapper.new_function_call();
    let asms = call_setup_asm(&mut ctx, &[konst(v[0], 5), konst(v[1], 0)], &[4, 4]);
    assert_eq!(text(&asms), vec!["  li t0, 5", "  mv a0, t0", "  mv a1, zero"]);
    assert_eq!(ctx.register_mapper.get_by_register(&Register::T0), None);
    assert_eq!(ctx.register_mapper.get_by_register(&Register::A0), None);
}

#[test]
fn call_arguments_after_the_eighth_go_to_the_call_frame() {
    let (v, bb) = ir(10);
    let mut ctx = framed(bb, 0, 0);
    ctx.memory_mapper.new_function_call();
    let args: Vec<Operand> = (0..10).map(|i| konst(v[i], i as i32 + 1)).collect();
    let asms = call_setup_asm(&mut ctx, &args, &[4; 10]);
    let mut expected = vec!["  addi sp, sp, -16".to_string()];
    for i in 0..8 {
        expected.push(format!("  li t0, {}", i + 1));
        expected.push(format!("  mv a{}, t0", i));
    }
    expected.push("  li t0, 9".to_string());
    expected.push("  sw t0, 0(sp)".to_string());
    expected.push("  li t0, 10".to_string());
    expected.push("  sw t0, 4(sp)".to_string());
    assert_eq!(text(&asms), expected);
    assert_eq!(ctx.memory_mapper.get_offset(&v[9], 4), Some(4));
}

#[test]
fn loads_copy_into_a_slot_of_their_own() {
    let (v, bb) = ir(3);
    let mut ctx = framed(bb, 0, 3);
    store_to_local(Register::T3, v[0], &mut ctx, None, true, 4, 0, 0).unwrap();
    let asms = load_asm(&mut ctx, v[1], Place::Local(v[0]), 4, 0, 0);
    assert_eq!(text(&asms), vec!["  lw t0, 0(sp)", "  sw t0, 4(sp)"]);
    let asms = load_asm(&mut ctx, v[2], Place::Global("@g".to_string()), 4, 0, 0);
    assert_eq!(text(&asms), vec!["  la t0, g", "  lw t0, 0(t0)", "  sw t0, 8(sp)"]);
    assert_eq!(ctx.register_mapper.get_by_register(&Register::T0), None);
}

#[test]
fn stores_write_the_fetched_value() {
    let (v, bb) = ir(4);
    let mut ctx = framed(bb, 0, 1);
    store_to_local(Register::T3, v[0], &mut ctx, None, true, 4, 0, 0).unwrap();
    let asms = store_asm(&mut ctx, v[2], konst(v[1], 5), Place::Local(v[0]), 4, 0, 0);
    assert_eq!(text(&asms), vec!["  li t0, 5", "  sw t0, 0(sp)"]);
    assert_eq!(ctx.register_mapper.get_by_register(&Register::T0), None);
    let asms = store_asm(&mut ctx, v[3], konst(v[1], 6), Place::Global("@g".to_string()), 4, 0, 0);
    assert_eq!(text(&asms), vec!["  li t0, 6", "  la t1, g", "  sw t0, 0(t1)"]);
}

#[test]
fn calls_pass_arguments_and_keep_the_result() {
    let (v, bb) = ir(2);
    let mut ctx = framed(bb, 0, 1);
    let asms = call_asm(&mut ctx, v[1], &"@g".to_string(), &[konst(v[0], 5)], &[4], true, 4);
    assert_eq!(text(&asms), vec!["  li t0, 5", "  mv a0, t0", "  call g", "  sw a0, 0(sp)"]);
    assert_eq!(ctx.memory_mapper.get_offset(&v[1], 4), Some(0));
}

#[test]
fn calls_with_stacked_arguments_give_their_frame_back() {
    let (v, bb) = ir(10);
    let mut ctx = framed(bb, 0, 0);
    let args: Vec<Operand> = (0..9).map(|i| konst(v[i], 0)).collect();
    let asms = call_asm(&mut ctx, v[9], &"@h".to_string(), &args, &[4; 9], false, 0);
    let mut expected = vec!["  addi sp, sp, -16".to_string()];
    for i in 0..8 {
        expected.push(format!("  mv a{}, zero", i));
    }
    expected.push("  sw zero, 0(sp)".to_string());
    expected.push("  call h".to_string());
    expected.push("  addi sp, sp, 16".to_string());
    assert_eq!(text(&asms), expected);
}

#[test]
fn returns_move_the_value_into_a0() {
    let (v, bb) = ir(3);
    let mut ctx = framed(bb, 0, 0);
    let asms = return_value_asm(&mut ctx, Some(konst(v[0], 7)), v[1]);
    assert_eq!(text(&asms), vec!["  li t0, 7", "  mv a0, t0", "  lw ra, 0(sp)", "  addi sp, sp, 16", "  ret"]);
    let asms = return_value_asm(&mut ctx, None, v[2]);
    assert_eq!(text(&asms), vec!["  lw ra, 0(sp)", "  addi sp, sp, 16", "  ret"]);
}

#[test]
fn a_returned_argument_already_in_a0_is_not_moved() {
    let (v, bb) = ir(2);
    let mut ctx = framed(bb, 1, 0);
    let arg = Operand { value: v[0], kind: OperandKind::FuncArg { index: 0, size: 4 }, size: 4 };
    let asms = return_value_asm(&mut ctx, Some(arg), v[1]);
    assert_eq!(text(&asms), vec!["  lw ra, 0(sp)", "  addi sp, sp, 16", "  ret"]);
}

#[test]
fn branches_fetch_their_condition() {
    let (v, bb) = ir(1);
    let mut f = FunctionData::new("@f".to_string(), vec![], Type::get_i32());
    let other = f.dfg_mut().new_bb().basic_block(None);
    let mut ctx = framed(bb, 0, 0);
    ctx.block_labels.insert(other);
    let asms = branch_value_asm(&mut ctx, konst(v[0], 1), other, bb);
    assert_eq!(text(&asms), vec!["  li t0, 1", "  bnez t0, LBB1_1", "  j f"]);
    assert_eq!(ctx.register_mapper.get_by_register(&Register::T0), None);
}
