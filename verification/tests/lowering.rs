use koopa::ir::builder::{BasicBlockBuilder, LocalInstBuilder, ValueBuilder};
use koopa::ir::{BasicBlock, FunctionData, Program, Type, Value};
use sysy_compiler::ir::func::trim_insts;
use sysy_compiler::ir::meta::Instruction;
use sysy_compiler::riscv::context::FunctionContext;
use sysy_compiler::riscv::expr::{binary_op_asm, get_param_registers_filter, obtain_caller_directly_usable_register, BinaryOp};
use sysy_compiler::riscv::func::{function_prologue, register_func, ValueNeed};
use sysy_compiler::riscv::meta::{RiscvAsm, Register};
use sysy_compiler::riscv::regmap::RegisterValue;

struct Ir {
    values: Vec<Value>,
    blocks: Vec<BasicBlock>,
}

fn ir(n_values: usize, n_blocks: usize) -> Ir {
    let mut f = FunctionData::new("@f".to_string(), vec![], Type::get_i32());
    let values = (0..n_values).map(|i| f.dfg_mut().new_value().integer(i as i32)).collect();
    let blocks = (0..n_blocks).map(|_| f.dfg_mut().new_bb().basic_block(None)).collect();
    Ir { values, blocks }
}

fn text(lines: &[RiscvAsm]) -> Vec<String> {
    lines.iter().map(|l| l.to_string()).collect()
}

#[test]
fn labels_of_blocks() {
    let g = ir(0, 3);
    let mut ctx = FunctionContext::new("@main".to_string(), g.blocks[0], 0, 2);
    ctx.block_labels.insert(g.blocks[0]);
    ctx.block_labels.insert(g.blocks[2]);
    ctx.block_labels.insert(g.blocks[1]);
    ctx.block_labels.insert(g.blocks[2]);
    assert_eq!(ctx.get_label(g.blocks[0]), "main");
    assert_eq!(ctx.get_label(g.blocks[2]), "LBB2_1");
    assert_eq!(ctx.get_label(g.blocks[1]), "LBB2_2");
    assert_eq!(ctx.get_func_id(), 2);
    assert_eq!(ctx.block_labels.entry_id(), g.blocks[0]);
}

#[test]
fn parameter_registers_are_filtered() {
    let f = get_param_registers_filter(2);
    assert!(!f(&Register::A0));
    assert!(!f(&Register::A1));
    assert!(f(&Register::A2));
    assert!(f(&Register::T0));
    let all = get_param_registers_filter(20);
    assert!(!all(&Register::A7));
    assert!(all(&Register::S2));
}

#[test]
fn lowest_free_register_skips_parameters_and_used_ones() {
    let g = ir(1, 1);
    let mut ctx = FunctionContext::new("@f".to_string(), g.blocks[0], 1, 1);
    assert_eq!(obtain_caller_directly_usable_register(&ctx), Register::T0);
    ctx.register_mapper.decl_register(Register::T0);
    ctx.register_mapper.decl_register(Register::T1);
    ctx.register_mapper.decl_register(Register::T2);
    // a0 carries the parameter
    assert_eq!(obtain_caller_directly_usable_register(&ctx), Register::A1);
}

#[test]
fn binary_operations_choose_their_destination() {
    let g = ir(3, 1);
    let mut ctx = FunctionContext::new("@f".to_string(), g.blocks[0], 0, 1);
    let mut asms = vec![];
    let rd = binary_op_asm(BinaryOp::Add, Register::T0, Register::T1, &mut ctx, g.values[0], &mut asms);
    assert_eq!(rd, Register::T0);
    assert_eq!(text(&asms), vec!["  add t0, t0, t1"]);
    assert_eq!(ctx.register_mapper.get_by_register(&Register::T0), Some(RegisterValue::InstRet(g.values[0])));

    let mut asms = vec![];
    let rd = binary_op_asm(BinaryOp::Sub, Register::Zero, Register::T1, &mut ctx, g.values[1], &mut asms);
    assert_eq!(rd, Register::T1);
    assert_eq!(text(&asms), vec!["  sub t1, zero, t1"]);

    let mut asms = vec![];
    let rd = binary_op_asm(BinaryOp::Eq, Register::T0, Register::Zero, &mut ctx, g.values[2], &mut asms);
    assert_eq!(rd, Register::T2);
    assert_eq!(text(&asms), vec!["  seqz t2, t0"]);

    let mut asms = vec![];
    let rd = binary_op_asm(BinaryOp::NotEq, Register::T0, Register::T1, &mut ctx, g.values[2], &mut asms);
    assert_eq!(rd, Register::A0);
    assert_eq!(text(&asms), vec!["  xor t0, t0, t1", "  snez a0, t0"]);

    let mut asms = vec![];
    let rd = binary_op_asm(BinaryOp::Le, Register::T0, Register::T1, &mut ctx, g.values[2], &mut asms);
    assert_eq!(rd, Register::A1);
    assert_eq!(text(&asms), vec!["  sgt a1, t0, t1", "  seqz a1, a1"]);

    let mut asms = vec![];
    let rd = binary_op_asm(BinaryOp::Ge, Register::T0, Register::T1, &mut ctx, g.values[2], &mut asms);
    assert_eq!(rd, Register::A2);
    assert_eq!(text(&asms), vec!["  slt a2, t0, t1", "  seqz a2, a2"]);

    let mut asms = vec![];
    binary_op_asm(BinaryOp::Mod, Register::A0, Register::A1, &mut ctx, g.values[2], &mut asms);
    assert_eq!(text(&asms), vec!["  rem a0, a0, a1"]);
}

#[test]
fn prologue_reserves_frame_and_saves_ra() {
    let g = ir(0, 1);
    let mut ctx = FunctionContext::new("@f".to_string(), g.blocks[0], 2, 1);
    let needs = vec![
        ValueNeed::Arg { index: 1, size: 4 },
        ValueNeed::Alloc { pointee: 4, pointer: 4 },
        ValueNeed::Nothing,
        ValueNeed::Result(4),
        ValueNeed::Arg { index: 0, size: 4 },
    ];
    let asms = function_prologue(&mut ctx, &needs);
    assert_eq!(text(&asms), vec!["  addi sp, sp, -16", "  sw ra, 12(sp)"]);
    assert_eq!(ctx.memory_mapper.stack_alloc_size(), 16);
    assert_eq!(ctx.memory_mapper.meta_offset(), 12);
    assert_eq!(ctx.memory_mapper.args_count(), 2);
}

#[test]
fn prologue_places_arguments_past_the_eighth_on_the_stack() {
    let g = ir(0, 1);
    let mut ctx = FunctionContext::new("@f".to_string(), g.blocks[0], 10, 1);
    let mut needs = vec![];
    for i in (0..10).rev() {
        needs.push(ValueNeed::Arg { index: i, size: 4 });
    }
    let asms = function_prologue(&mut ctx, &needs);
    assert_eq!(text(&asms), vec!["  addi sp, sp, -16", "  sw ra, 0(sp)"]);
    assert!(matches!(ctx.memory_mapper.get_arg(8, 4), Some(sysy_compiler::riscv::stack::ArgLocation::Stack(16))));
    assert!(matches!(ctx.memory_mapper.get_arg(9, 4), Some(sysy_compiler::riscv::stack::ArgLocation::Stack(20))));
}

#[test]
fn global_symbol_of_a_function() {
    match register_func("@main") {
        Some(RiscvAsm::Global(name)) => assert_eq!(name, "main"),
        _ => panic!("expected a .globl line"),
    }
}

#[test]
fn block_instructions_stop_after_the_first_terminator() {
    let mut program = Program::new();
    let f = program.new_func(FunctionData::new("@f".to_string(), vec![], Type::get_i32()));
    let dfg = program.func_mut(f).dfg_mut();
    let v0 = dfg.new_value().integer(0);
    let v1 = dfg.new_value().integer(1);
    let v2 = dfg.new_value().ret(Some(v1));
    let v3 = dfg.new_value().integer(3);
    let insts = vec![
        Instruction::new(v0, false),
        Instruction::new(v1, true),
        Instruction::new(v2, true),
        Instruction::new(v3, true),
    ];
    let kept = trim_insts(&insts, &program, f);
    let kept: Vec<Value> = kept.iter().map(|i| *i.inst()).collect();
    assert_eq!(kept, vec![v1, v2]);
}
