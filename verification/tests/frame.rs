use koopa::ir::builder::ValueBuilder;
use koopa::ir::{FunctionData, Type, Value};
use sysy_compiler::riscv::meta::{RiscvAsm, Register};
use sysy_compiler::riscv::stack::{ArgLocation, FuncArgManager, MemoryMapper, StackSizeAllocator};

fn values(n: usize) -> Vec<Value> {
    let mut f = FunctionData::new("@f".to_string(), vec![], Type::get_i32());
    (0..n).map(|i| f.dfg_mut().new_value().integer(i as i32)).collect()
}

fn text(lines: &[RiscvAsm]) -> Vec<String> {
    lines.iter().map(|l| l.to_string()).collect()
}

#[test]
fn allocator_claims_fixed_offsets() {
    let v = values(3);
    let mut a = StackSizeAllocator::new();
    a.set_meta_size(4);
    assert_eq!(a.reserve(4), 16);
    assert_eq!(a.reserve(8), 0);
    assert_eq!(a.reserved_size(), 12);
    assert_eq!(a.calculated_size(), 16);
    assert!(!a.is_aligned());
    assert_eq!(text(&a.extend_stack()), vec!["  addi sp, sp, -16"]);
    assert_eq!(a.size(), 16);
    a.claim(v[0], 4);
    a.claim(v[1], 4);
    assert_eq!(a.get_offset(&v[0], 4), Some(0));
    assert_eq!(a.get_offset(&v[1], 4), Some(4));
    assert_eq!(a.get_offset(&v[2], 4), None);
    assert_eq!(text(&a.resume_stack()), vec!["  addi sp, sp, 16"]);
    assert_eq!(a.meta_size(), 4);
    a.clear();
    assert_eq!(a.size(), 0);
    assert_eq!(a.get_offset(&v[0], 4), None);
    assert_eq!(a.meta_size(), 4);
}

#[test]
fn large_frames_use_t1() {
    let mut a = StackSizeAllocator::new();
    a.reserve(4000);
    assert_eq!(text(&a.extend_stack()), vec!["  li t1, -4000", "  add sp, sp, t1"]);
    assert_eq!(text(&a.resume_stack()), vec!["  li t1, 4000", "  add sp, sp, t1"]);
    let mut b = StackSizeAllocator::new();
    b.reserve(2048);
    assert_eq!(text(&b.extend_stack()), vec!["  addi sp, sp, -2048"]);
    assert_eq!(text(&b.resume_stack()), vec!["  li t1, 2048", "  add sp, sp, t1"]);
    let mut c = StackSizeAllocator::new();
    assert!(c.extend_stack().is_empty());
    assert!(c.resume_stack().is_empty());
}

#[test]
fn stacked_arguments_are_registered_in_order() {
    let mut f = FuncArgManager::new();
    for i in 0..8 {
        f.insert(i, 4);
    }
    assert_eq!(f.get_offset(3, 4), None);
    f.insert(8, 4);
    f.insert(9, 8);
    f.insert(10, 4);
    assert_eq!(f.get_offset(8, 4), Some(0));
    assert_eq!(f.get_offset(9, 8), Some(4));
    assert_eq!(f.get_offset(10, 4), Some(12));
    assert_eq!(f.get_offset(11, 4), None);
}

#[test]
fn memory_mapper_counts_call_frames() {
    let v = values(3);
    let mut m = MemoryMapper::new();
    m.set_meta_size(4);
    m.stack_reserve(4);
    m.stack_reserve(4);
    assert_eq!(m.stack_calculated_size(), 16);
    assert_eq!(text(&m.stack_extend()), vec!["  addi sp, sp, -16"]);
    m.stack_claim(v[0], 4);
    assert_eq!(m.meta_offset(), 4);
    m.new_function_call();
    m.function_reserve(4);
    assert_eq!(m.function_calculated_size(), 16);
    assert_eq!(text(&m.function_extend()), vec!["  addi sp, sp, -16"]);
    m.function_claim(v[1], 4);
    assert_eq!(m.function_alloc_size(), 16);
    assert_eq!(m.alloc_size(), 32);
    assert_eq!(m.calculated_size(), 32);
    // The own frame lies above the call frame.
    assert_eq!(m.get_offset(&v[0], 4), Some(16));
    assert_eq!(m.get_offset(&v[1], 4), Some(0));
    assert_eq!(m.get_offset(&v[2], 4), None);
    assert_eq!(m.meta_offset(), 20);
    assert_eq!(text(&m.function_resume()), vec!["  addi sp, sp, 16"]);
    m.function_clear();
    assert_eq!(m.function_alloc_size(), 0);
    m.end_function_call();
    assert_eq!(m.get_offset(&v[0], 4), Some(0));
    assert_eq!(text(&m.stack_resume()), vec!["  addi sp, sp, 16"]);
    assert_eq!(m.stack_alloc_size(), 16);
    m.clear();
    assert_eq!(m.stack_alloc_size(), 0);
}

#[test]
fn arguments_are_found_in_registers_or_above_the_frame() {
    let mut m = MemoryMapper::new();
    for i in 0..10 {
        m.register_func_arg(i, 4);
    }
    assert!(matches!(m.get_arg(0, 4), Some(ArgLocation::Register(Register::A0))));
    assert!(matches!(m.get_arg(7, 4), Some(ArgLocation::Register(Register::A7))));
    m.stack_reserve(20);
    m.stack_extend();
    assert!(matches!(m.get_arg(8, 4), Some(ArgLocation::Stack(32))));
    assert!(matches!(m.get_arg(9, 4), Some(ArgLocation::Stack(36))));
    assert!(m.get_arg(10, 4).is_none());
}
