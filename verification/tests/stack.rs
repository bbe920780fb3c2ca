use sysy_compiler::riscv::stack::StackSizeCalculator;

#[test]
fn calculator_rounds_to_alignment() {
    let mut c = StackSizeCalculator::new();
    assert_eq!(c.allocate(4), 16);
    assert_eq!(c.size(), 4);
    assert_eq!(c.stack_size(), 16);
    assert!(!c.is_aligned());
    assert_eq!(c.allocate(12), 0);
    assert!(c.is_aligned());
    assert_eq!(c.allocate(1), 16);
    assert_eq!(c.stack_size(), 32);
    c.clear();
    assert_eq!(c.stack_size(), 0);
}
