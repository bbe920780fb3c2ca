use koopa::ir::builder::ValueBuilder;
use koopa::ir::{FunctionData, Type, Value};
use sysy_compiler::riscv::inst::{li_instruction, register_dest, sw_instruction, InstContext};
use sysy_compiler::riscv::meta::Register;
use sysy_compiler::riscv::regmap::{RegisterMapper, RegisterValue};

fn values(n: usize) -> Vec<Value> {
    let mut f = FunctionData::new("@f".to_string(), vec![], Type::get_i32());
    (0..n).map(|i| f.dfg_mut().new_value().integer(i as i32)).collect()
}

#[test]
fn insert_then_read_back() {
    let v = values(2);
    let mut m = RegisterMapper::new();
    assert_eq!(m.get_by_register(&Register::A0), None);
    m.insert(RegisterValue::InstRet(v[0]), Register::A0);
    m.insert(RegisterValue::InstRet(v[0]), Register::T0);
    assert_eq!(m.get_by_register(&Register::A0), Some(RegisterValue::InstRet(v[0])));
    let mut regs = m.get_by_value(&v[0]).unwrap();
    regs.sort();
    assert_eq!(regs, vec![Register::T0, Register::A0]);
    assert!(m.contains_value(&v[0]));
    assert!(!m.contains_value(&v[1]));
    assert_eq!(m.get_by_value(&v[1]), None);
}

#[test]
fn remove_leaves_an_empty_entry() {
    let v = values(1);
    let mut m = RegisterMapper::new();
    m.insert(RegisterValue::InstRet(v[0]), Register::A0);
    m.remove(v[0], Register::A0);
    assert_eq!(m.get_by_register(&Register::A0), None);
    assert_eq!(m.get_by_value(&v[0]), None);
    assert!(m.contains_value(&v[0]));
}

#[test]
fn remove_by_register_frees_and_forgets() {
    let v = values(1);
    let mut m = RegisterMapper::new();
    m.insert(RegisterValue::InstRet(v[0]), Register::T1);
    m.decl_register(Register::T2);
    m.remove_by_register(Register::T1);
    assert_eq!(m.get_by_register(&Register::T1), None);
    assert_eq!(m.get_by_value(&v[0]), None);
    assert_eq!(m.get_by_register(&Register::T2), Some(RegisterValue::Const));
    m.remove_by_register(Register::T2);
    assert_eq!(m.get_by_register(&Register::T2), None);
    m.clear();
    assert!(!m.contains_value(&v[0]));
}

#[test]
fn available_registers_are_free_ones_in_order() {
    let v = values(2);
    let mut m = RegisterMapper::new();
    assert_eq!(m.get_available_registers().len(), 32);
    m.insert(RegisterValue::InstRet(v[0]), Register::Zero);
    m.decl_register(Register::T0);
    let free = m.get_available_registers();
    assert_eq!(free.len(), 30);
    assert_eq!(free[0], Register::Ra);
    assert!(!free.contains(&Register::T0));
    let usable = m.get_available_registers_filtered(|r| r.caller_directly_usable());
    assert_eq!(usable[0], Register::T1);
    assert_eq!(usable.len(), 14);
    m.insert(RegisterValue::InstRet(v[1]), Register::A0);
    let not_v1 = m.get_registers_filtered_by_value(&[v[1]], |r| r.caller_directly_usable());
    assert!(!not_v1.contains(&Register::A0));
    assert!(not_v1.contains(&Register::T0));
    assert_eq!(not_v1.len(), 14);
}

#[test]
fn destinations_are_recorded_through_the_context() {
    let v = values(2);
    let mut m = RegisterMapper::new();
    m.insert(RegisterValue::InstRet(v[0]), Register::A0);
    let _ = li_instruction(Register::A0, 1, Some(InstContext::new(&mut m, v[1])));
    assert_eq!(m.get_by_register(&Register::A0), Some(RegisterValue::InstRet(v[1])));
    assert_eq!(m.get_by_value(&v[0]), None);
    assert_eq!(m.get_by_value(&v[1]), Some(vec![Register::A0]));
    let _ = sw_instruction(Register::A1, Register::Sp, 0, Some(InstContext::new(&mut m, v[0])));
    assert_eq!(m.get_by_register(&Register::A1), None);
    register_dest(Register::T3, Some(InstContext::new(&mut m, v[0])));
    assert_eq!(m.get_by_register(&Register::T3), Some(RegisterValue::InstRet(v[0])));
    register_dest(Register::T4, None);
    assert_eq!(m.get_by_register(&Register::T4), None);
}
