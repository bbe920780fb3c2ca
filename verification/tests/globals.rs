use koopa::ir::builder::{BasicBlockBuilder, ValueBuilder};
use koopa::ir::{FunctionData, Type};
use sysy_compiler::driver::asm_program_text;
use sysy_compiler::riscv::context::FunctionContext;
use sysy_compiler::riscv::meta::Register;
use sysy_compiler::riscv::regmap::RegisterValue;
use sysy_compiler::riscv::var::{
    handle_special_cases, init_global_var, load_from_global, register_global_var, store_to_global,
    GlobalInit, LoadContext, StoreContext,
};

#[test]
fn global_data_section() {
    let globals = vec![
        ("@x".to_string(), GlobalInit::Int(3)),
        ("@arr".to_string(), GlobalInit::Aggregate(vec![GlobalInit::Int(1), GlobalInit::Zero(8)])),
    ];
    let lines = register_global_var(&globals);
    assert_eq!(
        asm_program_text(&lines),
        "  .globl x\nx:\n  .word 3\n\n  .globl arr\narr:\n  .word 1\n  .zero 8\n\n"
    );
    assert!(register_global_var(&[]).is_empty());
}

#[test]
fn nested_initial_values_are_flattened() {
    let init = GlobalInit::Aggregate(vec![
        GlobalInit::Aggregate(vec![GlobalInit::Int(1), GlobalInit::Int(2)]),
        GlobalInit::Zero(8),
        GlobalInit::Aggregate(vec![]),
    ]);
    assert_eq!(asm_program_text(&init_global_var(&init)), "  .word 1\n  .word 2\n  .zero 8\n");
}

#[test]
fn globals_are_loaded_and_stored_by_label() {
    let mut f = FunctionData::new("@f".to_string(), vec![], Type::get_i32());
    let v = f.dfg_mut().new_value().integer(0);
    let bb = f.dfg_mut().new_bb().basic_block(None);
    let mut ctx = FunctionContext::new("@f".to_string(), bb, 0, 1);
    let (asms, rd) = load_from_global(&mut ctx, Some("@g".to_string()), Some(v)).unwrap();
    assert_eq!(rd, Register::T0);
    assert_eq!(asm_program_text(&asms), "  la t0, g\n  lw t0, 0(t0)\n");
    assert_eq!(ctx.register_mapper.get_by_register(&Register::T0), Some(RegisterValue::InstRet(v)));
    let stores = store_to_global(Register::T0, Some("@g".to_string()), &mut ctx, None).unwrap();
    assert_eq!(asm_program_text(&stores), "  la t1, g\n  sw t0, 0(t1)\n");
    assert_eq!(load_from_global(&mut ctx, None, None).unwrap_err(), "Global variable should have a name");
    assert_eq!(store_to_global(Register::T0, None, &mut ctx, None).unwrap_err(), "Global variable should have a name");
}

#[test]
fn zero_constants_live_in_the_zero_register() {
    assert_eq!(handle_special_cases(Some(0)), Some(Register::Zero));
    assert_eq!(handle_special_cases(Some(1)), None);
    assert_eq!(handle_special_cases(None), None);
}

#[test]
fn load_and_store_settings_are_built_step_by_step() {
    let mut f = FunctionData::new("@f".to_string(), vec![], Type::get_i32());
    let v = f.dfg_mut().new_value().integer(0);
    let load = LoadContext::new(Type::get_i32()).with_id(v);
    assert_eq!(load.id, Some(v));
    assert_eq!(load.ty, Type::get_i32());
    let load = load.with_ty(Type::get_pointer(Type::get_i32()));
    assert_eq!(load.ty, Type::get_pointer(Type::get_i32()));
    let store = StoreContext::new(Type::get_i32());
    assert!(!store.claim && store.id.is_none());
    let store = store.with_claim(true).with_id(v);
    assert!(store.claim);
    assert_eq!(store.id, Some(v));
}
