use sysy_compiler::riscv::inst::{
    add_lw_instruction, add_sw_instruction, beqz_instruction, bnez_instruction, call_instruction,
    j_instruction, label, label_sw_instruction, li_instruction, ret_instruction, sw_instruction,
};
use sysy_compiler::riscv::meta::{RV32Imm, RV32Imm12, Register, RiscvAsm, RiscvInit, RiscvInstruction};

fn text(lines: &[RiscvAsm]) -> Vec<String> {
    lines.iter().map(|l| l.to_string()).collect()
}

#[test]
fn instruction_text() {
    let li = RiscvInstruction::Li { dest: Register::A0, imm: RV32Imm::new(-5) };
    assert_eq!(li.to_string(), "  li a0, -5");
    let lw = RiscvInstruction::Lw { dest: Register::T0, base: Register::Sp, offset: RV32Imm12::new(12) };
    assert_eq!(lw.to_string(), "  lw t0, 12(sp)");
    let sw = RiscvInstruction::Sw { src: Register::Ra, base: Register::Sp, offset: RV32Imm12::new_label("x".to_string()) };
    assert_eq!(sw.to_string(), "  sw ra, %lo(x)(sp)");
    let add = RiscvInstruction::Add { dest: Register::A0, src1: Register::A1, src2: Register::A2 };
    assert_eq!(add.to_string(), "  add a0, a1, a2");
    let rem = RiscvInstruction::Mod { dest: Register::T6, src1: Register::T5, src2: Register::T4 };
    assert_eq!(rem.to_string(), "  rem t6, t5, t4");
    let addi = RiscvInstruction::Addi { dest: Register::Sp, src1: Register::Sp, src2: RV32Imm12::new(-16) };
    assert_eq!(addi.to_string(), "  addi sp, sp, -16");
    let lui = RiscvInstruction::Lui { dest: Register::A0, imm: RV32Imm::new_label("%hi(x)".to_string()) };
    assert_eq!(lui.to_string(), "  lui a0, %hi(x)");
    assert_eq!(RiscvInstruction::Seqz { dest: Register::A0, src: Register::A1 }.to_string(), "  seqz a0, a1");
    assert_eq!(RiscvInstruction::Sgt { dest: Register::S11, src1: Register::Zero, src2: Register::Gp }.to_string(), "  sgt s11, zero, gp");
    assert_eq!(RiscvInstruction::Ret.to_string(), "  ret");
}

#[test]
fn line_text() {
    assert_eq!(RiscvAsm::Section(".text".to_string()).to_string(), "  .text");
    assert_eq!(RiscvAsm::Global("main".to_string()).to_string(), "  .globl main");
    assert_eq!(RiscvAsm::Label("main".to_string()).to_string(), "main:");
    assert_eq!(RiscvAsm::Init(RiscvInit::Zero(8)).to_string(), "  .zero 8");
    assert_eq!(RiscvAsm::Init(RiscvInit::Word(RV32Imm::new(2147483647))).to_string(), "  .word 2147483647");
    assert_eq!(RiscvAsm::Blank.to_string(), "");
}

#[test]
fn immediates() {
    let mut imm = RV32Imm::new(3);
    assert_eq!(imm.value(), 3);
    imm.set_value(-2147483648);
    assert_eq!(imm.to_string(), "-2147483648");
    imm.set_label("g".to_string());
    assert_eq!(imm.to_string(), "g");
    let mut imm12 = RV32Imm12::new(-2048);
    assert_eq!(imm12.num(), -2048);
    imm12.set_num(2047);
    assert_eq!(imm12.to_string(), "2047");
    imm12.set_label("g".to_string());
    assert_eq!(imm12.to_string(), "%lo(g)");
}

#[test]
fn registers() {
    assert_eq!(Register::from_index(10), Register::A0);
    assert_eq!(Register::from_index(31).name(), "t6");
    assert_eq!(Register::S0.name_id(), "x8");
    assert_eq!(Register::Sp.index(), 2);
    assert!(Register::Ra.is_caller_saved());
    assert!(!Register::Ra.caller_directly_usable());
    assert!(Register::T3.caller_directly_usable());
    assert!(!Register::S1.is_caller_saved());
    for i in 0..32u8 {
        assert_eq!(Register::from_index(i).index(), i);
    }
}

#[test]
fn simple_instructions() {
    let lines = vec![
        label("main"),
        ret_instruction(),
        call_instruction("putint"),
        j_instruction("LBB1_1"),
        beqz_instruction(Register::A0, "LBB1_2"),
        bnez_instruction(Register::T0, "LBB1_3"),
        li_instruction(Register::A0, 7, None),
        sw_instruction(Register::A0, Register::Sp, 4, None),
    ];
    assert_eq!(
        text(&lines),
        vec!["main:", "  ret", "  call putint", "  j LBB1_1", "  beqz a0, LBB1_2", "  bnez t0, LBB1_3", "  li a0, 7", "  sw a0, 4(sp)"]
    );
}

#[test]
fn far_offsets_go_through_a_register() {
    assert_eq!(text(&add_lw_instruction(Register::A0, Register::Sp, RV32Imm::new(8), None, None)), vec!["  lw a0, 8(sp)"]);
    assert_eq!(
        text(&add_lw_instruction(Register::A0, Register::Sp, RV32Imm::new(4096), None, Some(Register::T1))),
        vec!["  li t1, 4096", "  add t1, sp, t1", "  lw a0, 0(t1)"]
    );
    assert_eq!(text(&add_sw_instruction(Register::A0, Register::Sp, RV32Imm::new(-2048), None, None)), vec!["  sw a0, -2048(sp)"]);
    assert_eq!(
        text(&add_sw_instruction(Register::A0, Register::Sp, RV32Imm::new(2048), None, Some(Register::T2))),
        vec!["  li t2, 2048", "  add t2, sp, t2", "  sw a0, 0(t2)"]
    );
    assert_eq!(text(&label_sw_instruction(Register::A1, "g", None, Some(Register::T0))), vec!["  la t0, g", "  sw a1, 0(t0)"]);
}
