use std::borrow::Cow;

use sysy_compiler::driver::{asm_program_text, mode_of, parse_args, Args, Mode};
use sysy_compiler::riscv::meta::{Register, RiscvAsm, RiscvInstruction};
use sysy_compiler::token::{CowToken, OwnedToken};

fn argv(words: &[&str]) -> Vec<String> {
    words.iter().map(|w| w.to_string()).collect()
}

#[test]
fn command_line_is_read_in_order() {
    let a = parse_args(&argv(&["compiler", "-riscv", "hello.c", "-o", "hello.S"])).unwrap();
    assert_eq!(a.mode, "-riscv");
    assert_eq!(a.input, "hello.c");
    assert_eq!(a.output, "hello.S");
    let b = Args::new("-koopa".to_string(), "a.c".to_string(), "a.koopa".to_string());
    assert_eq!(b.output, "a.koopa");
}

#[test]
fn missing_words_are_reported() {
    assert_eq!(parse_args(&argv(&["compiler"])).unwrap_err(), "Missing mode");
    assert_eq!(parse_args(&argv(&["compiler", "-koopa"])).unwrap_err(), "Missing input file");
    assert_eq!(parse_args(&argv(&["compiler", "-koopa", "a.c", "-o"])).unwrap_err(), "Missing output file");
}

#[test]
fn modes() {
    assert_eq!(mode_of(&"-koopa".to_string()), Ok(Mode::Koopa));
    assert_eq!(mode_of(&"-riscv".to_string()), Ok(Mode::Riscv));
    assert_eq!(mode_of(&"-x86".to_string()), Err("Unknown mode: -x86".to_string()));
}

#[test]
fn program_text_ends_each_line() {
    let lines = vec![
        RiscvAsm::Section(".text".to_string()),
        RiscvAsm::Global("main".to_string()),
        RiscvAsm::Label("main".to_string()),
        RiscvAsm::Instruction(RiscvInstruction::Li { dest: Register::A0, imm: sysy_compiler::riscv::meta::RV32Imm::new(0) }),
        RiscvAsm::Instruction(RiscvInstruction::Ret),
        RiscvAsm::Blank,
    ];
    assert_eq!(asm_program_text(&lines), "  .text\n  .globl main\nmain:\n  li a0, 0\n  ret\n\n");
    assert_eq!(asm_program_text(&[]), "");
}

#[test]
fn tokens_print_their_text() {
    let owned = OwnedToken(3, "while".to_string());
    assert_eq!(owned.to_string(), "while");
    let cow = CowToken::from_owned(owned.clone());
    assert_eq!(cow.0, 3);
    assert_eq!(cow.to_string(), "while");
    let borrowed = CowToken(7, Cow::Borrowed("int"));
    let back = OwnedToken::from_cow(borrowed);
    assert_eq!(back.0, 7);
    assert_eq!(back.1, "int");
}
