//! Registers, immediates, instructions and lines of RV32IM assembly, and
//! their text.
use vstd::prelude::*;

use crate::text::{int_text, nat_text, push_int, push_nat};
use vstd::string::StringExecFns;

verus! {

pub const INDENT: &'static str = "  ";

pub const TEXT_SECTION: &'static str = ".text";
pub const DATA_SECTION: &'static str = ".data";

pub const GLOBAL_SYMBOL: &'static str = ".globl";
pub const ZERO_INIT: &'static str = ".zero";
pub const INIT_WORD: &'static str = ".word";

pub const LOWER_12_BIT: &'static str = "%lo";
pub const UPPER_20_BIT: &'static str = "%hi";

pub const REGISTER_COUNT: usize = 32;

pub const INST_LOAD_IMMEDIATE: &'static str = "li";
pub const INST_LOAD_UPPER_IMMEDIATE: &'static str = "lui";
pub const INST_RETURN: &'static str = "ret";
pub const INST_CALL: &'static str = "call";
pub const INST_MOVE: &'static str = "mv";
pub const INST_LOAD_ADDRESS: &'static str = "la";
pub const INST_LOAD_WORD: &'static str = "lw";
pub const INST_STORE_WORD: &'static str = "sw";
pub const INST_ADDITION: &'static str = "add";
pub const INST_ADDITION_IMMEDIATE: &'static str = "addi";
pub const INST_SUBTRACTION: &'static str = "sub";
pub const INST_MULTIPLICATION: &'static str = "mul";
pub const INST_DIVISION: &'static str = "div";
pub const INST_MODULO: &'static str = "rem";
pub const INST_AND: &'static str = "and";
pub const INST_OR: &'static str = "or";
pub const INST_XOR: &'static str = "xor";
pub const INST_SET_IF_EQUAL_TO_ZERO: &'static str = "seqz";
pub const INST_SET_IF_NOT_EQUAL_TO_ZERO: &'static str = "snez";
pub const INST_SET_IF_LESS_THAN: &'static str = "slt";
pub const INST_SET_IF_GREATER_THAN: &'static str = "sgt";
pub const INST_JUMP: &'static str = "j";
pub const INST_BRANCH_IF_EQUAL_TO_ZERO: &'static str = "beqz";
pub const INST_BRANCH_IF_NOT_EQUAL_TO_ZERO: &'static str = "bnez";

pub type RV32Usize = u32;

pub type RV32Isize = i32;

pub const STACK_ALIGNMENT: RV32Usize = 16;

pub const PTR_SIZE: RV32Usize = 4;

/// A 32-bit immediate: a number or a label.
#[derive(Debug, Clone, PartialEq, Eq, Hash)]
pub enum RV32Imm {
    Num(i32),
    Label(String),
}

/// The text of an immediate in assembly.
pub open spec fn imm_text(imm: RV32Imm) -> Seq<char> {
    match imm {
        RV32Imm::Num(v) => int_text(v as int),
        RV32Imm::Label(l) => l@,
    }
}

impl RV32Imm {
    pub fn new(value: i32) -> (r: Self)
        ensures
            r == RV32Imm::Num(value),
    {
        RV32Imm::Num(value)
    }

    pub fn new_label(label: String) -> (r: Self)
        ensures
            r == RV32Imm::Label(label),
    {
        RV32Imm::Label(label)
    }

    /// The number; a label has none.
    pub fn value(&self) -> (r: i32)
        requires
            self is Num,
        ensures
            *self == RV32Imm::Num(r),
    {
        match self {
            RV32Imm::Num(val) => *val,
            RV32Imm::Label(_) => 0,
        }
    }

    pub fn set_value(&mut self, value: i32)
        ensures
            *final(self) == RV32Imm::Num(value),
    {
        *self = RV32Imm::Num(value);
    }

    pub fn set_label(&mut self, label: String)
        ensures
            *final(self) == RV32Imm::Label(label),
    {
        *self = RV32Imm::Label(label);
    }

    /// Appends the text of the immediate.
    pub fn push_text(&self, s: &mut String)
        ensures
            final(s)@ == old(s)@ + imm_text(*self),
    {
        match self {
            RV32Imm::Num(val) => push_int(s, *val as i64),
            RV32Imm::Label(label) => s.append(label.as_str()),
        }
    }

    /// The text of the immediate in assembly.
    pub fn to_string(&self) -> (r: String)
        ensures
            r@ == imm_text(*self),
    {
        let mut s = String::new();
        self.push_text(&mut s);
        assert(s@ =~= imm_text(*self));
        s
    }
}

/// A 12-bit signed immediate: a number in [-2048, 2047], or the low 12 bits of a
/// label's address.
#[derive(Debug, Clone, PartialEq, Eq, Hash)]
pub enum RV32Imm12 {
    Num(i16),
    LabelLow(String),
}

pub open spec fn fits_imm12(value: int) -> bool {
    -2048 <= value <= 2047
}

/// The text of a 12-bit immediate in assembly.
pub open spec fn imm12_text(imm: RV32Imm12) -> Seq<char> {
    match imm {
        RV32Imm12::Num(v) => int_text(v as int),
        RV32Imm12::LabelLow(l) => LOWER_12_BIT@ + "("@ + l@ + ")"@,
    }
}

impl RV32Imm12 {
    /// A number immediate; the number must fit in 12 bits.
    pub fn new(value: i16) -> (r: Self)
        requires
            fits_imm12(value as int),
        ensures
            r == RV32Imm12::Num(value),
    {
        RV32Imm12::Num(value)
    }

    pub fn new_label(label: String) -> (r: Self)
        ensures
            r == RV32Imm12::LabelLow(label),
    {
        RV32Imm12::LabelLow(label)
    }

    /// The number; a label has none.
    pub fn num(&self) -> (r: i16)
        requires
            self is Num,
        ensures
            *self == RV32Imm12::Num(r),
    {
        match self {
            RV32Imm12::Num(val) => *val,
            RV32Imm12::LabelLow(_) => 0,
        }
    }

    pub fn set_num(&mut self, value: i16)
        requires
            fits_imm12(value as int),
        ensures
            *final(self) == RV32Imm12::Num(value),
    {
        *self = RV32Imm12::Num(value);
    }

    pub fn set_label(&mut self, label: String)
        ensures
            *final(self) == RV32Imm12::LabelLow(label),
    {
        *self = RV32Imm12::LabelLow(label);
    }

    /// Appends the text of the immediate.
    pub fn push_text(&self, s: &mut String)
        ensures
            final(s)@ == old(s)@ + imm12_text(*self),
    {
        match self {
            RV32Imm12::Num(val) => push_int(s, *val as i64),
            RV32Imm12::LabelLow(label) => {
                s.append(LOWER_12_BIT);
                s.append("(");
                s.append(label.as_str());
                s.append(")");
                assert(final(s)@ =~= old(s)@ + imm12_text(*self));
            },
        }
    }

    /// The text of the immediate in assembly.
    pub fn to_string(&self) -> (r: String)
        ensures
            r@ == imm12_text(*self),
    {
        let mut s = String::new();
        self.push_text(&mut s);
        assert(s@ =~= imm12_text(*self));
        s
    }
}

/// The 32 integer registers of RV32I, numbered x0 to x31.
#[derive(Debug, Clone, Copy, PartialEq, Eq, Hash, PartialOrd, Ord, Structural)]
pub enum Register {
    /// x0, always zero
    Zero,
    /// x1, return address
    Ra,
    /// x2, stack pointer
    Sp,
    /// x3, global pointer
    Gp,
    /// x4, thread pointer
    Tp,
    /// x5, temporary / alternate link register
    T0,
    /// x6-7, temporaries
    T1,
    T2,
    /// x8, saved register / frame pointer
    S0,
    /// x9, saved register
    S1,
    /// x10-11, function arguments / return values
    A0,
    A1,
    /// x12-17, function arguments
    A2,
    A3,
    A4,
    A5,
    A6,
    A7,
    /// x18-27, saved registers
    S2,
    S3,
    S4,
    S5,
    S6,
    S7,
    S8,
    S9,
    S10,
    S11,
    /// x28-31, temporaries
    T3,
    T4,
    T5,
    T6,
}

/// The number of a register (`x0` is 0, `x31` is 31).
pub open spec fn reg_index(r: Register) -> nat {
    match r {
        Register::Zero => 0,
        Register::Ra => 1,
        Register::Sp => 2,
        Register::Gp => 3,
        Register::Tp => 4,
        Register::T0 => 5,
        Register::T1 => 6,
        Register::T2 => 7,
        Register::S0 => 8,
        Register::S1 => 9,
        Register::A0 => 10,
        Register::A1 => 11,
        Register::A2 => 12,
        Register::A3 => 13,
        Register::A4 => 14,
        Register::A5 => 15,
        Register::A6 => 16,
        Register::A7 => 17,
        Register::S2 => 18,
        Register::S3 => 19,
        Register::S4 => 20,
        Register::S5 => 21,
        Register::S6 => 22,
        Register::S7 => 23,
        Register::S8 => 24,
        Register::S9 => 25,
        Register::S10 => 26,
        Register::S11 => 27,
        Register::T3 => 28,
        Register::T4 => 29,
        Register::T5 => 30,
        Register::T6 => 31,
    }
}

/// The register with the given number.
pub open spec fn reg_of(i: nat) -> Register {
    if i == 0 {
        Register::Zero
    } else if i == 1 {
        Register::Ra
    } else if i == 2 {
        Register::Sp
    } else if i == 3 {
        Register::Gp
    } else if i == 4 {
        Register::Tp
    } else if i == 5 {
        Register::T0
    } else if i == 6 {
        Register::T1
    } else if i == 7 {
        Register::T2
    } else if i == 8 {
        Register::S0
    } else if i == 9 {
        Register::S1
    } else if i == 10 {
        Register::A0
    } else if i == 11 {
        Register::A1
    } else if i == 12 {
        Register::A2
    } else if i == 13 {
        Register::A3
    } else if i == 14 {
        Register::A4
    } else if i == 15 {
        Register::A5
    } else if i == 16 {
        Register::A6
    } else if i == 17 {
        Register::A7
    } else if i == 18 {
        Register::S2
    } else if i == 19 {
        Register::S3
    } else if i == 20 {
        Register::S4
    } else if i == 21 {
        Register::S5
    } else if i == 22 {
        Register::S6
    } else if i == 23 {
        Register::S7
    } else if i == 24 {
        Register::S8
    } else if i == 25 {
        Register::S9
    } else if i == 26 {
        Register::S10
    } else if i == 27 {
        Register::S11
    } else if i == 28 {
        Register::T3
    } else if i == 29 {
        Register::T4
    } else if i == 30 {
        Register::T5
    } else {
        Register::T6
    }
}

/// Numbering the registers is a bijection between the registers and `0..32`.
pub proof fn law_register_numbering(r: Register, i: nat)
    ensures
        reg_index(r) < REGISTER_COUNT,
        reg_of(reg_index(r)) == r,
        i < REGISTER_COUNT ==> reg_index(reg_of(i)) == i,
{
}

/// The ABI name of a register.
pub open spec fn reg_name(r: Register) -> Seq<char> {
    match r {
        Register::Zero => "zero"@,
        Register::Ra => "ra"@,
        Register::Sp => "sp"@,
        Register::Gp => "gp"@,
        Register::Tp => "tp"@,
        Register::T0 => "t0"@,
        Register::T1 => "t1"@,
        Register::T2 => "t2"@,
        Register::S0 => "s0"@,
        Register::S1 => "s1"@,
        Register::A0 => "a0"@,
        Register::A1 => "a1"@,
        Register::A2 => "a2"@,
        Register::A3 => "a3"@,
        Register::A4 => "a4"@,
        Register::A5 => "a5"@,
        Register::A6 => "a6"@,
        Register::A7 => "a7"@,
        Register::S2 => "s2"@,
        Register::S3 => "s3"@,
        Register::S4 => "s4"@,
        Register::S5 => "s5"@,
        Register::S6 => "s6"@,
        Register::S7 => "s7"@,
        Register::S8 => "s8"@,
        Register::S9 => "s9"@,
        Register::S10 => "s10"@,
        Register::S11 => "s11"@,
        Register::T3 => "t3"@,
        Register::T4 => "t4"@,
        Register::T5 => "t5"@,
        Register::T6 => "t6"@,
    }
}

/// The numeric name of a register.
pub open spec fn reg_id_name(r: Register) -> Seq<char> {
    match r {
        Register::Zero => "x0"@,
        Register::Ra => "x1"@,
        Register::Sp => "x2"@,
        Register::Gp => "x3"@,
        Register::Tp => "x4"@,
        Register::T0 => "x5"@,
        Register::T1 => "x6"@,
        Register::T2 => "x7"@,
        Register::S0 => "x8"@,
        Register::S1 => "x9"@,
        Register::A0 => "x10"@,
        Register::A1 => "x11"@,
        Register::A2 => "x12"@,
        Register::A3 => "x13"@,
        Register::A4 => "x14"@,
        Register::A5 => "x15"@,
        Register::A6 => "x16"@,
        Register::A7 => "x17"@,
        Register::S2 => "x18"@,
        Register::S3 => "x19"@,
        Register::S4 => "x20"@,
        Register::S5 => "x21"@,
        Register::S6 => "x22"@,
        Register::S7 => "x23"@,
        Register::S8 => "x24"@,
        Register::S9 => "x25"@,
        Register::S10 => "x26"@,
        Register::S11 => "x27"@,
        Register::T3 => "x28"@,
        Register::T4 => "x29"@,
        Register::T5 => "x30"@,
        Register::T6 => "x31"@,
    }
}

/// Registers that the caller saves around a call.
pub open spec fn caller_saved(r: Register) -> bool {
    match r {
        Register::Ra | Register::T0 | Register::T1 | Register::T2 | Register::A0 | Register::A1 | Register::A2 | Register::A3 | Register::A4 | Register::A5 | Register::A6 | Register::A7 | Register::T3 | Register::T4 | Register::T5 | Register::T6 => true,
        _ => false,
    }
}

/// Caller-saved registers that code may use freely (all but `ra`).
pub open spec fn directly_usable(r: Register) -> bool {
    match r {
        Register::T0 | Register::T1 | Register::T2 | Register::A0 | Register::A1 | Register::A2 | Register::A3 | Register::A4 | Register::A5 | Register::A6 | Register::A7 | Register::T3 | Register::T4 | Register::T5 | Register::T6 => true,
        _ => false,
    }
}

impl Register {
    /// The register with the given number; the number must be below 32.
    pub fn from_index(value: u8) -> (r: Register)
        requires
            value < REGISTER_COUNT,
        ensures
            r == reg_of(value as nat),
            reg_index(r) == value,
    {
        if value == 0 {
            Register::Zero
        } else if value == 1 {
            Register::Ra
        } else if value == 2 {
            Register::Sp
        } else if value == 3 {
            Register::Gp
        } else if value == 4 {
            Register::Tp
        } else if value == 5 {
            Register::T0
        } else if value == 6 {
            Register::T1
        } else if value == 7 {
            Register::T2
        } else if value == 8 {
            Register::S0
        } else if value == 9 {
            Register::S1
        } else if value == 10 {
            Register::A0
        } else if value == 11 {
            Register::A1
        } else if value == 12 {
            Register::A2
        } else if value == 13 {
            Register::A3
        } else if value == 14 {
            Register::A4
        } else if value == 15 {
            Register::A5
        } else if value == 16 {
            Register::A6
        } else if value == 17 {
            Register::A7
        } else if value == 18 {
            Register::S2
        } else if value == 19 {
            Register::S3
        } else if value == 20 {
            Register::S4
        } else if value == 21 {
            Register::S5
        } else if value == 22 {
            Register::S6
        } else if value == 23 {
            Register::S7
        } else if value == 24 {
            Register::S8
        } else if value == 25 {
            Register::S9
        } else if value == 26 {
            Register::S10
        } else if value == 27 {
            Register::S11
        } else if value == 28 {
            Register::T3
        } else if value == 29 {
            Register::T4
        } else if value == 30 {
            Register::T5
        } else {
            Register::T6
        }
    }

    /// The number of the register.
    pub fn index(&self) -> (r: u8)
        ensures
            r as nat == reg_index(*self),
    {
        match self {
            Register::Zero => 0,
            Register::Ra => 1,
            Register::Sp => 2,
            Register::Gp => 3,
            Register::Tp => 4,
            Register::T0 => 5,
            Register::T1 => 6,
            Register::T2 => 7,
            Register::S0 => 8,
            Register::S1 => 9,
            Register::A0 => 10,
            Register::A1 => 11,
            Register::A2 => 12,
            Register::A3 => 13,
            Register::A4 => 14,
            Register::A5 => 15,
            Register::A6 => 16,
            Register::A7 => 17,
            Register::S2 => 18,
            Register::S3 => 19,
            Register::S4 => 20,
            Register::S5 => 21,
            Register::S6 => 22,
            Register::S7 => 23,
            Register::S8 => 24,
            Register::S9 => 25,
            Register::S10 => 26,
            Register::S11 => 27,
            Register::T3 => 28,
            Register::T4 => 29,
            Register::T5 => 30,
            Register::T6 => 31,
        }
    }

    pub fn is_caller_saved(&self) -> (r: bool)
        ensures
            r == caller_saved(*self),
    {
        match self {
            Register::Ra | Register::T0 | Register::T1 | Register::T2 | Register::A0 | Register::A1 | Register::A2 | Register::A3 | Register::A4 | Register::A5 | Register::A6 | Register::A7 | Register::T3 | Register::T4 | Register::T5 | Register::T6 => true,
            _ => false,
        }
    }

    pub fn caller_directly_usable(&self) -> (r: bool)
        ensures
            r == directly_usable(*self),
    {
        match self {
            Register::T0 | Register::T1 | Register::T2 | Register::A0 | Register::A1 | Register::A2 | Register::A3 | Register::A4 | Register::A5 | Register::A6 | Register::A7 | Register::T3 | Register::T4 | Register::T5 | Register::T6 => true,
            _ => false,
        }
    }

    /// The ABI name of the register.
    pub fn name(&self) -> (r: &'static str)
        ensures
            r@ == reg_name(*self),
    {
        match self {
            Register::Zero => "zero",
            Register::Ra => "ra",
            Register::Sp => "sp",
            Register::Gp => "gp",
            Register::Tp => "tp",
            Register::T0 => "t0",
            Register::T1 => "t1",
            Register::T2 => "t2",
            Register::S0 => "s0",
            Register::S1 => "s1",
            Register::A0 => "a0",
            Register::A1 => "a1",
            Register::A2 => "a2",
            Register::A3 => "a3",
            Register::A4 => "a4",
            Register::A5 => "a5",
            Register::A6 => "a6",
            Register::A7 => "a7",
            Register::S2 => "s2",
            Register::S3 => "s3",
            Register::S4 => "s4",
            Register::S5 => "s5",
            Register::S6 => "s6",
            Register::S7 => "s7",
            Register::S8 => "s8",
            Register::S9 => "s9",
            Register::S10 => "s10",
            Register::S11 => "s11",
            Register::T3 => "t3",
            Register::T4 => "t4",
            Register::T5 => "t5",
            Register::T6 => "t6",
        }
    }

    /// The numeric name of the register.
    pub fn name_id(&self) -> (r: &'static str)
        ensures
            r@ == reg_id_name(*self),
    {
        match self {
            Register::Zero => "x0",
            Register::Ra => "x1",
            Register::Sp => "x2",
            Register::Gp => "x3",
            Register::Tp => "x4",
            Register::T0 => "x5",
            Register::T1 => "x6",
            Register::T2 => "x7",
            Register::S0 => "x8",
            Register::S1 => "x9",
            Register::A0 => "x10",
            Register::A1 => "x11",
            Register::A2 => "x12",
            Register::A3 => "x13",
            Register::A4 => "x14",
            Register::A5 => "x15",
            Register::A6 => "x16",
            Register::A7 => "x17",
            Register::S2 => "x18",
            Register::S3 => "x19",
            Register::S4 => "x20",
            Register::S5 => "x21",
            Register::S6 => "x22",
            Register::S7 => "x23",
            Register::S8 => "x24",
            Register::S9 => "x25",
            Register::S10 => "x26",
            Register::S11 => "x27",
            Register::T3 => "x28",
            Register::T4 => "x29",
            Register::T5 => "x30",
            Register::T6 => "x31",
        }
    }
}


/// Text of `op a, b`, indented.
pub open spec fn two_operand_text(op: Seq<char>, a: Seq<char>, b: Seq<char>) -> Seq<char> {
    INDENT@ + op + " "@ + a + ", "@ + b
}

/// Text of `op a, b, c`, indented.
pub open spec fn three_operand_text(op: Seq<char>, a: Seq<char>, b: Seq<char>, c: Seq<char>) -> Seq<char> {
    INDENT@ + op + " "@ + a + ", "@ + b + ", "@ + c
}

/// Text of `op a, offset(base)`, indented.
pub open spec fn memory_text(op: Seq<char>, a: Register, offset: RV32Imm12, base: Register) -> Seq<char> {
    INDENT@ + op + " "@ + reg_name(a) + ", "@ + imm12_text(offset) + "("@ + reg_name(base) + ")"@
}

/// An instruction of RV32IM (and the pseudo-instructions the back end uses).
#[derive(Debug, Clone)]
pub enum RiscvInstruction {
    Ret,
    Call { func: String },
    Li { dest: Register, imm: RV32Imm },
    Lui { dest: Register, imm: RV32Imm },
    Mv { dest: Register, src: Register },
    La { dest: Register, label: String },
    Lw { dest: Register, base: Register, offset: RV32Imm12 },
    Sw { src: Register, base: Register, offset: RV32Imm12 },
    Add { dest: Register, src1: Register, src2: Register },
    Addi { dest: Register, src1: Register, src2: RV32Imm12 },
    Sub { dest: Register, src1: Register, src2: Register },
    Mul { dest: Register, src1: Register, src2: Register },
    Div { dest: Register, src1: Register, src2: Register },
    Mod { dest: Register, src1: Register, src2: Register },
    And { dest: Register, src1: Register, src2: Register },
    Or { dest: Register, src1: Register, src2: Register },
    Xor { dest: Register, src1: Register, src2: Register },
    Seqz { dest: Register, src: Register },
    Snez { dest: Register, src: Register },
    Slt { dest: Register, src1: Register, src2: Register },
    Sgt { dest: Register, src1: Register, src2: Register },
    J { label: String },
    Beqz { src: Register, label: String },
    Bnez { src: Register, label: String },
}

/// The text of an instruction in assembly.
pub open spec fn inst_text(i: RiscvInstruction) -> Seq<char> {
    match i {
        RiscvInstruction::Ret => INDENT@ + INST_RETURN@,
        RiscvInstruction::Call { func } => INDENT@ + INST_CALL@ + " "@ + func@,
        RiscvInstruction::Li { dest, imm } => two_operand_text(INST_LOAD_IMMEDIATE@, reg_name(dest), imm_text(imm)),
        RiscvInstruction::Lui { dest, imm } => two_operand_text(INST_LOAD_UPPER_IMMEDIATE@, reg_name(dest), imm_text(imm)),
        RiscvInstruction::Mv { dest, src } => two_operand_text(INST_MOVE@, reg_name(dest), reg_name(src)),
        RiscvInstruction::La { dest, label } => two_operand_text(INST_LOAD_ADDRESS@, reg_name(dest), label@),
        RiscvInstruction::Lw { dest, base, offset } => memory_text(INST_LOAD_WORD@, dest, offset, base),
        RiscvInstruction::Sw { src, base, offset } => memory_text(INST_STORE_WORD@, src, offset, base),
        RiscvInstruction::Addi { dest, src1, src2 } => three_operand_text(INST_ADDITION_IMMEDIATE@, reg_name(dest), reg_name(src1), imm12_text(src2)),
        RiscvInstruction::Add { dest, src1, src2 } => three_operand_text(INST_ADDITION@, reg_name(dest), reg_name(src1), reg_name(src2)),
        RiscvInstruction::Sub { dest, src1, src2 } => three_operand_text(INST_SUBTRACTION@, reg_name(dest), reg_name(src1), reg_name(src2)),
        RiscvInstruction::Mul { dest, src1, src2 } => three_operand_text(INST_MULTIPLICATION@, reg_name(dest), reg_name(src1), reg_name(src2)),
        RiscvInstruction::Div { dest, src1, src2 } => three_operand_text(INST_DIVISION@, reg_name(dest), reg_name(src1), reg_name(src2)),
        RiscvInstruction::Mod { dest, src1, src2 } => three_operand_text(INST_MODULO@, reg_name(dest), reg_name(src1), reg_name(src2)),
        RiscvInstruction::And { dest, src1, src2 } => three_operand_text(INST_AND@, reg_name(dest), reg_name(src1), reg_name(src2)),
        RiscvInstruction::Or { dest, src1, src2 } => three_operand_text(INST_OR@, reg_name(dest), reg_name(src1), reg_name(src2)),
        RiscvInstruction::Xor { dest, src1, src2 } => three_operand_text(INST_XOR@, reg_name(dest), reg_name(src1), reg_name(src2)),
        RiscvInstruction::Slt { dest, src1, src2 } => three_operand_text(INST_SET_IF_LESS_THAN@, reg_name(dest), reg_name(src1), reg_name(src2)),
        RiscvInstruction::Sgt { dest, src1, src2 } => three_operand_text(INST_SET_IF_GREATER_THAN@, reg_name(dest), reg_name(src1), reg_name(src2)),
        RiscvInstruction::Seqz { dest, src } => two_operand_text(INST_SET_IF_EQUAL_TO_ZERO@, reg_name(dest), reg_name(src)),
        RiscvInstruction::Snez { dest, src } => two_operand_text(INST_SET_IF_NOT_EQUAL_TO_ZERO@, reg_name(dest), reg_name(src)),
        RiscvInstruction::J { label } => INDENT@ + INST_JUMP@ + " "@ + label@,
        RiscvInstruction::Beqz { src, label } => two_operand_text(INST_BRANCH_IF_EQUAL_TO_ZERO@, reg_name(src), label@),
        RiscvInstruction::Bnez { src, label } => two_operand_text(INST_BRANCH_IF_NOT_EQUAL_TO_ZERO@, reg_name(src), label@),
    }
}

/// Law: the text of a register instruction is its mnemonic, indented, then
/// its destination, then its sources in order, separated by commas.
pub proof fn law_register_instruction_text(dest: Register, src1: Register, src2: Register)
    ensures
        inst_text(RiscvInstruction::Add { dest, src1, src2 }) == "  add "@ + reg_name(dest) + ", "@ + reg_name(src1) + ", "@ + reg_name(src2),
        inst_text(RiscvInstruction::Sub { dest, src1, src2 }) == "  sub "@ + reg_name(dest) + ", "@ + reg_name(src1) + ", "@ + reg_name(src2),
        inst_text(RiscvInstruction::Mul { dest, src1, src2 }) == "  mul "@ + reg_name(dest) + ", "@ + reg_name(src1) + ", "@ + reg_name(src2),
        inst_text(RiscvInstruction::Div { dest, src1, src2 }) == "  div "@ + reg_name(dest) + ", "@ + reg_name(src1) + ", "@ + reg_name(src2),
        inst_text(RiscvInstruction::Mod { dest, src1, src2 }) == "  rem "@ + reg_name(dest) + ", "@ + reg_name(src1) + ", "@ + reg_name(src2),
        inst_text(RiscvInstruction::And { dest, src1, src2 }) == "  and "@ + reg_name(dest) + ", "@ + reg_name(src1) + ", "@ + reg_name(src2),
        inst_text(RiscvInstruction::Or { dest, src1, src2 }) == "  or "@ + reg_name(dest) + ", "@ + reg_name(src1) + ", "@ + reg_name(src2),
        inst_text(RiscvInstruction::Xor { dest, src1, src2 }) == "  xor "@ + reg_name(dest) + ", "@ + reg_name(src1) + ", "@ + reg_name(src2),
        inst_text(RiscvInstruction::Slt { dest, src1, src2 }) == "  slt "@ + reg_name(dest) + ", "@ + reg_name(src1) + ", "@ + reg_name(src2),
        inst_text(RiscvInstruction::Sgt { dest, src1, src2 }) == "  sgt "@ + reg_name(dest) + ", "@ + reg_name(src1) + ", "@ + reg_name(src2),
        inst_text(RiscvInstruction::Mv { dest, src: src1 }) == "  mv "@ + reg_name(dest) + ", "@ + reg_name(src1),
        inst_text(RiscvInstruction::Seqz { dest, src: src1 }) == "  seqz "@ + reg_name(dest) + ", "@ + reg_name(src1),
        inst_text(RiscvInstruction::Snez { dest, src: src1 }) == "  snez "@ + reg_name(dest) + ", "@ + reg_name(src1),
{
    reveal_strlit("  ");
    reveal_strlit(" ");
    reveal_strlit(", ");
    reveal_strlit("add");
    reveal_strlit("sub");
    reveal_strlit("mul");
    reveal_strlit("div");
    reveal_strlit("rem");
    reveal_strlit("and");
    reveal_strlit("or");
    reveal_strlit("xor");
    reveal_strlit("slt");
    reveal_strlit("sgt");
    reveal_strlit("  add ");
    reveal_strlit("  sub ");
    reveal_strlit("  mul ");
    reveal_strlit("  div ");
    reveal_strlit("  rem ");
    reveal_strlit("  and ");
    reveal_strlit("  or ");
    reveal_strlit("  xor ");
    reveal_strlit("  slt ");
    reveal_strlit("  sgt ");
    reveal_strlit("mv");
    reveal_strlit("seqz");
    reveal_strlit("snez");
    reveal_strlit("  mv ");
    reveal_strlit("  seqz ");
    reveal_strlit("  snez ");
    assert(inst_text(RiscvInstruction::Add { dest, src1, src2 }) =~= "  add "@ + reg_name(dest) + ", "@ + reg_name(src1) + ", "@ + reg_name(src2));
    assert(inst_text(RiscvInstruction::Sub { dest, src1, src2 }) =~= "  sub "@ + reg_name(dest) + ", "@ + reg_name(src1) + ", "@ + reg_name(src2));
    assert(inst_text(RiscvInstruction::Mul { dest, src1, src2 }) =~= "  mul "@ + reg_name(dest) + ", "@ + reg_name(src1) + ", "@ + reg_name(src2));
    assert(inst_text(RiscvInstruction::Div { dest, src1, src2 }) =~= "  div "@ + reg_name(dest) + ", "@ + reg_name(src1) + ", "@ + reg_name(src2));
    assert(inst_text(RiscvInstruction::Mod { dest, src1, src2 }) =~= "  rem "@ + reg_name(dest) + ", "@ + reg_name(src1) + ", "@ + reg_name(src2));
    assert(inst_text(RiscvInstruction::And { dest, src1, src2 }) =~= "  and "@ + reg_name(dest) + ", "@ + reg_name(src1) + ", "@ + reg_name(src2));
    assert(inst_text(RiscvInstruction::Or { dest, src1, src2 }) =~= "  or "@ + reg_name(dest) + ", "@ + reg_name(src1) + ", "@ + reg_name(src2));
    assert(inst_text(RiscvInstruction::Xor { dest, src1, src2 }) =~= "  xor "@ + reg_name(dest) + ", "@ + reg_name(src1) + ", "@ + reg_name(src2));
    assert(inst_text(RiscvInstruction::Slt { dest, src1, src2 }) =~= "  slt "@ + reg_name(dest) + ", "@ + reg_name(src1) + ", "@ + reg_name(src2));
    assert(inst_text(RiscvInstruction::Sgt { dest, src1, src2 }) =~= "  sgt "@ + reg_name(dest) + ", "@ + reg_name(src1) + ", "@ + reg_name(src2));
    assert(inst_text(RiscvInstruction::Mv { dest, src: src1 }) =~= "  mv "@ + reg_name(dest) + ", "@ + reg_name(src1));
    assert(inst_text(RiscvInstruction::Seqz { dest, src: src1 }) =~= "  seqz "@ + reg_name(dest) + ", "@ + reg_name(src1));
    assert(inst_text(RiscvInstruction::Snez { dest, src: src1 }) =~= "  snez "@ + reg_name(dest) + ", "@ + reg_name(src1));
}

/// Law: the text of the other instructions: the mnemonic, indented; a
/// load or store names its register, then the offset and, in parentheses,
/// the base register; an immediate or a label comes last.
pub proof fn law_other_instruction_text(r: Register, base: Register, off: RV32Imm12, imm: RV32Imm, label: String)
    ensures
        inst_text(RiscvInstruction::Lw { dest: r, base, offset: off }) == "  lw "@ + reg_name(r) + ", "@ + imm12_text(off) + "("@ + reg_name(base) + ")"@,
        inst_text(RiscvInstruction::Sw { src: r, base, offset: off }) == "  sw "@ + reg_name(r) + ", "@ + imm12_text(off) + "("@ + reg_name(base) + ")"@,
        inst_text(RiscvInstruction::Addi { dest: r, src1: base, src2: off }) == "  addi "@ + reg_name(r) + ", "@ + reg_name(base) + ", "@ + imm12_text(off),
        inst_text(RiscvInstruction::Li { dest: r, imm }) == "  li "@ + reg_name(r) + ", "@ + imm_text(imm),
        inst_text(RiscvInstruction::Lui { dest: r, imm }) == "  lui "@ + reg_name(r) + ", "@ + imm_text(imm),
        inst_text(RiscvInstruction::La { dest: r, label }) == "  la "@ + reg_name(r) + ", "@ + label@,
        inst_text(RiscvInstruction::Beqz { src: r, label }) == "  beqz "@ + reg_name(r) + ", "@ + label@,
        inst_text(RiscvInstruction::Bnez { src: r, label }) == "  bnez "@ + reg_name(r) + ", "@ + label@,
        inst_text(RiscvInstruction::J { label }) == "  j "@ + label@,
        inst_text(RiscvInstruction::Call { func: label }) == "  call "@ + label@,
        inst_text(RiscvInstruction::Ret) == "  ret"@,
{
    reveal_strlit("  ");
    reveal_strlit(" ");
    reveal_strlit(", ");
    reveal_strlit("(");
    reveal_strlit(")");
    reveal_strlit("lw");
    reveal_strlit("sw");
    reveal_strlit("addi");
    reveal_strlit("li");
    reveal_strlit("lui");
    reveal_strlit("la");
    reveal_strlit("beqz");
    reveal_strlit("bnez");
    reveal_strlit("j");
    reveal_strlit("call");
    reveal_strlit("ret");
    reveal_strlit("  lw ");
    reveal_strlit("  sw ");
    reveal_strlit("  addi ");
    reveal_strlit("  li ");
    reveal_strlit("  lui ");
    reveal_strlit("  la ");
    reveal_strlit("  beqz ");
    reveal_strlit("  bnez ");
    reveal_strlit("  j ");
    reveal_strlit("  call ");
    reveal_strlit("  ret");
    assert(inst_text(RiscvInstruction::Lw { dest: r, base, offset: off }) =~= "  lw "@ + reg_name(r) + ", "@ + imm12_text(off) + "("@ + reg_name(base) + ")"@);
    assert(inst_text(RiscvInstruction::Sw { src: r, base, offset: off }) =~= "  sw "@ + reg_name(r) + ", "@ + imm12_text(off) + "("@ + reg_name(base) + ")"@);
    assert(inst_text(RiscvInstruction::Addi { dest: r, src1: base, src2: off }) =~= "  addi "@ + reg_name(r) + ", "@ + reg_name(base) + ", "@ + imm12_text(off));
    assert(inst_text(RiscvInstruction::Li { dest: r, imm }) =~= "  li "@ + reg_name(r) + ", "@ + imm_text(imm));
    assert(inst_text(RiscvInstruction::Lui { dest: r, imm }) =~= "  lui "@ + reg_name(r) + ", "@ + imm_text(imm));
    assert(inst_text(RiscvInstruction::La { dest: r, label }) =~= "  la "@ + reg_name(r) + ", "@ + label@);
    assert(inst_text(RiscvInstruction::Beqz { src: r, label }) =~= "  beqz "@ + reg_name(r) + ", "@ + label@);
    assert(inst_text(RiscvInstruction::Bnez { src: r, label }) =~= "  bnez "@ + reg_name(r) + ", "@ + label@);
    assert(inst_text(RiscvInstruction::J { label }) =~= "  j "@ + label@);
    assert(inst_text(RiscvInstruction::Call { func: label }) =~= "  call "@ + label@);
    assert(inst_text(RiscvInstruction::Ret) =~= "  ret"@);
}

fn push_two_operand(s: &mut String, op: &str, a: &str, b: &str)
    ensures
        final(s)@ == old(s)@ + two_operand_text(op@, a@, b@),
{
    s.append(INDENT);
    s.append(op);
    s.append(" ");
    s.append(a);
    s.append(", ");
    s.append(b);
    assert(final(s)@ =~= old(s)@ + two_operand_text(op@, a@, b@));
}

fn push_three_operand(s: &mut String, op: &str, a: Register, b: Register, c: Register)
    ensures
        final(s)@ == old(s)@ + three_operand_text(op@, reg_name(a), reg_name(b), reg_name(c)),
{
    s.append(INDENT);
    s.append(op);
    s.append(" ");
    s.append(a.name());
    s.append(", ");
    s.append(b.name());
    s.append(", ");
    s.append(c.name());
    assert(final(s)@ =~= old(s)@ + three_operand_text(op@, reg_name(a), reg_name(b), reg_name(c)));
}

fn push_memory(s: &mut String, op: &str, a: Register, offset: &RV32Imm12, base: Register)
    ensures
        final(s)@ == old(s)@ + memory_text(op@, a, *offset, base),
{
    s.append(INDENT);
    s.append(op);
    s.append(" ");
    s.append(a.name());
    s.append(", ");
    offset.push_text(s);
    s.append("(");
    s.append(base.name());
    s.append(")");
    assert(final(s)@ =~= old(s)@ + memory_text(op@, a, *offset, base));
}

impl RiscvInstruction {
    /// The text of the instruction in assembly.
    pub fn to_string(&self) -> (r: String)
        ensures
            r@ == inst_text(*self),
    {
        let mut s = String::new();
        match self {
            RiscvInstruction::Ret => {
                s.append(INDENT);
                s.append(INST_RETURN);
            },
            RiscvInstruction::Call { func } => {
                s.append(INDENT);
                s.append(INST_CALL);
                s.append(" ");
                s.append(func.as_str());
            },
            RiscvInstruction::Li { dest, imm } => {
                let t = imm.to_string();
                push_two_operand(&mut s, INST_LOAD_IMMEDIATE, dest.name(), t.as_str());
            },
            RiscvInstruction::Lui { dest, imm } => {
                let t = imm.to_string();
                push_two_operand(&mut s, INST_LOAD_UPPER_IMMEDIATE, dest.name(), t.as_str());
            },
            RiscvInstruction::Mv { dest, src } => {
                push_two_operand(&mut s, INST_MOVE, dest.name(), src.name());
            },
            RiscvInstruction::La { dest, label } => {
                push_two_operand(&mut s, INST_LOAD_ADDRESS, dest.name(), label.as_str());
            },
            RiscvInstruction::Lw { dest, base, offset } => {
                push_memory(&mut s, INST_LOAD_WORD, *dest, offset, *base);
            },
            RiscvInstruction::Sw { src, base, offset } => {
                push_memory(&mut s, INST_STORE_WORD, *src, offset, *base);
            },
            RiscvInstruction::Addi { dest, src1, src2 } => {
                let t = src2.to_string();
                s.append(INDENT);
                s.append(INST_ADDITION_IMMEDIATE);
                s.append(" ");
                s.append(dest.name());
                s.append(", ");
                s.append(src1.name());
                s.append(", ");
                s.append(t.as_str());
            },
            RiscvInstruction::Add { dest, src1, src2 } => {
                push_three_operand(&mut s, INST_ADDITION, *dest, *src1, *src2);
            },
            RiscvInstruction::Sub { dest, src1, src2 } => {
                push_three_operand(&mut s, INST_SUBTRACTION, *dest, *src1, *src2);
            },
            RiscvInstruction::Mul { dest, src1, src2 } => {
                push_three_operand(&mut s, INST_MULTIPLICATION, *dest, *src1, *src2);
            },
            RiscvInstruction::Div { dest, src1, src2 } => {
                push_three_operand(&mut s, INST_DIVISION, *dest, *src1, *src2);
            },
            RiscvInstruction::Mod { dest, src1, src2 } => {
                push_three_operand(&mut s, INST_MODULO, *dest, *src1, *src2);
            },
            RiscvInstruction::And { dest, src1, src2 } => {
                push_three_operand(&mut s, INST_AND, *dest, *src1, *src2);
            },
            RiscvInstruction::Or { dest, src1, src2 } => {
                push_three_operand(&mut s, INST_OR, *dest, *src1, *src2);
            },
            RiscvInstruction::Xor { dest, src1, src2 } => {
                push_three_operand(&mut s, INST_XOR, *dest, *src1, *src2);
            },
            RiscvInstruction::Slt { dest, src1, src2 } => {
                push_three_operand(&mut s, INST_SET_IF_LESS_THAN, *dest, *src1, *src2);
            },
            RiscvInstruction::Sgt { dest, src1, src2 } => {
                push_three_operand(&mut s, INST_SET_IF_GREATER_THAN, *dest, *src1, *src2);
            },
            RiscvInstruction::Seqz { dest, src } => {
                push_two_operand(&mut s, INST_SET_IF_EQUAL_TO_ZERO, dest.name(), src.name());
            },
            RiscvInstruction::Snez { dest, src } => {
                push_two_operand(&mut s, INST_SET_IF_NOT_EQUAL_TO_ZERO, dest.name(), src.name());
            },
            RiscvInstruction::J { label } => {
                s.append(INDENT);
                s.append(INST_JUMP);
                s.append(" ");
                s.append(label.as_str());
            },
            RiscvInstruction::Beqz { src, label } => {
                push_two_operand(&mut s, INST_BRANCH_IF_EQUAL_TO_ZERO, src.name(), label.as_str());
            },
            RiscvInstruction::Bnez { src, label } => {
                push_two_operand(&mut s, INST_BRANCH_IF_NOT_EQUAL_TO_ZERO, src.name(), label.as_str());
            },
        }
        assert(s@ =~= inst_text(*self));
        s
    }
}

/// An initializer of a global datum.
#[derive(Debug, Clone)]
pub enum RiscvInit {
    Zero(RV32Usize),
    Word(RV32Imm),
}

pub open spec fn init_text(i: RiscvInit) -> Seq<char> {
    match i {
        RiscvInit::Zero(size) => INDENT@ + ZERO_INIT@ + " "@ + nat_text(size as nat),
        RiscvInit::Word(value) => INDENT@ + INIT_WORD@ + " "@ + imm_text(value),
    }
}

impl RiscvInit {
    /// The text of the initializer in assembly.
    pub fn to_string(&self) -> (r: String)
        ensures
            r@ == init_text(*self),
    {
        let mut s = String::new();
        s.append(INDENT);
        match self {
            RiscvInit::Zero(size) => {
                s.append(ZERO_INIT);
                s.append(" ");
                push_nat(&mut s, *size as u64);
            },
            RiscvInit::Word(value) => {
                s.append(INIT_WORD);
                s.append(" ");
                value.push_text(&mut s);
            },
        }
        assert(s@ =~= init_text(*self));
        s
    }
}

/// A line of assembly.
#[derive(Debug, Clone)]
pub enum RiscvAsm {
    Section(String),
    Global(String),
    Label(String),
    Init(RiscvInit),
    Instruction(RiscvInstruction),
    /// An empty line.
    Blank,
}

pub open spec fn asm_text(a: RiscvAsm) -> Seq<char> {
    match a {
        RiscvAsm::Section(name) => INDENT@ + name@,
        RiscvAsm::Global(name) => INDENT@ + GLOBAL_SYMBOL@ + " "@ + name@,
        RiscvAsm::Label(name) => name@ + ":"@,
        RiscvAsm::Init(init) => init_text(init),
        RiscvAsm::Instruction(inst) => inst_text(inst),
        RiscvAsm::Blank => Seq::empty(),
    }
}

impl RiscvAsm {
    /// The text of the line.
    pub fn to_string(&self) -> (r: String)
        ensures
            r@ == asm_text(*self),
    {
        match self {
            RiscvAsm::Section(name) => {
                let mut s = String::new();
                s.append(INDENT);
                s.append(name.as_str());
                assert(s@ =~= asm_text(*self));
                s
            },
            RiscvAsm::Global(name) => {
                let mut s = String::new();
                s.append(INDENT);
                s.append(GLOBAL_SYMBOL);
                s.append(" ");
                s.append(name.as_str());
                assert(s@ =~= asm_text(*self));
                s
            },
            RiscvAsm::Label(name) => {
                let mut s = String::new();
                s.append(name.as_str());
                s.append(":");
                assert(s@ =~= asm_text(*self));
                s
            },
            RiscvAsm::Init(init) => init.to_string(),
            RiscvAsm::Instruction(inst) => inst.to_string(),
            RiscvAsm::Blank => String::new(),
        }
    }
}

/// Law: the text of the lines that are not instructions: a label is its
/// name and a colon; a section, `.globl` with its symbol, and the data
/// directives are indented; a blank line is empty; an instruction line is
/// the instruction's text.
pub proof fn law_line_text(name: String, size: RV32Usize, value: RV32Imm, inst: RiscvInstruction)
    ensures
        asm_text(RiscvAsm::Label(name)) == name@ + ":"@,
        asm_text(RiscvAsm::Section(name)) == "  "@ + name@,
        asm_text(RiscvAsm::Global(name)) == "  .globl "@ + name@,
        asm_text(RiscvAsm::Init(RiscvInit::Zero(size))) == "  .zero "@ + nat_text(size as nat),
        asm_text(RiscvAsm::Init(RiscvInit::Word(value))) == "  .word "@ + imm_text(value),
        asm_text(RiscvAsm::Blank) == Seq::<char>::empty(),
        asm_text(RiscvAsm::Instruction(inst)) == inst_text(inst),
{
    reveal_strlit("  ");
    reveal_strlit(" ");
    reveal_strlit(".globl");
    reveal_strlit(".zero");
    reveal_strlit(".word");
    reveal_strlit("  .globl ");
    reveal_strlit("  .zero ");
    reveal_strlit("  .word ");
    assert(asm_text(RiscvAsm::Global(name)) =~= "  .globl "@ + name@);
    assert(asm_text(RiscvAsm::Init(RiscvInit::Zero(size))) =~= "  .zero "@ + nat_text(size as nat));
    assert(asm_text(RiscvAsm::Init(RiscvInit::Word(value))) =~= "  .word "@ + imm_text(value));
}

} // verus!
