//! The command line of the compiler, and the text of the assembly it writes.
use vstd::prelude::*;
use vstd::string::StringExecFns;

use crate::riscv::meta::{asm_text, RiscvAsm};

verus! {

/// The command line: `<mode> <input> -o <output>`.
#[derive(Debug)]
pub struct Args {
    pub mode: String,
    pub input: String,
    pub output: String,
}

impl Args {
    pub fn new(mode: String, input: String, output: String) -> (r: Self)
        ensures
            r.mode@ == mode@,
            r.input@ == input@,
            r.output@ == output@,
    {
        Self { mode, input, output }
    }
}

/// Reads the command line `program <mode> <input> -o <output>`; the word
/// after the input is skipped unread.
pub fn parse_args(argv: &[String]) -> (r: Result<Args, String>)
    ensures
        argv@.len() < 2 ==> (r matches Err(e) && e@ == "Missing mode"@),
        2 <= argv@.len() < 3 ==> (r matches Err(e) && e@ == "Missing input file"@),
        3 <= argv@.len() < 5 ==> (r matches Err(e) && e@ == "Missing output file"@),
        argv@.len() >= 5 ==> (r matches Ok(a) && a.mode@ == argv@[1]@ && a.input@ == argv@[2]@ && a.output@ == argv@[4]@),
{
    if argv.len() < 2 {
        return Err(String::from_str("Missing mode"));
    }
    if argv.len() < 3 {
        return Err(String::from_str("Missing input file"));
    }
    if argv.len() < 5 {
        return Err(String::from_str("Missing output file"));
    }
    Ok(Args::new(argv[1].clone(), argv[2].clone(), argv[4].clone()))
}

/// What the compiler writes.
#[derive(Debug, Clone, Copy, PartialEq, Eq, Structural)]
pub enum Mode {
    /// The Koopa IR, as text.
    Koopa,
    /// RISC-V assembly.
    Riscv,
}

/// The mode named on the command line: `-koopa` or `-riscv`.
pub fn mode_of(mode: &String) -> (r: Result<Mode, String>)
    ensures
        mode@ == "-koopa"@ ==> r == Ok::<Mode, String>(Mode::Koopa),
        mode@ == "-riscv"@ ==> r == Ok::<Mode, String>(Mode::Riscv),
        mode@ != "-koopa"@ && mode@ != "-riscv"@ ==> (r matches Err(e) && e@ == "Unknown mode: "@ + mode@),
{
    let koopa = String::from_str("-koopa");
    let riscv = String::from_str("-riscv");
    proof {
        reveal_strlit("-koopa");
        reveal_strlit("-riscv");
        assert("-koopa"@[1] != "-riscv"@[1]);
    }
    if *mode == koopa {
        Ok(Mode::Koopa)
    } else if *mode == riscv {
        Ok(Mode::Riscv)
    } else {
        let mut e = String::from_str("Unknown mode: ");
        e.append(mode.as_str());
        Err(e)
    }
}

/// The text of a program: each line followed by a newline.
pub open spec fn program_text(lines: Seq<RiscvAsm>) -> Seq<char>
    decreases lines.len(),
{
    if lines.len() == 0 {
        Seq::empty()
    } else {
        program_text(lines.drop_last()) + asm_text(lines.last()) + "\n"@
    }
}

/// The text of a program, as the compiler writes it.
pub fn asm_program_text(lines: &[RiscvAsm]) -> (r: String)
    ensures
        r@ == program_text(lines@),
{
    let mut out = String::new();
    let mut i: usize = 0;
    while i < lines.len()
        invariant
            i <= lines@.len(),
            out@ == program_text(lines@.take(i as int)),
        decreases lines.len() - i,
    {
        let line = lines[i].to_string();
        out.append(line.as_str());
        out.append("\n");
        proof {
            assert(lines@.take(i + 1).drop_last() =~= lines@.take(i as int));
            assert(lines@.take(i + 1).last() == lines@[i as int]);
        }
        i = i + 1;
    }
    assert(lines@.take(i as int) =~= lines@);
    out
}

} // verus!
