//! The instruction set of the target machine and its textual form.
//!
//! The machine has an address register `A`, a data register `D` and a memory
//! word `M` addressed by `A`. A program is a list of lines: address
//! instructions (`@value`), compute instructions (`dest=comp;jump`) and label
//! declarations (`(name)`).

use vstd::prelude::*;
use vstd::string::*;
use crate::text::{decimal, decimal_string};

verus! {

/// The registers a compute instruction stores its result in.
#[derive(Clone, Copy, Debug, PartialEq, Eq, Structural)]
pub enum Dest {
    Nothing,
    M,
    D,
    MD,
    A,
    AM,
    AD,
    AMD,
}

/// The expression a compute instruction evaluates.
#[derive(Clone, Copy, Debug, PartialEq, Eq, Structural)]
pub enum Comp {
    Zero,
    One,
    MinusOne,
    D,
    A,
    M,
    NotD,
    NotA,
    NotM,
    NegD,
    NegA,
    NegM,
    DPlusOne,
    APlusOne,
    MPlusOne,
    DMinusOne,
    AMinusOne,
    MMinusOne,
    DPlusA,
    DPlusM,
    DMinusA,
    DMinusM,
    AMinusD,
    MMinusD,
    DAndA,
    DAndM,
    DOrA,
    DOrM,
}

/// The condition, on the computed value, under which a compute instruction
/// jumps to the address held in `A`.
#[derive(Clone, Copy, Debug, PartialEq, Eq, Structural)]
pub enum Jump {
    Never,
    Greater,
    Equal,
    GreaterEqual,
    Less,
    NotEqual,
    LessEqual,
    Always,
}

/// One line of a program, with its symbols as character sequences.
pub enum InstructionView {
    /// `@n`: load the number `n` into `A`.
    Number(nat),
    /// `@name`: load the address that `name` stands for into `A`.
    Symbol(Seq<char>),
    /// `(name)`: declare `name` as the address of the next instruction.
    Label(Seq<char>),
    /// `dest=comp;jump`.
    Compute { dest: Dest, comp: Comp, jump: Jump },
}

/// One line of a program.
#[derive(Debug)]
pub enum Instruction {
    Number(u32),
    Symbol(String),
    Label(String),
    Compute { dest: Dest, comp: Comp, jump: Jump },
}

impl View for Instruction {
    type V = InstructionView;

    open spec fn view(&self) -> InstructionView {
        match self {
            Instruction::Number(n) => InstructionView::Number(*n as nat),
            Instruction::Symbol(s) => InstructionView::Symbol(s@),
            Instruction::Label(s) => InstructionView::Label(s@),
            Instruction::Compute { dest, comp, jump } => InstructionView::Compute {
                dest: *dest,
                comp: *comp,
                jump: *jump,
            },
        }
    }
}

impl Dest {
    /// The mnemonic of this set of registers; empty when nothing is stored.
    pub open spec fn text(self) -> Seq<char> {
        match self {
            Dest::Nothing => ""@,
            Dest::M => "M"@,
            Dest::D => "D"@,
            Dest::MD => "MD"@,
            Dest::A => "A"@,
            Dest::AM => "AM"@,
            Dest::AD => "AD"@,
            Dest::AMD => "AMD"@,
        }
    }

    /// Whether the result is stored in the address register.
    pub open spec fn stores_a(self) -> bool {
        self == Dest::A || self == Dest::AM || self == Dest::AD || self == Dest::AMD
    }

    /// Whether the result is stored in the data register.
    pub open spec fn stores_d(self) -> bool {
        self == Dest::D || self == Dest::MD || self == Dest::AD || self == Dest::AMD
    }

    /// Whether the result is stored in the addressed memory word.
    pub open spec fn stores_m(self) -> bool {
        self == Dest::M || self == Dest::MD || self == Dest::AM || self == Dest::AMD
    }

    pub fn mnemonic(self) -> (r: &'static str)
        ensures
            r@ == self.text(),
    {
        match self {
            Dest::Nothing => "",
            Dest::M => "M",
            Dest::D => "D",
            Dest::MD => "MD",
            Dest::A => "A",
            Dest::AM => "AM",
            Dest::AD => "AD",
            Dest::AMD => "AMD",
        }
    }
}

impl Comp {
    /// The mnemonic of this expression.
    pub open spec fn text(self) -> Seq<char> {
        match self {
            Comp::Zero => "0"@,
            Comp::One => "1"@,
            Comp::MinusOne => "-1"@,
            Comp::D => "D"@,
            Comp::A => "A"@,
            Comp::M => "M"@,
            Comp::NotD => "!D"@,
            Comp::NotA => "!A"@,
            Comp::NotM => "!M"@,
            Comp::NegD => "-D"@,
            Comp::NegA => "-A"@,
            Comp::NegM => "-M"@,
            Comp::DPlusOne => "D+1"@,
            Comp::APlusOne => "A+1"@,
            Comp::MPlusOne => "M+1"@,
            Comp::DMinusOne => "D-1"@,
            Comp::AMinusOne => "A-1"@,
            Comp::MMinusOne => "M-1"@,
            Comp::DPlusA => "D+A"@,
            Comp::DPlusM => "D+M"@,
            Comp::DMinusA => "D-A"@,
            Comp::DMinusM => "D-M"@,
            Comp::AMinusD => "A-D"@,
            Comp::MMinusD => "M-D"@,
            Comp::DAndA => "D&A"@,
            Comp::DAndM => "D&M"@,
            Comp::DOrA => "D|A"@,
            Comp::DOrM => "D|M"@,
        }
    }

    pub fn mnemonic(self) -> (r: &'static str)
        ensures
            r@ == self.text(),
    {
        match self {
            Comp::Zero => "0",
            Comp::One => "1",
            Comp::MinusOne => "-1",
            Comp::D => "D",
            Comp::A => "A",
            Comp::M => "M",
            Comp::NotD => "!D",
            Comp::NotA => "!A",
            Comp::NotM => "!M",
            Comp::NegD => "-D",
            Comp::NegA => "-A",
            Comp::NegM => "-M",
            Comp::DPlusOne => "D+1",
            Comp::APlusOne => "A+1",
            Comp::MPlusOne => "M+1",
            Comp::DMinusOne => "D-1",
            Comp::AMinusOne => "A-1",
            Comp::MMinusOne => "M-1",
            Comp::DPlusA => "D+A",
            Comp::DPlusM => "D+M",
            Comp::DMinusA => "D-A",
            Comp::DMinusM => "D-M",
            Comp::AMinusD => "A-D",
            Comp::MMinusD => "M-D",
            Comp::DAndA => "D&A",
            Comp::DAndM => "D&M",
            Comp::DOrA => "D|A",
            Comp::DOrM => "D|M",
        }
    }
}

impl Jump {
    /// The mnemonic of this condition; empty when the instruction never jumps.
    pub open spec fn text(self) -> Seq<char> {
        match self {
            Jump::Never => ""@,
            Jump::Greater => "JGT"@,
            Jump::Equal => "JEQ"@,
            Jump::GreaterEqual => "JGE"@,
            Jump::Less => "JLT"@,
            Jump::NotEqual => "JNE"@,
            Jump::LessEqual => "JLE"@,
            Jump::Always => "JMP"@,
        }
    }

    pub fn mnemonic(self) -> (r: &'static str)
        ensures
            r@ == self.text(),
    {
        match self {
            Jump::Never => "",
            Jump::Greater => "JGT",
            Jump::Equal => "JEQ",
            Jump::GreaterEqual => "JGE",
            Jump::Less => "JLT",
            Jump::NotEqual => "JNE",
            Jump::LessEqual => "JLE",
            Jump::Always => "JMP",
        }
    }
}

impl InstructionView {
    /// `@name`.
    pub open spec fn at(name: Seq<char>) -> InstructionView {
        InstructionView::Symbol(name)
    }

    /// `dest=comp`.
    pub open spec fn set(dest: Dest, comp: Comp) -> InstructionView {
        InstructionView::Compute { dest, comp, jump: Jump::Never }
    }

    /// `comp;jump`.
    pub open spec fn branch(comp: Comp, jump: Jump) -> InstructionView {
        InstructionView::Compute { dest: Dest::Nothing, comp, jump }
    }

    /// The line of program text that this instruction is written as.
    pub open spec fn text(self) -> Seq<char> {
        match self {
            InstructionView::Number(n) => "@"@ + decimal(n),
            InstructionView::Symbol(s) => "@"@ + s,
            InstructionView::Label(s) => "("@ + s + ")"@,
            InstructionView::Compute { dest, comp, jump } => {
                let target = if dest == Dest::Nothing { Seq::<char>::empty() } else { dest.text() + "="@ };
                let branch = if jump == Jump::Never { Seq::<char>::empty() } else { ";"@ + jump.text() };
                target + comp.text() + branch
            },
        }
    }
}

/// The text of a list of instructions: one line each, separated by newlines,
/// with no newline after the last.
pub open spec fn listing(code: Seq<InstructionView>) -> Seq<char>
    decreases code.len(),
{
    if code.len() == 0 {
        Seq::<char>::empty()
    } else if code.len() == 1 {
        code[0].text()
    } else {
        listing(code.drop_last()) + "\n"@ + code.last().text()
    }
}

/// The views of a list of instructions, in order.
pub open spec fn views(code: Seq<Instruction>) -> Seq<InstructionView> {
    Seq::new(code.len(), |i: int| code[i]@)
}

impl Instruction {
    /// `@name`.
    pub fn at(name: &str) -> (r: Instruction)
        ensures
            r@ == InstructionView::at(name@),
    {
        Instruction::Symbol(String::from_str(name))
    }

    /// `dest=comp`.
    pub fn set(dest: Dest, comp: Comp) -> (r: Instruction)
        ensures
            r@ == InstructionView::set(dest, comp),
    {
        Instruction::Compute { dest, comp, jump: Jump::Never }
    }

    /// `comp;jump`.
    pub fn branch(comp: Comp, jump: Jump) -> (r: Instruction)
        ensures
            r@ == InstructionView::branch(comp, jump),
    {
        Instruction::Compute { dest: Dest::Nothing, comp, jump }
    }

    /// Writes this instruction as a line of program text.
    pub fn render(&self) -> (r: String)
        ensures
            r@ == self@.text(),
    {
        match self {
            Instruction::Number(n) => {
                let mut r = String::from_str("@");
                let digits = decimal_string(*n as u64);
                r.append(digits.as_str());
                r
            },
            Instruction::Symbol(s) => {
                let mut r = String::from_str("@");
                r.append(s.as_str());
                r
            },
            Instruction::Label(s) => {
                let mut r = String::from_str("(");
                r.append(s.as_str());
                r.append(")");
                r
            },
            Instruction::Compute { dest, comp, jump } => {
                let mut r = String::new();
                match dest {
                    Dest::Nothing => {},
                    _ => {
                        r.append(dest.mnemonic());
                        r.append("=");
                    },
                }
                r.append(comp.mnemonic());
                match jump {
                    Jump::Never => {},
                    _ => {
                        r.append(";");
                        r.append(jump.mnemonic());
                    },
                }
                assert(r@ =~= self@.text());
                r
            },
        }
    }
}

/// Adds `instruction` at the end of `code`.
pub fn emit(code: &mut Vec<Instruction>, instruction: Instruction)
    ensures
        views(final(code)@) == views(old(code)@).push(instruction@),
{
    code.push(instruction);
    assert(views(code@) =~= views(old(code)@).push(instruction@));
}

/// Writes a list of instructions as program text, one line each.
pub fn render_listing(code: &Vec<Instruction>) -> (r: String)
    ensures
        r@ == listing(views(code@)),
{
    let mut r = String::new();
    let mut i: usize = 0;
    while i < code.len()
        invariant
            i <= code.len(),
            r@ == listing(views(code@).take(i as int)),
        decreases code.len() - i,
    {
        let line = code[i].render();
        if i > 0 {
            r.append("\n");
        }
        r.append(line.as_str());
        proof {
            let all = views(code@);
            let next = all.take(i + 1);
            assert(next.drop_last() =~= all.take(i as int));
            assert(next.last() == code@[i as int]@);
            if i == 0 {
                assert(r@ =~= listing(next));
            }
        }
        i = i + 1;
    }
    assert(views(code@).take(code.len() as int) =~= views(code@));
    r
}

} // verus!
