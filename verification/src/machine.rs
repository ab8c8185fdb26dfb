//! A model of the target machine, to state what generated code does.
//!
//! The machine holds 16-bit words, here the numbers from 0 up to 65535: the
//! registers `A` and `D`, a memory of words, and a program counter. A program
//! is a list of instructions; the counter is an index into that list, and a
//! label declaration takes a place in it at which nothing happens, so that a
//! label stands for the index of its own declaration.

use vstd::prelude::*;
use crate::hack::{Comp, InstructionView, Jump};

verus! {

/// The word that the number `x` is cut down to.
pub open spec fn wrap(x: int) -> int {
    x % 0x10000
}

/// The number that the word `w` stands for when its top bit is read as a
/// sign.
pub open spec fn signed(w: int) -> int {
    if w >= 0x8000 {
        w - 0x10000
    } else {
        w
    }
}

/// The state of the machine.
pub struct Machine {
    /// The address register.
    pub a: int,
    /// The data register.
    pub d: int,
    /// The index of the instruction that runs next.
    pub pc: int,
    /// The memory, one word for each address.
    pub ram: Seq<int>,
}

impl Machine {
    /// Whether the registers and all of the memory hold words.
    pub open spec fn well_formed(self) -> bool {
        &&& 0 <= self.a < 0x10000
        &&& 0 <= self.d < 0x10000
        &&& self.ram.len() == 0x10000
        &&& forall|i: int| 0 <= i < 0x10000 ==> 0 <= #[trigger] self.ram[i] < 0x10000
    }

    /// The stack pointer.
    pub open spec fn sp(self) -> int {
        self.ram[0]
    }

    /// The base of the `local` segment.
    pub open spec fn lcl(self) -> int {
        self.ram[1]
    }

    /// The base of the `argument` segment.
    pub open spec fn arg(self) -> int {
        self.ram[2]
    }

    /// The base of the `this` segment.
    pub open spec fn this(self) -> int {
        self.ram[3]
    }

    /// The base of the `that` segment.
    pub open spec fn that(self) -> int {
        self.ram[4]
    }
}

/// The bitwise and of two words.
pub open spec fn word_and(x: int, y: int) -> int {
    ((x as u16) & (y as u16)) as int
}

/// The bitwise or of two words.
pub open spec fn word_or(x: int, y: int) -> int {
    ((x as u16) | (y as u16)) as int
}

/// The word that the expression `comp` evaluates to with `a` in `A`, `d` in
/// `D` and `m` in the addressed memory word.
pub open spec fn evaluate(comp: Comp, a: int, d: int, m: int) -> int {
    match comp {
        Comp::Zero => 0,
        Comp::One => 1,
        Comp::MinusOne => 0xFFFF,
        Comp::D => d,
        Comp::A => a,
        Comp::M => m,
        Comp::NotD => 0xFFFF - d,
        Comp::NotA => 0xFFFF - a,
        Comp::NotM => 0xFFFF - m,
        Comp::NegD => wrap(-d),
        Comp::NegA => wrap(-a),
        Comp::NegM => wrap(-m),
        Comp::DPlusOne => wrap(d + 1),
        Comp::APlusOne => wrap(a + 1),
        Comp::MPlusOne => wrap(m + 1),
        Comp::DMinusOne => wrap(d - 1),
        Comp::AMinusOne => wrap(a - 1),
        Comp::MMinusOne => wrap(m - 1),
        Comp::DPlusA => wrap(d + a),
        Comp::DPlusM => wrap(d + m),
        Comp::DMinusA => wrap(d - a),
        Comp::DMinusM => wrap(d - m),
        Comp::AMinusD => wrap(a - d),
        Comp::MMinusD => wrap(m - d),
        Comp::DAndA => word_and(d, a),
        Comp::DAndM => word_and(d, m),
        Comp::DOrA => word_or(d, a),
        Comp::DOrM => word_or(d, m),
    }
}

/// Whether a compute instruction with the condition `jump` jumps when it has
/// computed the word `value`.
pub open spec fn jumps(jump: Jump, value: int) -> bool {
    match jump {
        Jump::Never => false,
        Jump::Greater => signed(value) > 0,
        Jump::Equal => value == 0,
        Jump::GreaterEqual => signed(value) >= 0,
        Jump::Less => signed(value) < 0,
        Jump::NotEqual => value != 0,
        Jump::LessEqual => signed(value) <= 0,
        Jump::Always => true,
    }
}

/// The machine after it has run `instruction`, where `symbols` gives the
/// address that each symbol stands for.
pub open spec fn apply(instruction: InstructionView, symbols: Map<Seq<char>, int>, m: Machine) -> Machine {
    match instruction {
        InstructionView::Number(n) => Machine { a: wrap(n as int), pc: m.pc + 1, ..m },
        InstructionView::Symbol(name) => Machine { a: symbols[name], pc: m.pc + 1, ..m },
        InstructionView::Label(name) => Machine { pc: m.pc + 1, ..m },
        InstructionView::Compute { dest, comp, jump } => {
            let value = evaluate(comp, m.a, m.d, m.ram[m.a]);
            Machine {
                a: if dest.stores_a() { value } else { m.a },
                d: if dest.stores_d() { value } else { m.d },
                pc: if jumps(jump, value) { m.a } else { m.pc + 1 },
                ram: if dest.stores_m() { m.ram.update(m.a, value) } else { m.ram },
            }
        },
    }
}

/// The machine after one step of `program`. A machine whose counter points
/// outside the program stays as it is.
pub open spec fn step(program: Seq<InstructionView>, symbols: Map<Seq<char>, int>, m: Machine) -> Machine {
    if 0 <= m.pc < program.len() {
        apply(program[m.pc], symbols, m)
    } else {
        m
    }
}

/// The machine after `steps` steps of `program`.
pub open spec fn run(
    program: Seq<InstructionView>,
    symbols: Map<Seq<char>, int>,
    m: Machine,
    steps: nat,
) -> Machine
    decreases steps,
{
    if steps == 0 {
        m
    } else {
        run(program, symbols, step(program, symbols, m), (steps - 1) as nat)
    }
}

/// Whether `code` stands in `program` from index `at` on.
pub open spec fn occupies(program: Seq<InstructionView>, at: int, code: Seq<InstructionView>) -> bool {
    &&& 0 <= at
    &&& at + code.len() <= program.len()
    &&& forall|k: int| 0 <= k < code.len() ==> program[at + k] == #[trigger] code[k]
}

/// Whether `symbols` gives the five registers that the generated code names
/// their addresses, 0 to 4.
pub open spec fn names_registers(symbols: Map<Seq<char>, int>) -> bool {
    &&& symbols["SP"@] == 0
    &&& symbols["LCL"@] == 1
    &&& symbols["ARG"@] == 2
    &&& symbols["THIS"@] == 3
    &&& symbols["THAT"@] == 4
}

/// Whether `symbols` gives each label that `program` declares the index of
/// its declaration, which is a word.
pub open spec fn resolves_labels(program: Seq<InstructionView>, symbols: Map<Seq<char>, int>) -> bool {
    &&& program.len() <= 0x10000
    &&& forall|i: int|
        0 <= i < program.len() && (#[trigger] program[i]) is Label ==> symbols[program[i]->Label_0]
            == i
}

/// Running `i + j` steps is running `i` steps and then `j` steps.
pub proof fn lemma_run_split(
    program: Seq<InstructionView>,
    symbols: Map<Seq<char>, int>,
    m: Machine,
    i: nat,
    j: nat,
)
    ensures
        run(program, symbols, m, i + j) == run(program, symbols, run(program, symbols, m, i), j),
    decreases i,
{
    if i > 0 {
        lemma_run_split(program, symbols, step(program, symbols, m), (i - 1) as nat, j);
    }
}

/// Where a list of two parts stands in a program, each part stands there.
pub proof fn lemma_occupies_parts(
    program: Seq<InstructionView>,
    at: int,
    first: Seq<InstructionView>,
    second: Seq<InstructionView>,
)
    requires
        occupies(program, at, first + second),
    ensures
        occupies(program, at, first),
        occupies(program, at + first.len(), second),
{
    let both = first + second;
    assert forall|k: int| 0 <= k < first.len() implies program[at + k] == #[trigger] first[k] by {
        assert(both[k] == first[k]);
    }
    assert forall|k: int| 0 <= k < second.len() implies program[at + first.len() + k]
        == #[trigger] second[k] by {
        assert(both[first.len() + k] == second[k]);
    }
}

/// Whether `symbols` gives every symbol a word.
pub open spec fn names_words(symbols: Map<Seq<char>, int>) -> bool {
    forall|name: Seq<char>| 0 <= #[trigger] symbols[name] < 0x10000
}

/// A machine whose registers and memory hold words still holds words after
/// any instruction.
pub proof fn lemma_apply_well_formed(
    instruction: InstructionView,
    symbols: Map<Seq<char>, int>,
    m: Machine,
)
    requires
        m.well_formed(),
        names_words(symbols),
    ensures
        apply(instruction, symbols, m).well_formed(),
{
    match instruction {
        InstructionView::Compute { dest, comp, jump } => {
            let value = evaluate(comp, m.a, m.d, m.ram[m.a]);
            assert(0 <= m.ram[m.a] < 0x10000);
            assert(0 <= value < 0x10000);
        },
        _ => {},
    }
}

} // verus!
