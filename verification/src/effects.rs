//! What the blocks of generated code do to the machine.

use vstd::prelude::*;
use crate::codegen::{
    binary_code, bootstrap_code, call_code, capture_code, comparison_code, deliver_code,
    end_label, entry_name, function_code, goto_code, if_goto_code, return_label, pop_d_code, pop_to_segment_code, push_constant_code, push_d_code,
    push_from_segment_code, push_symbol_code, reposition_code, restore_code, resume_code,
    return_code, save_frame_code, transfer_code, true_label, unary_code, zero_locals_code,
};
use crate::hack::{Comp, Dest, InstructionView, Jump};
use crate::machine::{
    evaluate, jumps, lemma_occupies_parts, lemma_run_split, names_registers, occupies,
    resolves_labels, run, wrap, Machine,
};

verus! {

/// The memory after the word `value` has been put on top of the stack.
pub open spec fn pushed(ram: Seq<int>, value: int) -> Seq<int> {
    let stored = ram.update(ram[0], value);
    stored.update(0, wrap(stored[0] + 1))
}

/// The memory after the top word has been taken off the stack.
pub open spec fn popped(ram: Seq<int>) -> Seq<int> {
    ram.update(0, wrap(ram[0] - 1))
}

/// The top word of the stack.
pub open spec fn top(ram: Seq<int>) -> int {
    popped(ram)[popped(ram)[0]]
}

/// The block that puts `D` on the stack stores it where the stack pointer
/// points and moves the pointer up by one.
pub proof fn lemma_push_d(program: Seq<InstructionView>, symbols: Map<Seq<char>, int>, m: Machine)
    requires
        names_registers(symbols),
        occupies(program, m.pc, push_d_code()),
        m.ram.len() == 0x10000,
        0 <= m.ram[0] < 0x10000,
    ensures
        run(program, symbols, m, 5).ram == pushed(m.ram, m.d),
        run(program, symbols, m, 5).pc == m.pc + 5,
        run(program, symbols, m, 5).d == m.d,
{
    let code = push_d_code();
    assert(program[m.pc + 0] == code[0]);
    assert(program[m.pc + 1] == code[1]);
    assert(program[m.pc + 2] == code[2]);
    assert(program[m.pc + 3] == code[3]);
    assert(program[m.pc + 4] == code[4]);
    reveal_with_fuel(run, 6);
}

/// The block that takes the top word off the stack moves the stack pointer
/// down by one and leaves the word it then points to in `D`.
pub proof fn lemma_pop_d(program: Seq<InstructionView>, symbols: Map<Seq<char>, int>, m: Machine)
    requires
        names_registers(symbols),
        occupies(program, m.pc, pop_d_code()),
        m.ram.len() == 0x10000,
    ensures
        run(program, symbols, m, 3).ram == popped(m.ram),
        run(program, symbols, m, 3).pc == m.pc + 3,
        run(program, symbols, m, 3).d == top(m.ram),
        run(program, symbols, m, 3).a == popped(m.ram)[0],
{
    let code = pop_d_code();
    assert(program[m.pc + 0] == code[0]);
    assert(program[m.pc + 1] == code[1]);
    assert(program[m.pc + 2] == code[2]);
    reveal_with_fuel(run, 4);
}

/// The code of a constant puts the constant on the stack.
pub proof fn lemma_push_constant(
    program: Seq<InstructionView>,
    symbols: Map<Seq<char>, int>,
    m: Machine,
    value: nat,
)
    requires
        names_registers(symbols),
        occupies(program, m.pc, push_constant_code(value)),
        m.ram.len() == 0x10000,
        0 <= m.ram[0] < 0x10000,
    ensures
        run(program, symbols, m, 7).ram == pushed(m.ram, wrap(value as int)),
        run(program, symbols, m, 7).pc == m.pc + 7,
{
    let head = seq![InstructionView::Number(value), InstructionView::set(Dest::D, Comp::A)];
    lemma_occupies_parts(program, m.pc, head, push_d_code());
    assert(program[m.pc + 0] == head[0]);
    assert(program[m.pc + 1] == head[1]);
    let m2 = run(program, symbols, m, 2);
    assert(m2.ram == m.ram && m2.d == wrap(value as int) && m2.pc == m.pc + 2) by {
        reveal_with_fuel(run, 3);
    }
    lemma_push_d(program, symbols, m2);
    lemma_run_split(program, symbols, m, 2, 5);
}

/// The memory after the two top words of the stack have been replaced by
/// `comp`, evaluated with the upper word in `D` and the lower in `M`.
pub open spec fn combined(ram: Seq<int>, comp: Comp) -> Seq<int> {
    let below = popped(popped(ram));
    pushed(below, evaluate(comp, below[0], top(ram), top(popped(ram))))
}

/// The code of a binary operation replaces the two top words of the stack by
/// their combination.
pub proof fn lemma_binary(
    program: Seq<InstructionView>,
    symbols: Map<Seq<char>, int>,
    m: Machine,
    comp: Comp,
)
    requires
        names_registers(symbols),
        occupies(program, m.pc, binary_code(comp)),
        m.ram.len() == 0x10000,
    ensures
        run(program, symbols, m, 11).ram == combined(m.ram, comp),
        run(program, symbols, m, 11).pc == m.pc + 11,
{
    let middle = seq![
        InstructionView::at("SP"@),
        InstructionView::set(Dest::AM, Comp::MMinusOne),
        InstructionView::set(Dest::D, comp),
    ];
    lemma_occupies_parts(program, m.pc, pop_d_code() + middle, push_d_code());
    lemma_occupies_parts(program, m.pc, pop_d_code(), middle);
    lemma_pop_d(program, symbols, m);
    let m3 = run(program, symbols, m, 3);
    assert(program[m3.pc + 0] == middle[0]);
    assert(program[m3.pc + 1] == middle[1]);
    assert(program[m3.pc + 2] == middle[2]);
    let m6 = run(program, symbols, m3, 3);
    let below = popped(popped(m.ram));
    assert(m6.ram == below && m6.pc == m.pc + 6 && m6.d == evaluate(
        comp,
        below[0],
        top(m.ram),
        top(popped(m.ram)),
    )) by {
        reveal_with_fuel(run, 4);
    }
    lemma_push_d(program, symbols, m6);
    lemma_run_split(program, symbols, m, 3, 3);
    lemma_run_split(program, symbols, m, 6, 5);
}

/// The memory after the top word of the stack has been replaced by `comp`,
/// evaluated with that word in `D`.
pub open spec fn replaced(ram: Seq<int>, comp: Comp) -> Seq<int> {
    let below = popped(ram);
    pushed(below, evaluate(comp, below[0], top(ram), top(ram)))
}

/// The code of a unary operation replaces the top word of the stack.
pub proof fn lemma_unary(
    program: Seq<InstructionView>,
    symbols: Map<Seq<char>, int>,
    m: Machine,
    comp: Comp,
)
    requires
        names_registers(symbols),
        occupies(program, m.pc, unary_code(comp)),
        m.ram.len() == 0x10000,
    ensures
        run(program, symbols, m, 9).ram == replaced(m.ram, comp),
        run(program, symbols, m, 9).pc == m.pc + 9,
{
    let middle = seq![InstructionView::set(Dest::D, comp)];
    lemma_occupies_parts(program, m.pc, pop_d_code() + middle, push_d_code());
    lemma_occupies_parts(program, m.pc, pop_d_code(), middle);
    lemma_pop_d(program, symbols, m);
    let m3 = run(program, symbols, m, 3);
    assert(program[m3.pc + 0] == middle[0]);
    let m4 = run(program, symbols, m3, 1);
    let below = popped(m.ram);
    assert(m4.ram == below && m4.pc == m.pc + 4 && m4.d == evaluate(
        comp,
        below[0],
        top(m.ram),
        top(m.ram),
    )) by {
        reveal_with_fuel(run, 2);
    }
    lemma_push_d(program, symbols, m4);
    lemma_run_split(program, symbols, m, 3, 1);
    lemma_run_split(program, symbols, m, 4, 5);
}

/// The word that a comparison leaves: all ones where the condition `jump`
/// holds of the lower word less the upper, zero where it does not.
pub open spec fn verdict(ram: Seq<int>, jump: Jump) -> int {
    if jumps(jump, wrap(top(popped(ram)) - top(ram))) {
        0xFFFF
    } else {
        0
    }
}

/// The number of steps a comparison takes.
pub open spec fn comparison_steps(ram: Seq<int>, jump: Jump) -> nat {
    if jumps(jump, wrap(top(popped(ram)) - top(ram))) {
        17
    } else {
        18
    }
}

/// The code of a comparison replaces the two top words of the stack by its
/// verdict on them, whichever way it branches.
pub proof fn lemma_comparison(
    program: Seq<InstructionView>,
    symbols: Map<Seq<char>, int>,
    m: Machine,
    file: Seq<char>,
    line: nat,
    jump: Jump,
)
    requires
        names_registers(symbols),
        resolves_labels(program, symbols),
        occupies(program, m.pc, comparison_code(file, line, jump)),
        m.ram.len() == 0x10000,
    ensures
        run(program, symbols, m, comparison_steps(m.ram, jump)).ram == pushed(
            popped(popped(m.ram)),
            verdict(m.ram, jump),
        ),
        run(program, symbols, m, comparison_steps(m.ram, jump)).pc == m.pc + 21,
{
    let middle = seq![
        InstructionView::at("SP"@),
        InstructionView::set(Dest::AM, Comp::MMinusOne),
        InstructionView::set(Dest::D, Comp::MMinusD),
        InstructionView::at(true_label(file, line)),
        InstructionView::branch(Comp::D, jump),
        InstructionView::Number(0),
        InstructionView::set(Dest::D, Comp::A),
        InstructionView::at(end_label(file, line)),
        InstructionView::branch(Comp::Zero, Jump::Always),
        InstructionView::Label(true_label(file, line)),
        InstructionView::Number(1),
        InstructionView::set(Dest::D, Comp::NegA),
        InstructionView::Label(end_label(file, line)),
    ];
    lemma_occupies_parts(program, m.pc, pop_d_code() + middle, push_d_code());
    lemma_occupies_parts(program, m.pc, pop_d_code(), middle);
    lemma_pop_d(program, symbols, m);
    let m3 = run(program, symbols, m, 3);
    let at = m.pc + 3;
    assert(program[at + 0] == middle[0]);
    assert(program[at + 1] == middle[1]);
    assert(program[at + 2] == middle[2]);
    assert(program[at + 3] == middle[3]);
    assert(program[at + 4] == middle[4]);
    assert(program[at + 5] == middle[5]);
    assert(program[at + 6] == middle[6]);
    assert(program[at + 7] == middle[7]);
    assert(program[at + 8] == middle[8]);
    assert(program[at + 9] == middle[9]);
    assert(program[at + 10] == middle[10]);
    assert(program[at + 11] == middle[11]);
    assert(program[at + 12] == middle[12]);
    assert(symbols[true_label(file, line)] == at + 9);
    assert(symbols[end_label(file, line)] == at + 12);
    let below = popped(popped(m.ram));
    let difference = wrap(top(popped(m.ram)) - top(m.ram));
    let m8 = run(program, symbols, m3, 5);
    assert(m8.ram == below && m8.d == difference && m8.pc == (if jumps(jump, difference) {
        at + 9
    } else {
        at + 5
    })) by {
        reveal_with_fuel(run, 6);
    }
    lemma_run_split(program, symbols, m, 3, 5);
    if jumps(jump, difference) {
        let m12 = run(program, symbols, m8, 4);
        assert(m12.ram == below && m12.d == 0xFFFF && m12.pc == at + 13) by {
            reveal_with_fuel(run, 5);
        }
        lemma_push_d(program, symbols, m12);
        lemma_run_split(program, symbols, m, 8, 4);
        lemma_run_split(program, symbols, m, 12, 5);
    } else {
        let m13 = run(program, symbols, m8, 5);
        assert(m13.ram == below && m13.d == 0 && m13.pc == at + 13) by {
            reveal_with_fuel(run, 6);
        }
        lemma_push_d(program, symbols, m13);
        lemma_run_split(program, symbols, m, 8, 5);
        lemma_run_split(program, symbols, m, 13, 5);
    }
}

/// The address of word `index` of the segment whose base lies at the address
/// `register`.
pub open spec fn slot(ram: Seq<int>, register: int, index: nat) -> int {
    wrap(ram[register] + wrap(index as int))
}

/// The code that pushes from a dynamic segment puts the word of the slot on
/// the stack.
pub proof fn lemma_push_from_segment(
    program: Seq<InstructionView>,
    symbols: Map<Seq<char>, int>,
    m: Machine,
    base: Seq<char>,
    index: nat,
)
    requires
        names_registers(symbols),
        occupies(program, m.pc, push_from_segment_code(base, index)),
        m.ram.len() == 0x10000,
        0 <= m.ram[0] < 0x10000,
        0 <= symbols[base] < 0x10000,
    ensures
        run(program, symbols, m, 10).ram == pushed(m.ram, m.ram[slot(m.ram, symbols[base], index)]),
        run(program, symbols, m, 10).pc == m.pc + 10,
{
    let head = seq![
        InstructionView::Number(index),
        InstructionView::set(Dest::D, Comp::A),
        InstructionView::at(base),
        InstructionView::set(Dest::A, Comp::DPlusM),
        InstructionView::set(Dest::D, Comp::M),
    ];
    lemma_occupies_parts(program, m.pc, head, push_d_code());
    assert(program[m.pc + 0] == head[0]);
    assert(program[m.pc + 1] == head[1]);
    assert(program[m.pc + 2] == head[2]);
    assert(program[m.pc + 3] == head[3]);
    assert(program[m.pc + 4] == head[4]);
    let m5 = run(program, symbols, m, 5);
    assert(m5.ram == m.ram && m5.pc == m.pc + 5 && m5.d == m.ram[slot(
        m.ram,
        symbols[base],
        index,
    )]) by {
        reveal_with_fuel(run, 6);
    }
    lemma_push_d(program, symbols, m5);
    lemma_run_split(program, symbols, m, 5, 5);
}

/// The code that pops to a dynamic segment takes the top word off the stack
/// into the slot.
pub proof fn lemma_pop_to_segment(
    program: Seq<InstructionView>,
    symbols: Map<Seq<char>, int>,
    m: Machine,
    base: Seq<char>,
    index: nat,
)
    requires
        names_registers(symbols),
        occupies(program, m.pc, pop_to_segment_code(base, index)),
        m.ram.len() == 0x10000,
        0 <= symbols[base] < 0x10000,
        0 <= top(m.ram) < 0x10000,
    ensures
        run(program, symbols, m, 9).ram == popped(m.ram).update(
            slot(m.ram, symbols[base], index),
            top(m.ram),
        ),
        run(program, symbols, m, 9).pc == m.pc + 9,
{
    let code = pop_to_segment_code(base, index);
    assert(program[m.pc + 0] == code[0]);
    assert(program[m.pc + 1] == code[1]);
    assert(program[m.pc + 2] == code[2]);
    assert(program[m.pc + 3] == code[3]);
    assert(program[m.pc + 4] == code[4]);
    assert(program[m.pc + 5] == code[5]);
    assert(program[m.pc + 6] == code[6]);
    assert(program[m.pc + 7] == code[7]);
    assert(program[m.pc + 8] == code[8]);
    let target = slot(m.ram, symbols[base], index);
    let value = top(m.ram);
    let m6 = run(program, symbols, m, 6);
    assert(m6.ram == popped(m.ram) && m6.pc == m.pc + 6 && m6.d == target && m6.a == popped(
        m.ram,
    )[0]) by {
        reveal_with_fuel(run, 7);
    }
    let m9 = run(program, symbols, m6, 3);
    assert(wrap(wrap(target + value) - value) == target);
    assert(wrap(wrap(target + value) - target) == value);
    assert(m9.ram == popped(m.ram).update(target, value) && m9.pc == m.pc + 9) by {
        reveal_with_fuel(run, 4);
    }
    lemma_run_split(program, symbols, m, 6, 3);
}

/// The code that pushes a register puts the word at its address on the
/// stack.
pub proof fn lemma_push_symbol(
    program: Seq<InstructionView>,
    symbols: Map<Seq<char>, int>,
    m: Machine,
    symbol: Seq<char>,
)
    requires
        names_registers(symbols),
        occupies(program, m.pc, push_symbol_code(symbol)),
        m.ram.len() == 0x10000,
        0 <= m.ram[0] < 0x10000,
    ensures
        run(program, symbols, m, 7).ram == pushed(m.ram, m.ram[symbols[symbol]]),
        run(program, symbols, m, 7).pc == m.pc + 7,
{
    let head = seq![InstructionView::at(symbol), InstructionView::set(Dest::D, Comp::M)];
    lemma_occupies_parts(program, m.pc, head, push_d_code());
    assert(program[m.pc + 0] == head[0]);
    assert(program[m.pc + 1] == head[1]);
    let m2 = run(program, symbols, m, 2);
    assert(m2.ram == m.ram && m2.d == m.ram[symbols[symbol]] && m2.pc == m.pc + 2) by {
        reveal_with_fuel(run, 3);
    }
    lemma_push_d(program, symbols, m2);
    lemma_run_split(program, symbols, m, 2, 5);
}

/// The memory after a frame has been put on the stack: the address `resume`
/// and the words at the addresses 1 to 4, each as it is when its turn comes.
pub open spec fn saved(ram: Seq<int>, resume: int) -> Seq<int> {
    let with_resume = pushed(ram, resume);
    let with_lcl = pushed(with_resume, with_resume[1]);
    let with_arg = pushed(with_lcl, with_lcl[2]);
    let with_this = pushed(with_arg, with_arg[3]);
    pushed(with_this, with_this[4])
}

/// The code that saves a frame puts the return address and the four
/// registers on the stack.
pub proof fn lemma_save_frame(
    program: Seq<InstructionView>,
    symbols: Map<Seq<char>, int>,
    m: Machine,
    resume: Seq<char>,
)
    requires
        names_registers(symbols),
        occupies(program, m.pc, save_frame_code(resume)),
        m.ram.len() == 0x10000,
        0 <= m.ram[0] < 0x10000,
    ensures
        run(program, symbols, m, 35).ram == saved(m.ram, symbols[resume]),
        run(program, symbols, m, 35).pc == m.pc + 35,
{
    let head = seq![InstructionView::at(resume), InstructionView::set(Dest::D, Comp::A)];
    let to_resume = head + push_d_code();
    let to_lcl = to_resume + push_symbol_code("LCL"@);
    let to_arg = to_lcl + push_symbol_code("ARG"@);
    let to_this = to_arg + push_symbol_code("THIS"@);
    lemma_occupies_parts(program, m.pc, to_this, push_symbol_code("THAT"@));
    lemma_occupies_parts(program, m.pc, to_arg, push_symbol_code("THIS"@));
    lemma_occupies_parts(program, m.pc, to_lcl, push_symbol_code("ARG"@));
    lemma_occupies_parts(program, m.pc, to_resume, push_symbol_code("LCL"@));
    lemma_occupies_parts(program, m.pc, head, push_d_code());
    assert(program[m.pc + 0] == head[0]);
    assert(program[m.pc + 1] == head[1]);
    let m2 = run(program, symbols, m, 2);
    assert(m2.ram == m.ram && m2.d == symbols[resume] && m2.pc == m.pc + 2) by {
        reveal_with_fuel(run, 3);
    }
    lemma_push_d(program, symbols, m2);
    lemma_run_split(program, symbols, m, 2, 5);
    let m7 = run(program, symbols, m, 7);
    lemma_push_symbol(program, symbols, m7, "LCL"@);
    lemma_run_split(program, symbols, m, 7, 7);
    let m14 = run(program, symbols, m, 14);
    lemma_push_symbol(program, symbols, m14, "ARG"@);
    lemma_run_split(program, symbols, m, 14, 7);
    let m21 = run(program, symbols, m, 21);
    lemma_push_symbol(program, symbols, m21, "THIS"@);
    lemma_run_split(program, symbols, m, 21, 7);
    let m28 = run(program, symbols, m, 28);
    lemma_push_symbol(program, symbols, m28, "THAT"@);
    lemma_run_split(program, symbols, m, 28, 7);
}

/// The memory after the registers of a function called with `nargs`
/// arguments have been set: the argument pointer to the first argument, which
/// lies `nargs` words below the frame, and the local pointer to the top of
/// the stack.
pub open spec fn repositioned(ram: Seq<int>, nargs: nat) -> Seq<int> {
    let with_arg = ram.update(2, wrap(ram[0] - wrap(nargs as int + 5)));
    with_arg.update(1, with_arg[0])
}

/// The code that repositions the registers sets the argument pointer and the
/// local pointer.
pub proof fn lemma_reposition(
    program: Seq<InstructionView>,
    symbols: Map<Seq<char>, int>,
    m: Machine,
    nargs: nat,
)
    requires
        names_registers(symbols),
        occupies(program, m.pc, reposition_code(nargs)),
        m.ram.len() == 0x10000,
    ensures
        run(program, symbols, m, 10).ram == repositioned(m.ram, nargs),
        run(program, symbols, m, 10).pc == m.pc + 10,
{
    let code = reposition_code(nargs);
    assert(program[m.pc + 0] == code[0]);
    assert(program[m.pc + 1] == code[1]);
    assert(program[m.pc + 2] == code[2]);
    assert(program[m.pc + 3] == code[3]);
    assert(program[m.pc + 4] == code[4]);
    assert(program[m.pc + 5] == code[5]);
    assert(program[m.pc + 6] == code[6]);
    assert(program[m.pc + 7] == code[7]);
    assert(program[m.pc + 8] == code[8]);
    assert(program[m.pc + 9] == code[9]);
    reveal_with_fuel(run, 11);
}

/// The code of a call saves a frame, sets the registers of the callee, and
/// goes on at the address of the callee.
pub proof fn lemma_call(
    program: Seq<InstructionView>,
    symbols: Map<Seq<char>, int>,
    m: Machine,
    resume: Seq<char>,
    name: Seq<char>,
    nargs: nat,
)
    requires
        names_registers(symbols),
        occupies(program, m.pc, call_code(resume, name, nargs)),
        m.ram.len() == 0x10000,
        0 <= m.ram[0] < 0x10000,
    ensures
        run(program, symbols, m, 47).ram == repositioned(saved(m.ram, symbols[resume]), nargs),
        run(program, symbols, m, 47).pc == symbols[name],
        program[m.pc + 47] == InstructionView::Label(resume),
{
    let save = save_frame_code(resume);
    let set = reposition_code(nargs);
    let go = transfer_code(resume, name);
    lemma_occupies_parts(program, m.pc, save + set, go);
    lemma_occupies_parts(program, m.pc, save, set);
    lemma_save_frame(program, symbols, m, resume);
    let m35 = run(program, symbols, m, 35);
    lemma_reposition(program, symbols, m35, nargs);
    lemma_run_split(program, symbols, m, 35, 10);
    let m45 = run(program, symbols, m, 45);
    assert(program[m45.pc + 0] == go[0]);
    assert(program[m45.pc + 1] == go[1]);
    assert(program[m45.pc + 2] == go[2]);
    let m47 = run(program, symbols, m45, 2);
    assert(m47.ram == m45.ram && m47.pc == symbols[name]) by {
        reveal_with_fuel(run, 3);
    }
    lemma_run_split(program, symbols, m, 45, 2);
}

/// The memory after `count` zeros have been put on the stack.
pub open spec fn zeroed(ram: Seq<int>, count: nat) -> Seq<int>
    decreases count,
{
    if count == 0 {
        ram
    } else {
        pushed(zeroed(ram, (count - 1) as nat), 0)
    }
}

/// Putting zeros on the stack keeps the memory's size and the stack pointer
/// a word.
pub proof fn lemma_zeroed_shape(ram: Seq<int>, count: nat)
    requires
        ram.len() == 0x10000,
        0 <= ram[0] < 0x10000,
    ensures
        zeroed(ram, count).len() == 0x10000,
        0 <= zeroed(ram, count)[0] < 0x10000,
    decreases count,
{
    if count > 0 {
        lemma_zeroed_shape(ram, (count - 1) as nat);
    }
}

/// Putting `count` zeros on a stack that has room for them moves the stack
/// pointer up by `count`, fills the words it passes with zeros and changes
/// no other.
pub proof fn lemma_zeroed_words(ram: Seq<int>, count: nat)
    requires
        ram.len() == 0x10000,
        0 < ram[0],
        ram[0] + count < 0x10000,
    ensures
        zeroed(ram, count).len() == 0x10000,
        zeroed(ram, count)[0] == ram[0] + count,
        forall|i: int| ram[0] <= i < ram[0] + count ==> zeroed(ram, count)[i] == 0,
        forall|i: int|
            0 < i < 0x10000 && !(ram[0] <= i < ram[0] + count) ==> zeroed(ram, count)[i] == ram[i],
    decreases count,
{
    if count > 0 {
        lemma_zeroed_words(ram, (count - 1) as nat);
    }
}

/// The code that makes room for `count` local words puts as many zeros on
/// the stack.
pub proof fn lemma_zero_locals(
    program: Seq<InstructionView>,
    symbols: Map<Seq<char>, int>,
    m: Machine,
    count: nat,
)
    requires
        names_registers(symbols),
        occupies(program, m.pc, zero_locals_code(count)),
        m.ram.len() == 0x10000,
        0 <= m.ram[0] < 0x10000,
    ensures
        run(program, symbols, m, 7 * count).ram == zeroed(m.ram, count),
        run(program, symbols, m, 7 * count).pc == m.pc + 7 * count,
        zero_locals_code(count).len() == 7 * count,
    decreases count,
{
    if count > 0 {
        let before = zero_locals_code((count - 1) as nat);
        lemma_occupies_parts(program, m.pc, before, push_constant_code(0));
        lemma_zero_locals(program, symbols, m, (count - 1) as nat);
        lemma_zeroed_shape(m.ram, (count - 1) as nat);
        let reached = run(program, symbols, m, (7 * (count - 1)) as nat);
        lemma_push_constant(program, symbols, reached, 0);
        lemma_run_split(program, symbols, m, (7 * (count - 1)) as nat, 7);
        assert(7 * (count - 1) + 7 == 7 * count);
    } else {
        assert(run(program, symbols, m, 0) == m);
    }
}

/// The code of a function's entry puts a zero on the stack for each of its
/// local words.
pub proof fn lemma_function(
    program: Seq<InstructionView>,
    symbols: Map<Seq<char>, int>,
    m: Machine,
    name: Seq<char>,
    nvars: nat,
)
    requires
        names_registers(symbols),
        occupies(program, m.pc, function_code(name, nvars)),
        m.ram.len() == 0x10000,
        0 <= m.ram[0] < 0x10000,
    ensures
        run(program, symbols, m, 1 + 7 * nvars).ram == zeroed(m.ram, nvars),
        run(program, symbols, m, 1 + 7 * nvars).pc == m.pc + 1 + 7 * nvars,
        function_code(name, nvars).len() == 1 + 7 * nvars,
{
    let head = seq![InstructionView::Label(name)];
    lemma_occupies_parts(program, m.pc, head, zero_locals_code(nvars));
    assert(program[m.pc + 0] == head[0]);
    let m1 = run(program, symbols, m, 1);
    assert(m1.ram == m.ram && m1.pc == m.pc + 1) by {
        reveal_with_fuel(run, 2);
    }
    lemma_zero_locals(program, symbols, m1, nvars);
    lemma_run_split(program, symbols, m, 1, 7 * nvars);
}

/// The memory after the frame's base and the return address have been kept
/// in the variables at the addresses `frame` and `retaddr`.
pub open spec fn captured(ram: Seq<int>, frame: int, retaddr: int) -> Seq<int> {
    let with_frame = ram.update(frame, ram[1]);
    with_frame.update(retaddr, with_frame[wrap(with_frame[frame] - 5)])
}

/// The code that captures the frame keeps its base and the return address.
pub proof fn lemma_capture(program: Seq<InstructionView>, symbols: Map<Seq<char>, int>, m: Machine)
    requires
        names_registers(symbols),
        occupies(program, m.pc, capture_code()),
        m.ram.len() == 0x10000,
        0 <= symbols["frame"@] < 0x10000,
        0 <= symbols["retaddr"@] < 0x10000,
    ensures
        run(program, symbols, m, 11).ram == captured(m.ram, symbols["frame"@], symbols["retaddr"@]),
        run(program, symbols, m, 11).pc == m.pc + 11,
{
    let code = capture_code();
    assert(program[m.pc + 0] == code[0]);
    assert(program[m.pc + 1] == code[1]);
    assert(program[m.pc + 2] == code[2]);
    assert(program[m.pc + 3] == code[3]);
    assert(program[m.pc + 4] == code[4]);
    assert(program[m.pc + 5] == code[5]);
    assert(program[m.pc + 6] == code[6]);
    assert(program[m.pc + 7] == code[7]);
    assert(program[m.pc + 8] == code[8]);
    assert(program[m.pc + 9] == code[9]);
    assert(program[m.pc + 10] == code[10]);
    reveal_with_fuel(run, 12);
}

/// The memory after the top word of the stack has been handed to the caller:
/// it lies where the argument pointer points, and the stack pointer points
/// to the word above it.
pub open spec fn delivered(ram: Seq<int>) -> Seq<int> {
    let below = popped(ram);
    let with_result = below.update(below[2], top(ram));
    with_result.update(0, wrap(with_result[2] + 1))
}

/// The code that delivers the result moves the top word of the stack to the
/// place of the first argument.
pub proof fn lemma_deliver(program: Seq<InstructionView>, symbols: Map<Seq<char>, int>, m: Machine)
    requires
        names_registers(symbols),
        occupies(program, m.pc, deliver_code()),
        m.ram.len() == 0x10000,
        0 <= popped(m.ram)[2] < 0x10000,
    ensures
        run(program, symbols, m, 10).ram == delivered(m.ram),
        run(program, symbols, m, 10).pc == m.pc + 10,
{
    let tail = seq![
        InstructionView::at("ARG"@),
        InstructionView::set(Dest::A, Comp::M),
        InstructionView::set(Dest::M, Comp::D),
        InstructionView::at("ARG"@),
        InstructionView::set(Dest::D, Comp::MPlusOne),
        InstructionView::at("SP"@),
        InstructionView::set(Dest::M, Comp::D),
    ];
    lemma_occupies_parts(program, m.pc, pop_d_code(), tail);
    lemma_pop_d(program, symbols, m);
    let m3 = run(program, symbols, m, 3);
    assert(program[m3.pc + 0] == tail[0]);
    assert(program[m3.pc + 1] == tail[1]);
    assert(program[m3.pc + 2] == tail[2]);
    assert(program[m3.pc + 3] == tail[3]);
    assert(program[m3.pc + 4] == tail[4]);
    assert(program[m3.pc + 5] == tail[5]);
    assert(program[m3.pc + 6] == tail[6]);
    let m10 = run(program, symbols, m3, 7);
    assert(m10.ram == delivered(m.ram) && m10.pc == m.pc + 10) by {
        reveal_with_fuel(run, 8);
    }
    lemma_run_split(program, symbols, m, 3, 7);
}

/// The memory after the register at `register` has been restored from the
/// word below the one that the variable at `frame` points to.
pub open spec fn restored(ram: Seq<int>, frame: int, register: int) -> Seq<int> {
    let stepped = ram.update(frame, wrap(ram[frame] - 1));
    stepped.update(register, stepped[stepped[frame]])
}

/// The code that restores a register reads it back from the frame.
pub proof fn lemma_restore(
    program: Seq<InstructionView>,
    symbols: Map<Seq<char>, int>,
    m: Machine,
    symbol: Seq<char>,
)
    requires
        names_registers(symbols),
        occupies(program, m.pc, restore_code(symbol)),
        m.ram.len() == 0x10000,
        0 <= symbols["frame"@] < 0x10000,
        0 <= symbols[symbol] < 0x10000,
    ensures
        run(program, symbols, m, 5).ram == restored(m.ram, symbols["frame"@], symbols[symbol]),
        run(program, symbols, m, 5).pc == m.pc + 5,
{
    let code = restore_code(symbol);
    assert(program[m.pc + 0] == code[0]);
    assert(program[m.pc + 1] == code[1]);
    assert(program[m.pc + 2] == code[2]);
    assert(program[m.pc + 3] == code[3]);
    assert(program[m.pc + 4] == code[4]);
    reveal_with_fuel(run, 6);
}

/// The memory after a return.
pub open spec fn returned(ram: Seq<int>, frame: int, retaddr: int) -> Seq<int> {
    let with_result = delivered(captured(ram, frame, retaddr));
    let with_that = restored(with_result, frame, 4);
    let with_this = restored(with_that, frame, 3);
    let with_arg = restored(with_this, frame, 2);
    restored(with_arg, frame, 1)
}

/// The code of a return hands over the result, restores the four registers
/// and goes on at the return address that it has kept.
pub proof fn lemma_return(program: Seq<InstructionView>, symbols: Map<Seq<char>, int>, m: Machine)
    requires
        names_registers(symbols),
        occupies(program, m.pc, return_code()),
        m.ram.len() == 0x10000,
        0 <= symbols["frame"@] < 0x10000,
        0 <= symbols["retaddr"@] < 0x10000,
        0 <= popped(captured(m.ram, symbols["frame"@], symbols["retaddr"@]))[2] < 0x10000,
    ensures
        run(program, symbols, m, 44).ram == returned(m.ram, symbols["frame"@], symbols["retaddr"@]),
        run(program, symbols, m, 44).pc == returned(
            m.ram,
            symbols["frame"@],
            symbols["retaddr"@],
        )[symbols["retaddr"@]],
{
    let to_capture = capture_code();
    let to_deliver = to_capture + deliver_code();
    let to_that = to_deliver + restore_code("THAT"@);
    let to_this = to_that + restore_code("THIS"@);
    let to_arg = to_this + restore_code("ARG"@);
    let to_lcl = to_arg + restore_code("LCL"@);
    lemma_occupies_parts(program, m.pc, to_lcl, resume_code());
    lemma_occupies_parts(program, m.pc, to_arg, restore_code("LCL"@));
    lemma_occupies_parts(program, m.pc, to_this, restore_code("ARG"@));
    lemma_occupies_parts(program, m.pc, to_that, restore_code("THIS"@));
    lemma_occupies_parts(program, m.pc, to_deliver, restore_code("THAT"@));
    lemma_occupies_parts(program, m.pc, to_capture, deliver_code());
    lemma_capture(program, symbols, m);
    let m11 = run(program, symbols, m, 11);
    lemma_deliver(program, symbols, m11);
    lemma_run_split(program, symbols, m, 11, 10);
    let m21 = run(program, symbols, m, 21);
    lemma_restore(program, symbols, m21, "THAT"@);
    lemma_run_split(program, symbols, m, 21, 5);
    let m26 = run(program, symbols, m, 26);
    lemma_restore(program, symbols, m26, "THIS"@);
    lemma_run_split(program, symbols, m, 26, 5);
    let m31 = run(program, symbols, m, 31);
    lemma_restore(program, symbols, m31, "ARG"@);
    lemma_run_split(program, symbols, m, 31, 5);
    let m36 = run(program, symbols, m, 36);
    lemma_restore(program, symbols, m36, "LCL"@);
    lemma_run_split(program, symbols, m, 36, 5);
    let m41 = run(program, symbols, m, 41);
    let tail = resume_code();
    assert(program[m41.pc + 0] == tail[0]);
    assert(program[m41.pc + 1] == tail[1]);
    assert(program[m41.pc + 2] == tail[2]);
    let m44 = run(program, symbols, m41, 3);
    assert(m44.ram == m41.ram && m44.pc == m41.ram[symbols["retaddr"@]]) by {
        reveal_with_fuel(run, 4);
    }
    lemma_run_split(program, symbols, m, 41, 3);
}

/// The memory after the prologue has set the five registers.
pub open spec fn initialized(ram: Seq<int>) -> Seq<int> {
    ram.update(0, 256).update(1, 0xFFFF).update(2, 0xFFFE).update(3, 0xFFFD).update(4, 0xFFFC)
}

/// The prologue sets the five registers and calls the entry function
/// without arguments.
pub proof fn lemma_bootstrap(program: Seq<InstructionView>, symbols: Map<Seq<char>, int>, m: Machine)
    requires
        names_registers(symbols),
        occupies(program, m.pc, bootstrap_code()),
        m.ram.len() == 0x10000,
    ensures
        run(program, symbols, m, 65).ram == repositioned(
            saved(initialized(m.ram), symbols[return_label("Bootstrap"@, 0)]),
            0,
        ),
        run(program, symbols, m, 65).pc == symbols[entry_name()],
{
    let head = seq![
        InstructionView::Number(256),
        InstructionView::set(Dest::D, Comp::A),
        InstructionView::at("SP"@),
        InstructionView::set(Dest::M, Comp::D),
        InstructionView::at("LCL"@),
        InstructionView::set(Dest::M, Comp::MinusOne),
        InstructionView::Number(2),
        InstructionView::set(Dest::D, Comp::NegA),
        InstructionView::at("ARG"@),
        InstructionView::set(Dest::M, Comp::D),
        InstructionView::Number(3),
        InstructionView::set(Dest::D, Comp::NegA),
        InstructionView::at("THIS"@),
        InstructionView::set(Dest::M, Comp::D),
        InstructionView::Number(4),
        InstructionView::set(Dest::D, Comp::NegA),
        InstructionView::at("THAT"@),
        InstructionView::set(Dest::M, Comp::D),
    ];
    let resume = return_label("Bootstrap"@, 0);
    lemma_occupies_parts(program, m.pc, head, call_code(resume, entry_name(), 0));
    assert(program[m.pc + 0] == head[0]);
    assert(program[m.pc + 1] == head[1]);
    assert(program[m.pc + 2] == head[2]);
    assert(program[m.pc + 3] == head[3]);
    assert(program[m.pc + 4] == head[4]);
    assert(program[m.pc + 5] == head[5]);
    assert(program[m.pc + 6] == head[6]);
    assert(program[m.pc + 7] == head[7]);
    assert(program[m.pc + 8] == head[8]);
    assert(program[m.pc + 9] == head[9]);
    assert(program[m.pc + 10] == head[10]);
    assert(program[m.pc + 11] == head[11]);
    assert(program[m.pc + 12] == head[12]);
    assert(program[m.pc + 13] == head[13]);
    assert(program[m.pc + 14] == head[14]);
    assert(program[m.pc + 15] == head[15]);
    assert(program[m.pc + 16] == head[16]);
    assert(program[m.pc + 17] == head[17]);
    assert(wrap(-2) == 0xFFFE && wrap(-3) == 0xFFFD && wrap(-4) == 0xFFFC);
    let m6 = run(program, symbols, m, 6);
    assert(m6.ram == m.ram.update(0, 256).update(1, 0xFFFF) && m6.pc == m.pc + 6) by {
        reveal_with_fuel(run, 7);
    }
    let m10 = run(program, symbols, m6, 4);
    assert(m10.ram == m6.ram.update(2, 0xFFFE) && m10.pc == m.pc + 10) by {
        reveal_with_fuel(run, 5);
    }
    let m14 = run(program, symbols, m10, 4);
    assert(m14.ram == m10.ram.update(3, 0xFFFD) && m14.pc == m.pc + 14) by {
        reveal_with_fuel(run, 5);
    }
    let m18 = run(program, symbols, m14, 4);
    assert(m18.ram == initialized(m.ram) && m18.pc == m.pc + 18) by {
        reveal_with_fuel(run, 5);
    }
    lemma_run_split(program, symbols, m, 6, 4);
    lemma_run_split(program, symbols, m, 10, 4);
    lemma_run_split(program, symbols, m, 14, 4);
    lemma_call(program, symbols, m18, resume, entry_name(), 0);
    lemma_run_split(program, symbols, m, 18, 47);
}

/// The code of a jump goes on at the address of its target.
pub proof fn lemma_goto(
    program: Seq<InstructionView>,
    symbols: Map<Seq<char>, int>,
    m: Machine,
    symbol: Seq<char>,
)
    requires
        occupies(program, m.pc, goto_code(symbol)),
    ensures
        run(program, symbols, m, 2).ram == m.ram,
        run(program, symbols, m, 2).pc == symbols[symbol],
{
    let code = goto_code(symbol);
    assert(program[m.pc + 0] == code[0]);
    assert(program[m.pc + 1] == code[1]);
    reveal_with_fuel(run, 3);
}

/// The code of a conditional jump takes the top word off the stack and goes
/// on at the address of its target unless the word is zero.
pub proof fn lemma_if_goto(
    program: Seq<InstructionView>,
    symbols: Map<Seq<char>, int>,
    m: Machine,
    symbol: Seq<char>,
)
    requires
        names_registers(symbols),
        occupies(program, m.pc, if_goto_code(symbol)),
        m.ram.len() == 0x10000,
    ensures
        run(program, symbols, m, 5).ram == popped(m.ram),
        run(program, symbols, m, 5).pc == if top(m.ram) != 0 {
            symbols[symbol]
        } else {
            m.pc + 5
        },
{
    let tail = seq![InstructionView::at(symbol), InstructionView::branch(Comp::D, Jump::NotEqual)];
    lemma_occupies_parts(program, m.pc, pop_d_code(), tail);
    lemma_pop_d(program, symbols, m);
    let m3 = run(program, symbols, m, 3);
    assert(program[m3.pc + 0] == tail[0]);
    assert(program[m3.pc + 1] == tail[1]);
    let m5 = run(program, symbols, m3, 2);
    assert(m5.ram == m3.ram && m5.pc == (if m3.d != 0 {
        symbols[symbol]
    } else {
        m.pc + 5
    })) by {
        reveal_with_fuel(run, 3);
    }
    lemma_run_split(program, symbols, m, 3, 2);
}

} // verus!
