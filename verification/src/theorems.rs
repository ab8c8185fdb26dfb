//! What translated code does when the target machine runs it.

use vstd::prelude::*;
use crate::codegen::{
    add_code, and_code, base_symbol, bootstrap_code, call_code, code_upto, command_offset,
    comparison_code, declares_entry, end_label, entry_code, entry_name, entry_text, function_code,
    goto_code, if_goto_code, is_dynamic, is_translation, neg_code, not_code, or_code, pop_code,
    program_code, prologue_code, push_code, push_constant_code, return_code, return_label,
    static_symbol, sub_code, true_label,
};
use crate::effects::{
    comparison_steps, lemma_binary, lemma_bootstrap, lemma_call, lemma_comparison, lemma_function,
    lemma_goto, lemma_if_goto, lemma_pop_to_segment, lemma_push_constant,
    lemma_push_from_segment, lemma_return, lemma_unary, lemma_zeroed_words, slot,
};
use crate::hack::{listing, Comp, InstructionView, Jump};
use crate::machine::{
    lemma_apply_well_formed, lemma_occupies_parts, lemma_run_split, names_registers, names_words,
    occupies, resolves_labels, run, signed, step, word_and, word_or, wrap, Machine,
};
use crate::text::{decimal, lemma_common_end, lemma_common_start, lemma_numbered_injective};
use crate::vm::{Segment, SourceCommandView};

verus! {

/// `add` replaces the two top words of the stack by their sum, and `sub` by
/// the lower word less the upper: the stack pointer moves down by one, the
/// result lies where the lower word lay, and no other word of the memory
/// changes but the one the upper word lay in.
pub proof fn theorem_add_sub(
    program: Seq<InstructionView>,
    symbols: Map<Seq<char>, int>,
    m: Machine,
    subtract: bool,
)
    requires
        names_registers(symbols),
        m.ram.len() == 0x10000,
        2 < m.sp() < 0x10000,
        occupies(program, m.pc, if subtract { sub_code() } else { add_code() }),
    ensures
        ({
            let after = run(program, symbols, m, 11);
            let lower = m.ram[m.sp() - 2];
            let upper = m.ram[m.sp() - 1];
            &&& after.pc == m.pc + 11
            &&& after.sp() == m.sp() - 1
            &&& after.ram[m.sp() - 2] == if subtract { wrap(lower - upper) } else { wrap(lower + upper) }
            &&& forall|i: int|
                0 < i < 0x10000 && i != m.sp() - 2 && i != m.sp() - 1 ==> after.ram[i] == m.ram[i]
        }),
{
    lemma_binary(program, symbols, m, if subtract { Comp::MMinusD } else { Comp::DPlusM });
}

/// Pushing the constants `a` and `b` and then adding or subtracting leaves
/// one word more on the stack than there was: `a + b`, or `a - b`, as a
/// word.
pub proof fn theorem_constants_add_sub(
    program: Seq<InstructionView>,
    symbols: Map<Seq<char>, int>,
    m: Machine,
    a: u16,
    b: u16,
    subtract: bool,
)
    requires
        names_registers(symbols),
        m.ram.len() == 0x10000,
        0 < m.sp() < 0xFFFF,
        occupies(
            program,
            m.pc,
            push_constant_code(a as nat) + push_constant_code(b as nat) + (if subtract {
                sub_code()
            } else {
                add_code()
            }),
        ),
    ensures
        ({
            let after = run(program, symbols, m, 25);
            &&& after.pc == m.pc + 25
            &&& after.sp() == m.sp() + 1
            &&& after.ram[m.sp()] == if subtract { wrap(a - b) } else { wrap(a + b) }
            &&& forall|i: int|
                0 < i < 0x10000 && i != m.sp() && i != m.sp() + 1 ==> after.ram[i] == m.ram[i]
        }),
{
    let first = push_constant_code(a as nat);
    let second = push_constant_code(b as nat);
    let last = if subtract { sub_code() } else { add_code() };
    lemma_occupies_parts(program, m.pc, first + second, last);
    lemma_occupies_parts(program, m.pc, first, second);
    lemma_push_constant(program, symbols, m, a as nat);
    let m1 = run(program, symbols, m, 7);
    lemma_push_constant(program, symbols, m1, b as nat);
    let m2 = run(program, symbols, m1, 7);
    lemma_binary(program, symbols, m2, if subtract { Comp::MMinusD } else { Comp::DPlusM });
    lemma_run_split(program, symbols, m, 7, 7);
    lemma_run_split(program, symbols, m, 14, 11);
}

/// A comparison replaces the two top words of the stack by one word, all
/// ones for true or zero for false, and changes no other word of the memory
/// but the one the upper word lay in. `eq`, whose condition is `Equal`, is
/// true exactly when the two words are equal. `gt`, whose condition is
/// `Greater`, is true exactly when the lower word is greater than the upper,
/// both read as signed numbers, and `lt`, whose condition is `Less`, exactly
/// when it is less, provided that their difference is a signed word too.
pub proof fn theorem_comparison(
    program: Seq<InstructionView>,
    symbols: Map<Seq<char>, int>,
    m: Machine,
    file: Seq<char>,
    line: nat,
    jump: Jump,
)
    requires
        names_registers(symbols),
        resolves_labels(program, symbols),
        m.ram.len() == 0x10000,
        2 < m.sp() < 0x10000,
        0 <= m.ram[m.sp() - 2] < 0x10000,
        0 <= m.ram[m.sp() - 1] < 0x10000,
        occupies(program, m.pc, comparison_code(file, line, jump)),
    ensures
        ({
            let after = run(program, symbols, m, comparison_steps(m.ram, jump));
            let lower = m.ram[m.sp() - 2];
            let upper = m.ram[m.sp() - 1];
            let result = after.ram[m.sp() - 2];
            let fits = -0x8000 <= signed(lower) - signed(upper) < 0x8000;
            &&& after.pc == m.pc + 21
            &&& after.sp() == m.sp() - 1
            &&& result == 0xFFFF || result == 0
            &&& jump == Jump::Equal ==> (result == 0xFFFF <==> lower == upper)
            &&& jump == Jump::Greater && fits ==> (result == 0xFFFF <==> signed(lower) > signed(upper))
            &&& jump == Jump::Less && fits ==> (result == 0xFFFF <==> signed(lower) < signed(upper))
            &&& forall|i: int|
                0 < i < 0x10000 && i != m.sp() - 2 && i != m.sp() - 1 ==> after.ram[i]
                    == #[trigger] m.ram[i]
        }),
{
    lemma_comparison(program, symbols, m, file, line, jump);
}

/// Pushing the constants `a` and `b`, both below 32768, and comparing them
/// leaves one word more on the stack than there was: for `gt`, all ones if
/// `a > b` and zero if not; for `lt`, all ones if `a < b` and zero if not;
/// for `eq`, all ones if `a == b` and zero if not.
pub proof fn theorem_constants_comparison(
    program: Seq<InstructionView>,
    symbols: Map<Seq<char>, int>,
    m: Machine,
    a: u16,
    b: u16,
    file: Seq<char>,
    line: nat,
    jump: Jump,
)
    requires
        names_registers(symbols),
        resolves_labels(program, symbols),
        m.ram.len() == 0x10000,
        0 < m.sp() < 0xFFFF,
        a < 0x8000,
        b < 0x8000,
        jump == Jump::Equal || jump == Jump::Greater || jump == Jump::Less,
        occupies(
            program,
            m.pc,
            push_constant_code(a as nat) + push_constant_code(b as nat) + comparison_code(
                file,
                line,
                jump,
            ),
        ),
    ensures
        ({
            let holds = match jump {
                Jump::Equal => a == b,
                Jump::Greater => a > b,
                _ => a < b,
            };
            let steps = if holds { 31nat } else { 32nat };
            let after = run(program, symbols, m, steps);
            &&& after.pc == m.pc + 35
            &&& after.sp() == m.sp() + 1
            &&& after.ram[m.sp()] == if holds { 0xFFFF } else { 0int }
            &&& forall|i: int|
                0 < i < 0x10000 && i != m.sp() && i != m.sp() + 1 ==> after.ram[i]
                    == #[trigger] m.ram[i]
        }),
{
    let first = push_constant_code(a as nat);
    let second = push_constant_code(b as nat);
    let last = comparison_code(file, line, jump);
    lemma_occupies_parts(program, m.pc, first + second, last);
    lemma_occupies_parts(program, m.pc, first, second);
    lemma_push_constant(program, symbols, m, a as nat);
    let m1 = run(program, symbols, m, 7);
    lemma_push_constant(program, symbols, m1, b as nat);
    let m2 = run(program, symbols, m1, 7);
    lemma_comparison(program, symbols, m2, file, line, jump);
    lemma_run_split(program, symbols, m, 7, 7);
    lemma_run_split(program, symbols, m, 14, comparison_steps(m2.ram, jump));
}

/// Pushing word `index` of a dynamic segment and popping it to the same
/// place right away changes neither that word nor the stack pointer, nor any
/// other word of the memory but the one above the stack, which the push
/// wrote.
pub proof fn theorem_push_pop(
    program: Seq<InstructionView>,
    symbols: Map<Seq<char>, int>,
    m: Machine,
    file: Seq<char>,
    segment: Segment,
    index: u16,
)
    requires
        names_registers(symbols),
        is_dynamic(segment),
        m.ram.len() == 0x10000,
        4 < m.sp() < 0x10000,
        0 <= m.ram[symbols[base_symbol(segment)]] < 0x10000,
        0 <= m.ram[slot(m.ram, symbols[base_symbol(segment)], index as nat)] < 0x10000,
        occupies(
            program,
            m.pc,
            push_code(file, segment, index) + pop_code(file, segment, index)->Ok_0,
        ),
    ensures
        ({
            let after = run(program, symbols, m, 19);
            let place = slot(m.ram, symbols[base_symbol(segment)], index as nat);
            &&& after.pc == m.pc + 19
            &&& after.sp() == m.sp()
            &&& after.ram[place] == m.ram[place]
            &&& forall|i: int| 0 <= i < 0x10000 && i != m.sp() ==> after.ram[i] == m.ram[i]
        }),
{
    let base = base_symbol(segment);
    let push = push_code(file, segment, index);
    let pop = pop_code(file, segment, index)->Ok_0;
    lemma_occupies_parts(program, m.pc, push, pop);
    lemma_push_from_segment(program, symbols, m, base, index as nat);
    let m1 = run(program, symbols, m, 10);
    lemma_pop_to_segment(program, symbols, m1, base, index as nat);
    lemma_run_split(program, symbols, m, 10, 9);
}

/// Comparisons use different labels unless they stand on the same line of
/// the same translation unit: their branch labels differ, their join labels
/// differ, and no branch label is a join label, of the same comparison or of
/// another.
pub proof fn theorem_comparison_labels(file: Seq<char>, line: nat, other_file: Seq<char>, other: nat)
    ensures
        file != other_file || line != other ==> true_label(file, line) != true_label(
            other_file,
            other,
        ),
        file != other_file || line != other ==> end_label(file, line) != end_label(other_file, other),
        true_label(file, line) != end_label(other_file, other),
{
    reveal_strlit("COMP_TRUE_");
    reveal_strlit("COMP_END_");
    assert(true_label(file, line)[5] == 'T');
    assert(end_label(other_file, other)[5] == 'E');
    if true_label(file, line) == true_label(other_file, other) {
        lemma_numbered_injective("COMP_TRUE_"@ + file, line, "COMP_TRUE_"@ + other_file, other);
        lemma_common_start("COMP_TRUE_"@, file, other_file);
    }
    if end_label(file, line) == end_label(other_file, other) {
        lemma_numbered_injective("COMP_END_"@ + file, line, "COMP_END_"@ + other_file, other);
        lemma_common_start("COMP_END_"@, file, other_file);
    }
}

/// Calls resume at different labels unless they stand on the same line
/// within the same scope, whatever they call.
pub proof fn theorem_return_labels(scope: Seq<char>, line: nat, other_scope: Seq<char>, other: nat)
    requires
        scope != other_scope || line != other,
    ensures
        return_label(scope, line) != return_label(other_scope, other),
{
    if return_label(scope, line) == return_label(other_scope, other) {
        reveal_strlit("$ret.");
        reveal_strlit("$ret");
        reveal_strlit(".");
        assert("$ret."@ =~= "$ret"@ + "."@);
        assert(return_label(scope, line) =~= scope + "$ret"@ + "."@ + decimal(line));
        assert(return_label(other_scope, other) =~= other_scope + "$ret"@ + "."@ + decimal(other));
        lemma_numbered_injective(scope + "$ret"@, line, other_scope + "$ret"@, other);
        lemma_common_end(scope, other_scope, "$ret"@);
    }
}

/// The variables of the `static` segment differ unless they have the same
/// index in the same translation unit.
pub proof fn theorem_static_symbols(file: Seq<char>, index: nat, other_file: Seq<char>, other: nat)
    requires
        file != other_file || index != other,
    ensures
        static_symbol(file, index) != static_symbol(other_file, other),
{
    if static_symbol(file, index) == static_symbol(other_file, other) {
        lemma_numbered_injective(file, index, other_file, other);
    }
}

/// A listing starts with the first character of its first line.
pub proof fn lemma_listing_start(code: Seq<InstructionView>)
    requires
        code.len() > 0,
        code[0].text().len() > 0,
    ensures
        listing(code).len() > 0,
        listing(code)[0] == code[0].text()[0],
    decreases code.len(),
{
    if code.len() > 1 {
        assert(code.drop_last()[0] == code[0]);
        lemma_listing_start(code.drop_last());
    }
}

/// A translation holds the prologue exactly where the program declares the
/// entry function, and then once, as its first block: every other block is
/// the text of the command at its place, which is not the prologue.
pub proof fn theorem_prologue(commands: Seq<SourceCommandView>, blocks: Seq<Seq<char>>)
    requires
        is_translation(commands, Ok(blocks)),
    ensures
        declares_entry(commands) ==> {
            &&& blocks.len() == commands.len() + 1
            &&& blocks[0] == listing(bootstrap_code())
            &&& forall|i: int|
                0 <= i < commands.len() ==> #[trigger] blocks[i + 1] == entry_text(commands, i)->Ok_0
        },
        !declares_entry(commands) ==> {
            &&& blocks.len() == commands.len()
            &&& forall|i: int|
                0 <= i < commands.len() ==> #[trigger] blocks[i] == entry_text(commands, i)->Ok_0
        },
        forall|i: int|
            0 <= i < commands.len() ==> (#[trigger] entry_text(commands, i))->Ok_0 != listing(
                bootstrap_code(),
            ),
{
    let prologue = listing(bootstrap_code());
    assert(prologue.len() > 0 && prologue[0] == '@') by {
        reveal_strlit("@");
        let first = bootstrap_code()[0];
        assert(first == InstructionView::Number(256));
        assert(first.text()[0] == '@');
        lemma_listing_start(bootstrap_code());
    }
    assert forall|i: int| 0 <= i < commands.len() implies (#[trigger] entry_text(commands, i))->Ok_0
        != prologue by {
        reveal_strlit("// ");
        assert(entry_text(commands, i) is Ok);
        assert(entry_text(commands, i)->Ok_0[0] == '/');
    }
}

/// A call puts a frame of five words on the stack: the address at which the
/// caller resumes and the caller's `LCL`, `ARG`, `THIS` and `THAT`, in this
/// order. It then points `ARG` at the first of the `nargs` arguments, which
/// lie right below the frame, and `LCL` and the stack pointer at the word
/// above the frame, and goes on at the callee. It changes no other word of
/// the memory.
pub proof fn theorem_call(
    program: Seq<InstructionView>,
    symbols: Map<Seq<char>, int>,
    m: Machine,
    resume: Seq<char>,
    name: Seq<char>,
    nargs: nat,
)
    requires
        names_registers(symbols),
        m.ram.len() == 0x10000,
        4 < m.sp() - nargs,
        m.sp() + 5 < 0x10000,
        occupies(program, m.pc, call_code(resume, name, nargs)),
    ensures
        ({
            let after = run(program, symbols, m, 47);
            let frame = m.sp();
            &&& after.pc == symbols[name]
            &&& after.sp() == frame + 5
            &&& after.lcl() == frame + 5
            &&& after.arg() == frame - nargs
            &&& after.this() == m.this()
            &&& after.that() == m.that()
            &&& after.ram[frame] == symbols[resume]
            &&& after.ram[frame + 1] == m.lcl()
            &&& after.ram[frame + 2] == m.arg()
            &&& after.ram[frame + 3] == m.this()
            &&& after.ram[frame + 4] == m.that()
            &&& forall|i: int|
                4 < i < 0x10000 && !(frame <= i < frame + 5) ==> after.ram[i] == m.ram[i]
        }),
{
    lemma_call(program, symbols, m, resume, name, nargs);
}

/// The entry of a function with `nvars` local words puts `nvars` zeros on
/// the stack and changes no other word of the memory.
pub proof fn theorem_function_entry(
    program: Seq<InstructionView>,
    symbols: Map<Seq<char>, int>,
    m: Machine,
    name: Seq<char>,
    nvars: nat,
)
    requires
        names_registers(symbols),
        m.ram.len() == 0x10000,
        0 < m.sp(),
        m.sp() + nvars < 0x10000,
        occupies(program, m.pc, function_code(name, nvars)),
    ensures
        ({
            let after = run(program, symbols, m, 1 + 7 * nvars);
            &&& after.pc == m.pc + 1 + 7 * nvars
            &&& after.sp() == m.sp() + nvars
            &&& forall|i: int| m.sp() <= i < m.sp() + nvars ==> after.ram[i] == 0
            &&& forall|i: int|
                0 < i < 0x10000 && !(m.sp() <= i < m.sp() + nvars) ==> after.ram[i] == m.ram[i]
        }),
{
    lemma_function(program, symbols, m, name, nvars);
    lemma_zeroed_words(m.ram, nvars);
}

/// A return puts the top word of the stack where `ARG` points and the stack
/// pointer right above it, restores `THAT`, `THIS`, `ARG` and `LCL` from the
/// four words below the one `LCL` pointed to, and goes on at the address
/// that lay five words below it. Besides the result it changes no word of
/// the memory but its two variables, which lie below the arguments, and the
/// registers.
pub proof fn theorem_return(program: Seq<InstructionView>, symbols: Map<Seq<char>, int>, m: Machine)
    requires
        names_registers(symbols),
        m.ram.len() == 0x10000,
        4 < symbols["frame"@] < m.arg(),
        4 < symbols["retaddr"@] < m.arg(),
        symbols["frame"@] != symbols["retaddr"@],
        m.arg() <= m.lcl() - 5,
        m.lcl() < m.sp() < 0x10000,
        occupies(program, m.pc, return_code()),
    ensures
        ({
            let after = run(program, symbols, m, 44);
            let frame = m.lcl();
            &&& after.pc == m.ram[frame - 5]
            &&& after.ram[m.arg()] == m.ram[m.sp() - 1]
            &&& after.sp() == m.arg() + 1
            &&& after.lcl() == m.ram[frame - 4]
            &&& after.arg() == m.ram[frame - 3]
            &&& after.this() == m.ram[frame - 2]
            &&& after.that() == m.ram[frame - 1]
            &&& forall|i: int|
                4 < i < 0x10000 && i != m.arg() && i != symbols["frame"@] && i != symbols["retaddr"@]
                    ==> after.ram[i] == m.ram[i]
        }),
{
    lemma_return(program, symbols, m);
}

/// A call and the return from it, taken together: where a caller with
/// `nargs` arguments on its stack makes a call, and the callee, whatever it
/// does, comes to a return with its `LCL`, its `ARG` and its frame as the
/// call left them and with a result on its stack, the return leaves the
/// result where the first argument lay and the stack pointer right above it,
/// gives `LCL`, `ARG`, `THIS` and `THAT` the values they had before the call,
/// and goes on at the label that stands behind the call.
pub proof fn theorem_call_return(
    program: Seq<InstructionView>,
    symbols: Map<Seq<char>, int>,
    caller: Machine,
    callee: Machine,
    resume: Seq<char>,
    name: Seq<char>,
    nargs: nat,
)
    requires
        names_registers(symbols),
        resolves_labels(program, symbols),
        caller.ram.len() == 0x10000,
        callee.ram.len() == 0x10000,
        4 < symbols["frame"@] < caller.sp() - nargs,
        4 < symbols["retaddr"@] < caller.sp() - nargs,
        symbols["frame"@] != symbols["retaddr"@],
        caller.sp() + 5 < callee.sp() < 0x10000,
        occupies(program, caller.pc, call_code(resume, name, nargs)),
        occupies(program, callee.pc, return_code()),
        ({
            let entered = run(program, symbols, caller, 47);
            &&& callee.lcl() == entered.lcl()
            &&& callee.arg() == entered.arg()
            &&& forall|i: int|
                caller.sp() <= i < caller.sp() + 5 ==> callee.ram[i] == entered.ram[i]
        }),
    ensures
        ({
            let after = run(program, symbols, callee, 44);
            &&& after.pc == caller.pc + 47
            &&& program[after.pc] == InstructionView::Label(resume)
            &&& after.ram[caller.sp() - nargs] == callee.ram[callee.sp() - 1]
            &&& after.sp() == caller.sp() - nargs + 1
            &&& after.lcl() == caller.lcl()
            &&& after.arg() == caller.arg()
            &&& after.this() == caller.this()
            &&& after.that() == caller.that()
        }),
{
    theorem_call(program, symbols, caller, resume, name, nargs);
    lemma_call(program, symbols, caller, resume, name, nargs);
    let frame = caller.sp();
    assert(callee.ram[frame] == symbols[resume]);
    assert(callee.ram[frame + 1] == caller.lcl());
    assert(callee.ram[frame + 2] == caller.arg());
    assert(callee.ram[frame + 3] == caller.this());
    assert(callee.ram[frame + 4] == caller.that());
    theorem_return(program, symbols, callee);
}

/// `and` and `or` replace the two top words of the stack by their bitwise
/// and, or by their bitwise or, and change no other word of the memory but
/// the one the upper word lay in.
pub proof fn theorem_and_or(
    program: Seq<InstructionView>,
    symbols: Map<Seq<char>, int>,
    m: Machine,
    either: bool,
)
    requires
        names_registers(symbols),
        m.ram.len() == 0x10000,
        2 < m.sp() < 0x10000,
        occupies(program, m.pc, if either { or_code() } else { and_code() }),
    ensures
        ({
            let after = run(program, symbols, m, 11);
            let lower = m.ram[m.sp() - 2];
            let upper = m.ram[m.sp() - 1];
            &&& after.pc == m.pc + 11
            &&& after.sp() == m.sp() - 1
            &&& after.ram[m.sp() - 2] == if either { word_or(upper, lower) } else { word_and(upper, lower) }
            &&& forall|i: int|
                0 < i < 0x10000 && i != m.sp() - 2 && i != m.sp() - 1 ==> after.ram[i] == m.ram[i]
        }),
{
    lemma_binary(program, symbols, m, if either { Comp::DOrM } else { Comp::DAndM });
}

/// `neg` replaces the top word of the stack by its negation and `not` by
/// its complement, and neither changes another word of the memory.
pub proof fn theorem_neg_not(
    program: Seq<InstructionView>,
    symbols: Map<Seq<char>, int>,
    m: Machine,
    complement: bool,
)
    requires
        names_registers(symbols),
        m.ram.len() == 0x10000,
        1 < m.sp() < 0x10000,
        occupies(program, m.pc, if complement { not_code() } else { neg_code() }),
    ensures
        ({
            let after = run(program, symbols, m, 9);
            let word = m.ram[m.sp() - 1];
            &&& after.pc == m.pc + 9
            &&& after.sp() == m.sp()
            &&& after.ram[m.sp() - 1] == if complement { 0xFFFF - word } else { wrap(-word) }
            &&& forall|i: int| 0 <= i < 0x10000 && i != m.sp() - 1 ==> after.ram[i] == m.ram[i]
        }),
{
    lemma_unary(program, symbols, m, if complement { Comp::NotD } else { Comp::NegD });
}

/// A jump goes on at the declaration of its label and changes no word of
/// the memory.
pub proof fn theorem_goto(
    program: Seq<InstructionView>,
    symbols: Map<Seq<char>, int>,
    m: Machine,
    symbol: Seq<char>,
    target: int,
)
    requires
        resolves_labels(program, symbols),
        0 <= target < program.len(),
        program[target] == InstructionView::Label(symbol),
        occupies(program, m.pc, goto_code(symbol)),
    ensures
        run(program, symbols, m, 2).pc == target,
        run(program, symbols, m, 2).ram == m.ram,
{
    lemma_goto(program, symbols, m, symbol);
}

/// A conditional jump takes the top word off the stack, goes on at the
/// declaration of its label if the word is not zero and behind itself if it
/// is, and changes no other word of the memory.
pub proof fn theorem_if_goto(
    program: Seq<InstructionView>,
    symbols: Map<Seq<char>, int>,
    m: Machine,
    symbol: Seq<char>,
    target: int,
)
    requires
        names_registers(symbols),
        resolves_labels(program, symbols),
        m.ram.len() == 0x10000,
        1 < m.sp() < 0x10000,
        0 <= target < program.len(),
        program[target] == InstructionView::Label(symbol),
        occupies(program, m.pc, if_goto_code(symbol)),
    ensures
        ({
            let after = run(program, symbols, m, 5);
            &&& after.pc == if m.ram[m.sp() - 1] != 0 { target } else { m.pc + 5 }
            &&& after.sp() == m.sp() - 1
            &&& forall|i: int| 0 < i < 0x10000 ==> after.ram[i] == m.ram[i]
        }),
{
    lemma_if_goto(program, symbols, m, symbol);
}

/// The prologue sets the stack pointer to 256, puts the frame of a call
/// without arguments there, which saves the values that it gives `LCL`,
/// `ARG`, `THIS` and `THAT`, the words for -1, -2, -3 and -4, and goes on at
/// the entry function with `ARG` at 256 and `LCL` and the stack pointer at
/// 261.
pub proof fn theorem_bootstrap(
    program: Seq<InstructionView>,
    symbols: Map<Seq<char>, int>,
    m: Machine,
)
    requires
        names_registers(symbols),
        m.ram.len() == 0x10000,
        occupies(program, m.pc, bootstrap_code()),
    ensures
        ({
            let after = run(program, symbols, m, 65);
            &&& after.pc == symbols[entry_name()]
            &&& after.sp() == 261
            &&& after.lcl() == 261
            &&& after.arg() == 256
            &&& after.this() == 0xFFFD
            &&& after.that() == 0xFFFC
            &&& after.ram[256] == symbols[return_label("Bootstrap"@, 0)]
            &&& after.ram[257] == 0xFFFF
            &&& after.ram[258] == 0xFFFE
            &&& after.ram[259] == 0xFFFD
            &&& after.ram[260] == 0xFFFC
            &&& forall|i: int| 4 < i < 0x10000 && !(256 <= i < 261) ==> after.ram[i] == m.ram[i]
        }),
{
    lemma_bootstrap(program, symbols, m);
}

/// The instructions of a command stand in the code of any number of
/// commands that includes it.
pub proof fn lemma_code_upto(commands: Seq<SourceCommandView>, i: int, upto: nat)
    requires
        0 <= i < upto,
    ensures
        occupies(
            code_upto(commands, upto),
            code_upto(commands, i as nat).len() as int,
            entry_code(commands, i)->Ok_0,
        ),
    decreases upto,
{
    let before = code_upto(commands, (upto - 1) as nat);
    let last = entry_code(commands, upto - 1)->Ok_0;
    let code = entry_code(commands, i)->Ok_0;
    let at = code_upto(commands, i as nat).len() as int;
    if i == upto - 1 {
        assert forall|k: int| 0 <= k < code.len() implies (before + last)[at + k] == #[trigger] code[k] by {}
    } else {
        lemma_code_upto(commands, i, (upto - 1) as nat);
        assert forall|k: int| 0 <= k < code.len() implies (before + last)[at + k] == #[trigger] code[k] by {
            assert(before[at + k] == code[k]);
        }
    }
}

/// In the program that a translation is the text of, the instructions of
/// each command stand at the command's offset: behind the prologue, if one
/// is due, and the instructions of the commands before it.
pub proof fn theorem_program_layout(commands: Seq<SourceCommandView>, i: int)
    requires
        0 <= i < commands.len(),
    ensures
        occupies(program_code(commands), command_offset(commands, i), entry_code(commands, i)->Ok_0),
        declares_entry(commands) ==> occupies(program_code(commands), 0, bootstrap_code()),
{
    let head = prologue_code(commands);
    let body = code_upto(commands, commands.len());
    let code = entry_code(commands, i)->Ok_0;
    lemma_code_upto(commands, i, commands.len());
    let at = code_upto(commands, i as nat).len() as int;
    assert forall|k: int| 0 <= k < code.len() implies (head + body)[head.len() + at + k]
        == #[trigger] code[k] by {
        assert(body[at + k] == code[k]);
    }
    if declares_entry(commands) {
        assert forall|k: int| 0 <= k < bootstrap_code().len() implies (head + body)[0 + k]
            == #[trigger] bootstrap_code()[k] by {}
    }
}

/// A machine whose registers and memory hold words still holds words after
/// any number of steps.
pub proof fn theorem_well_formed(
    program: Seq<InstructionView>,
    symbols: Map<Seq<char>, int>,
    m: Machine,
    steps: nat,
)
    requires
        m.well_formed(),
        names_words(symbols),
    ensures
        run(program, symbols, m, steps).well_formed(),
    decreases steps,
{
    if steps > 0 {
        if 0 <= m.pc < program.len() {
            lemma_apply_well_formed(program[m.pc], symbols, m);
        }
        theorem_well_formed(program, symbols, step(program, symbols, m), (steps - 1) as nat);
    }
}

/// Pushing a constant and calling a function with it as the one argument
/// leaves the constant where `ARG` points, with the frame above it.
proof fn lemma_enter_with_constant(
    program: Seq<InstructionView>,
    symbols: Map<Seq<char>, int>,
    m: Machine,
    value: u16,
    resume: Seq<char>,
    name: Seq<char>,
)
    requires
        names_registers(symbols),
        m.ram.len() == 0x10000,
        4 < m.sp(),
        m.sp() + 6 < 0x10000,
        occupies(program, m.pc, push_constant_code(value as nat) + call_code(resume, name, 1)),
    ensures
        ({
            let entered = run(program, symbols, m, 54);
            let base = m.sp();
            &&& entered.pc == symbols[name]
            &&& program[m.pc + 54] == InstructionView::Label(resume)
            &&& entered.ram.len() == 0x10000
            &&& entered.arg() == base
            &&& entered.lcl() == base + 6
            &&& entered.sp() == base + 6
            &&& entered.ram[base] == value
            &&& entered.ram[base + 1] == symbols[resume]
            &&& entered.ram[base + 2] == m.lcl()
            &&& entered.ram[base + 3] == m.arg()
            &&& entered.ram[base + 4] == m.this()
            &&& entered.ram[base + 5] == m.that()
        }),
{
    let push = push_constant_code(value as nat);
    let call = call_code(resume, name, 1);
    lemma_occupies_parts(program, m.pc, push, call);
    lemma_push_constant(program, symbols, m, value as nat);
    let pushed = run(program, symbols, m, 7);
    theorem_call(program, symbols, pushed, resume, name, 1);
    lemma_call(program, symbols, pushed, resume, name, 1);
    lemma_run_split(program, symbols, m, 7, 47);
}

/// The entry of a function and a push of its first argument leave the
/// argument on top of the stack and the frame as it was.
proof fn lemma_load_first_argument(
    program: Seq<InstructionView>,
    symbols: Map<Seq<char>, int>,
    m: Machine,
    file: Seq<char>,
    name: Seq<char>,
    nvars: nat,
)
    requires
        names_registers(symbols),
        m.ram.len() == 0x10000,
        4 < m.arg() < m.sp(),
        m.sp() + nvars + 1 < 0x10000,
        occupies(program, m.pc, function_code(name, nvars) + push_code(file, Segment::Argument, 0)),
    ensures
        ({
            let loaded = run(program, symbols, m, 11 + 7 * nvars);
            &&& loaded.pc == m.pc + 11 + 7 * nvars
            &&& loaded.ram.len() == 0x10000
            &&& loaded.sp() == m.sp() + nvars + 1
            &&& loaded.ram[m.sp() + nvars] == m.ram[m.arg()]
            &&& forall|i: int| 0 < i < m.sp() ==> loaded.ram[i] == #[trigger] m.ram[i]
        }),
{
    let open = function_code(name, nvars);
    let body = push_code(file, Segment::Argument, 0);
    lemma_occupies_parts(program, m.pc, open, body);
    lemma_function(program, symbols, m, name, nvars);
    lemma_zeroed_words(m.ram, nvars);
    let ready = run(program, symbols, m, 1 + 7 * nvars);
    lemma_push_from_segment(program, symbols, ready, "ARG"@, 0);
    lemma_run_split(program, symbols, m, 1 + 7 * nvars, 10);
    assert(slot(ready.ram, 2, 0) == m.arg());
}

/// A whole call, from the push of its argument to the label behind it:
/// where a caller pushes the constant `value` and calls, with this one
/// argument, a function that has `nvars` local words and does nothing but
/// return its first argument, the machine comes to the label behind the call
/// with `value` on top of the stack in place of the argument, one word more
/// on the stack than before the push, and `LCL`, `ARG`, `THIS` and `THAT` as
/// they were.
pub proof fn theorem_call_of_identity(
    program: Seq<InstructionView>,
    symbols: Map<Seq<char>, int>,
    m: Machine,
    file: Seq<char>,
    value: u16,
    nvars: nat,
    resume: Seq<char>,
    name: Seq<char>,
    entry: int,
)
    requires
        names_registers(symbols),
        resolves_labels(program, symbols),
        m.ram.len() == 0x10000,
        4 < symbols["frame"@] < m.sp(),
        4 < symbols["retaddr"@] < m.sp(),
        symbols["frame"@] != symbols["retaddr"@],
        m.sp() + 7 + nvars < 0x10000,
        occupies(program, m.pc, push_constant_code(value as nat) + call_code(resume, name, 1)),
        occupies(
            program,
            entry,
            function_code(name, nvars) + push_code(file, Segment::Argument, 0) + return_code(),
        ),
    ensures
        ({
            let after = run(program, symbols, m, 109 + 7 * nvars);
            &&& after.pc == m.pc + 54
            &&& program[after.pc] == InstructionView::Label(resume)
            &&& after.sp() == m.sp() + 1
            &&& after.ram[m.sp()] == value
            &&& after.lcl() == m.lcl()
            &&& after.arg() == m.arg()
            &&& after.this() == m.this()
            &&& after.that() == m.that()
        }),
{
    let open = function_code(name, nvars);
    let body = push_code(file, Segment::Argument, 0);
    lemma_occupies_parts(program, entry, open + body, return_code());
    lemma_occupies_parts(program, entry, open, body);
    assert(program[entry + 0] == open[0]);
    assert(symbols[name] == entry);
    let base = m.sp();

    lemma_enter_with_constant(program, symbols, m, value, resume, name);
    let entered = run(program, symbols, m, 54);

    lemma_load_first_argument(program, symbols, entered, file, name, nvars);
    lemma_function(program, symbols, entered, name, nvars);
    let loaded = run(program, symbols, entered, 11 + 7 * nvars);
    lemma_run_split(program, symbols, m, 54, 11 + 7 * nvars);
    assert(loaded.pc == entry + (open + body).len());
    assert(loaded.arg() == entered.arg());
    assert(loaded.lcl() == entered.lcl());
    assert(loaded.ram[base + 1] == entered.ram[base + 1]);
    assert(loaded.ram[base + 2] == entered.ram[base + 2]);
    assert(loaded.ram[base + 3] == entered.ram[base + 3]);
    assert(loaded.ram[base + 4] == entered.ram[base + 4]);
    assert(loaded.ram[base + 5] == entered.ram[base + 5]);

    theorem_return(program, symbols, loaded);
    lemma_run_split(program, symbols, m, (65 + 7 * nvars) as nat, 44);
    assert(symbols[resume] == m.pc + 54);
}

} // verus!
