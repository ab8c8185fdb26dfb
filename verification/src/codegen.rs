//! The code generator: from commands of the stack machine to instructions of
//! the target machine.

use vstd::prelude::*;
use vstd::string::*;
use crate::hack::{emit, listing, render_listing, views, Comp, Dest, Instruction, InstructionView, Jump};
use crate::text::{decimal, decimal_string, same_text, string_views};
use crate::vm::{command_views, Command, CommandView, Segment, SourceCommand, SourceCommandView};

verus! {

/// Takes the top word off the stack into `D`.
pub open spec fn pop_d_code() -> Seq<InstructionView> {
    seq![
        InstructionView::at("SP"@),
        InstructionView::set(Dest::AM, Comp::MMinusOne),
        InstructionView::set(Dest::D, Comp::M),
    ]
}

/// Puts `D` on top of the stack.
pub open spec fn push_d_code() -> Seq<InstructionView> {
    seq![
        InstructionView::at("SP"@),
        InstructionView::set(Dest::A, Comp::M),
        InstructionView::set(Dest::M, Comp::D),
        InstructionView::at("SP"@),
        InstructionView::set(Dest::M, Comp::MPlusOne),
    ]
}

/// Puts the word stored under `symbol` on top of the stack.
pub open spec fn push_symbol_code(symbol: Seq<char>) -> Seq<InstructionView> {
    seq![InstructionView::at(symbol), InstructionView::set(Dest::D, Comp::M)] + push_d_code()
}

/// Replaces the two top words of the stack by `comp`, evaluated with the
/// upper word in `D` and the lower word in `M`.
pub open spec fn binary_code(comp: Comp) -> Seq<InstructionView> {
    pop_d_code() + seq![
        InstructionView::at("SP"@),
        InstructionView::set(Dest::AM, Comp::MMinusOne),
        InstructionView::set(Dest::D, comp),
    ] + push_d_code()
}

/// Replaces the top word of the stack by `comp`, evaluated with that word in
/// `D`.
pub open spec fn unary_code(comp: Comp) -> Seq<InstructionView> {
    pop_d_code() + seq![InstructionView::set(Dest::D, comp)] + push_d_code()
}

pub open spec fn add_code() -> Seq<InstructionView> {
    binary_code(Comp::DPlusM)
}

pub open spec fn sub_code() -> Seq<InstructionView> {
    binary_code(Comp::MMinusD)
}

pub open spec fn and_code() -> Seq<InstructionView> {
    binary_code(Comp::DAndM)
}

pub open spec fn or_code() -> Seq<InstructionView> {
    binary_code(Comp::DOrM)
}

pub open spec fn neg_code() -> Seq<InstructionView> {
    unary_code(Comp::NegD)
}

pub open spec fn not_code() -> Seq<InstructionView> {
    unary_code(Comp::NotD)
}

fn pop_d(code: &mut Vec<Instruction>)
    ensures
        views(final(code)@) == views(old(code)@) + pop_d_code(),
{
    emit(code, Instruction::at("SP"));
    emit(code, Instruction::set(Dest::AM, Comp::MMinusOne));
    emit(code, Instruction::set(Dest::D, Comp::M));
    assert(views(code@) =~= views(old(code)@) + pop_d_code());
}

fn push_d(code: &mut Vec<Instruction>)
    ensures
        views(final(code)@) == views(old(code)@) + push_d_code(),
{
    emit(code, Instruction::at("SP"));
    emit(code, Instruction::set(Dest::A, Comp::M));
    emit(code, Instruction::set(Dest::M, Comp::D));
    emit(code, Instruction::at("SP"));
    emit(code, Instruction::set(Dest::M, Comp::MPlusOne));
    assert(views(code@) =~= views(old(code)@) + push_d_code());
}

fn push_symbol(code: &mut Vec<Instruction>, symbol: &str)
    ensures
        views(final(code)@) == views(old(code)@) + push_symbol_code(symbol@),
{
    emit(code, Instruction::at(symbol));
    emit(code, Instruction::set(Dest::D, Comp::M));
    push_d(code);
    assert(views(code@) =~= views(old(code)@) + push_symbol_code(symbol@));
}

fn generate_binary_operation(comp: Comp) -> (code: Vec<Instruction>)
    ensures
        views(code@) == binary_code(comp),
{
    let mut code: Vec<Instruction> = Vec::new();
    pop_d(&mut code);
    emit(&mut code, Instruction::at("SP"));
    emit(&mut code, Instruction::set(Dest::AM, Comp::MMinusOne));
    emit(&mut code, Instruction::set(Dest::D, comp));
    push_d(&mut code);
    assert(views(code@) =~= binary_code(comp));
    code
}

fn generate_unary(comp: Comp) -> (code: Vec<Instruction>)
    ensures
        views(code@) == unary_code(comp),
{
    let mut code: Vec<Instruction> = Vec::new();
    pop_d(&mut code);
    emit(&mut code, Instruction::set(Dest::D, comp));
    push_d(&mut code);
    assert(views(code@) =~= unary_code(comp));
    code
}

/// The code of `add`: the sum of the two top words.
pub fn generate_add() -> (code: Vec<Instruction>)
    ensures
        views(code@) == add_code(),
{
    generate_binary_operation(Comp::DPlusM)
}

/// The code of `sub`: the lower of the two top words minus the upper.
pub fn generate_sub() -> (code: Vec<Instruction>)
    ensures
        views(code@) == sub_code(),
{
    generate_binary_operation(Comp::MMinusD)
}

/// The code of `and`: the bitwise and of the two top words.
pub fn generate_and() -> (code: Vec<Instruction>)
    ensures
        views(code@) == and_code(),
{
    generate_binary_operation(Comp::DAndM)
}

/// The code of `or`: the bitwise or of the two top words.
pub fn generate_or() -> (code: Vec<Instruction>)
    ensures
        views(code@) == or_code(),
{
    generate_binary_operation(Comp::DOrM)
}

/// The code of `neg`: the top word negated.
pub fn generate_neg() -> (code: Vec<Instruction>)
    ensures
        views(code@) == neg_code(),
{
    generate_unary(Comp::NegD)
}

/// The code of `not`: the top word with every bit flipped.
pub fn generate_not() -> (code: Vec<Instruction>)
    ensures
        views(code@) == not_code(),
{
    generate_unary(Comp::NotD)
}

/// The label that a comparison on line `line` of unit `file` jumps to when it
/// holds.
pub open spec fn true_label(file: Seq<char>, line: nat) -> Seq<char> {
    "COMP_TRUE_"@ + file + "."@ + decimal(line)
}

/// The label at which both branches of a comparison on line `line` of unit
/// `file` meet again.
pub open spec fn end_label(file: Seq<char>, line: nat) -> Seq<char> {
    "COMP_END_"@ + file + "."@ + decimal(line)
}

/// Replaces the two top words of the stack by all ones if the lower minus the
/// upper meets `jump`, by zero if not.
pub open spec fn comparison_code(file: Seq<char>, line: nat, jump: Jump) -> Seq<InstructionView> {
    pop_d_code() + seq![
        InstructionView::at("SP"@),
        InstructionView::set(Dest::AM, Comp::MMinusOne),
        InstructionView::set(Dest::D, Comp::MMinusD),
        InstructionView::at(true_label(file, line)),
        InstructionView::branch(Comp::D, jump),
        InstructionView::Number(0),
        InstructionView::set(Dest::D, Comp::A),
        InstructionView::at(end_label(file, line)),
        InstructionView::branch(Comp::Zero, Jump::Always),
        InstructionView::Label(true_label(file, line)),
        InstructionView::Number(1),
        InstructionView::set(Dest::D, Comp::NegA),
        InstructionView::Label(end_label(file, line)),
    ] + push_d_code()
}

pub open spec fn eq_code(sc: SourceCommandView) -> Seq<InstructionView> {
    comparison_code(sc.file_base, sc.line, Jump::Equal)
}

pub open spec fn gt_code(sc: SourceCommandView) -> Seq<InstructionView> {
    comparison_code(sc.file_base, sc.line, Jump::Greater)
}

pub open spec fn lt_code(sc: SourceCommandView) -> Seq<InstructionView> {
    comparison_code(sc.file_base, sc.line, Jump::Less)
}

fn comparison_label(prefix: &str, file: &str, line: usize) -> (r: String)
    ensures
        r@ == prefix@ + file@ + "."@ + decimal(line as nat),
{
    let mut r = String::from_str(prefix);
    r.append(file);
    r.append(".");
    let digits = decimal_string(line as u64);
    r.append(digits.as_str());
    r
}

fn generate_comparison(sc: &SourceCommand, jump: Jump) -> (code: Vec<Instruction>)
    ensures
        views(code@) == comparison_code(sc@.file_base, sc@.line, jump),
{
    let taken = comparison_label("COMP_TRUE_", sc.file_base(), sc.line());
    let join = comparison_label("COMP_END_", sc.file_base(), sc.line());
    let mut code: Vec<Instruction> = Vec::new();
    pop_d(&mut code);
    emit(&mut code, Instruction::at("SP"));
    emit(&mut code, Instruction::set(Dest::AM, Comp::MMinusOne));
    emit(&mut code, Instruction::set(Dest::D, Comp::MMinusD));
    emit(&mut code, Instruction::at(taken.as_str()));
    emit(&mut code, Instruction::branch(Comp::D, jump));
    emit(&mut code, Instruction::Number(0));
    emit(&mut code, Instruction::set(Dest::D, Comp::A));
    emit(&mut code, Instruction::at(join.as_str()));
    emit(&mut code, Instruction::branch(Comp::Zero, Jump::Always));
    emit(&mut code, Instruction::Label(taken));
    emit(&mut code, Instruction::Number(1));
    emit(&mut code, Instruction::set(Dest::D, Comp::NegA));
    emit(&mut code, Instruction::Label(join));
    push_d(&mut code);
    assert(views(code@) =~= comparison_code(sc@.file_base, sc@.line, jump));
    code
}

/// The code of `eq`: all ones if the two top words are equal, zero if not.
pub fn generate_eq(source_command: &SourceCommand) -> (code: Vec<Instruction>)
    ensures
        views(code@) == eq_code(source_command@),
{
    generate_comparison(source_command, Jump::Equal)
}

/// The code of `gt`: all ones if the lower of the two top words is greater
/// than the upper, zero if not.
pub fn generate_gt(source_command: &SourceCommand) -> (code: Vec<Instruction>)
    ensures
        views(code@) == gt_code(source_command@),
{
    generate_comparison(source_command, Jump::Greater)
}

/// The code of `lt`: all ones if the lower of the two top words is less than
/// the upper, zero if not.
pub fn generate_lt(source_command: &SourceCommand) -> (code: Vec<Instruction>)
    ensures
        views(code@) == lt_code(source_command@),
{
    generate_comparison(source_command, Jump::Less)
}

/// Whether the segment lies at an address held in a pointer register.
pub open spec fn is_dynamic(segment: Segment) -> bool {
    segment == Segment::Argument || segment == Segment::Local || segment == Segment::This
        || segment == Segment::That
}

/// The pointer register that holds the base address of a dynamic segment.
pub open spec fn base_symbol(segment: Segment) -> Seq<char> {
    match segment {
        Segment::Argument => "ARG"@,
        Segment::Local => "LCL"@,
        Segment::This => "THIS"@,
        _ => "THAT"@,
    }
}

/// The address of the first word of the `pointer` segment.
pub open spec fn pointer_origin() -> nat {
    3
}

/// The address of the first word of the `temp` segment.
pub open spec fn temp_origin() -> nat {
    5
}

/// The variable that holds word `index` of the `static` segment of unit
/// `file`.
pub open spec fn static_symbol(file: Seq<char>, index: nat) -> Seq<char> {
    file + "."@ + decimal(index)
}

/// Puts `value` on top of the stack.
pub open spec fn push_constant_code(value: nat) -> Seq<InstructionView> {
    seq![InstructionView::Number(value), InstructionView::set(Dest::D, Comp::A)] + push_d_code()
}

/// Puts the word at `address` on top of the stack.
pub open spec fn push_from_address_code(address: nat) -> Seq<InstructionView> {
    seq![InstructionView::Number(address), InstructionView::set(Dest::D, Comp::M)] + push_d_code()
}

/// Puts the word of the variable `variable` on top of the stack.
pub open spec fn push_from_variable_code(variable: Seq<char>) -> Seq<InstructionView> {
    seq![InstructionView::at(variable), InstructionView::set(Dest::D, Comp::M)] + push_d_code()
}

/// Puts word `index` of the segment whose base the register `base` holds on
/// top of the stack.
pub open spec fn push_from_segment_code(base: Seq<char>, index: nat) -> Seq<InstructionView> {
    seq![
        InstructionView::Number(index),
        InstructionView::set(Dest::D, Comp::A),
        InstructionView::at(base),
        InstructionView::set(Dest::A, Comp::DPlusM),
        InstructionView::set(Dest::D, Comp::M),
    ] + push_d_code()
}

/// Takes the top word off the stack into the word at `address`.
pub open spec fn pop_to_address_code(address: nat) -> Seq<InstructionView> {
    pop_d_code() + seq![InstructionView::Number(address), InstructionView::set(Dest::M, Comp::D)]
}

/// Takes the top word off the stack into the variable `variable`.
pub open spec fn pop_to_variable_code(variable: Seq<char>) -> Seq<InstructionView> {
    pop_d_code() + seq![InstructionView::at(variable), InstructionView::set(Dest::M, Comp::D)]
}

/// Takes the top word off the stack into word `index` of the segment whose
/// base the register `base` holds. With the target address in `D` and the
/// popped word in `M`, `D` takes their sum, `A` the sum less the word, which
/// is the address, and the addressed word the sum less the address.
pub open spec fn pop_to_segment_code(base: Seq<char>, index: nat) -> Seq<InstructionView> {
    seq![
        InstructionView::at(base),
        InstructionView::set(Dest::D, Comp::M),
        InstructionView::Number(index),
        InstructionView::set(Dest::D, Comp::DPlusA),
        InstructionView::at("SP"@),
        InstructionView::set(Dest::AM, Comp::MMinusOne),
        InstructionView::set(Dest::D, Comp::DPlusM),
        InstructionView::set(Dest::A, Comp::DMinusM),
        InstructionView::set(Dest::M, Comp::DMinusA),
    ]
}

/// The code of `push segment index` in unit `file`.
pub open spec fn push_code(file: Seq<char>, segment: Segment, index: u16) -> Seq<InstructionView> {
    match segment {
        Segment::Constant => push_constant_code(index as nat),
        Segment::Pointer => push_from_address_code(index as nat + pointer_origin()),
        Segment::Temp => push_from_address_code(index as nat + temp_origin()),
        Segment::Static => push_from_variable_code(static_symbol(file, index as nat)),
        _ => push_from_segment_code(base_symbol(segment), index as nat),
    }
}

/// The message for a segment that cannot be written to.
pub open spec fn unaddressable_message() -> Seq<char> {
    "Unable to address segment for pop: Constant"@
}

/// The code of `pop segment index` in unit `file`; none for `constant`, which
/// is no memory.
pub open spec fn pop_code(file: Seq<char>, segment: Segment, index: u16) -> Result<
    Seq<InstructionView>,
    Seq<char>,
> {
    match segment {
        Segment::Constant => Err(unaddressable_message()),
        Segment::Pointer => Ok(pop_to_address_code(index as nat + pointer_origin())),
        Segment::Temp => Ok(pop_to_address_code(index as nat + temp_origin())),
        Segment::Static => Ok(pop_to_variable_code(static_symbol(file, index as nat))),
        _ => Ok(pop_to_segment_code(base_symbol(segment), index as nat)),
    }
}

/// Whether `r` is the generator's outcome `expected`.
pub open spec fn yields(
    r: Result<Vec<Instruction>, String>,
    expected: Result<Seq<InstructionView>, Seq<char>>,
) -> bool {
    match expected {
        Ok(code) => r is Ok && views(r->Ok_0@) == code,
        Err(message) => r is Err && r->Err_0@ == message,
    }
}

fn static_name(file: &str, index: u16) -> (r: String)
    ensures
        r@ == static_symbol(file@, index as nat),
{
    let mut r = String::from_str(file);
    r.append(".");
    let digits = decimal_string(index as u64);
    r.append(digits.as_str());
    r
}

/// The code that puts `value` on top of the stack.
pub fn push_constant(value: u16) -> (code: Vec<Instruction>)
    ensures
        views(code@) == push_constant_code(value as nat),
{
    let mut code: Vec<Instruction> = Vec::new();
    emit(&mut code, Instruction::Number(value as u32));
    emit(&mut code, Instruction::set(Dest::D, Comp::A));
    push_d(&mut code);
    assert(views(code@) =~= push_constant_code(value as nat));
    code
}

/// The code that puts the word at `address` on top of the stack.
pub fn push_from_address(address: u32) -> (code: Vec<Instruction>)
    ensures
        views(code@) == push_from_address_code(address as nat),
{
    let mut code: Vec<Instruction> = Vec::new();
    emit(&mut code, Instruction::Number(address));
    emit(&mut code, Instruction::set(Dest::D, Comp::M));
    push_d(&mut code);
    assert(views(code@) =~= push_from_address_code(address as nat));
    code
}

fn push_from_variable(variable: &str) -> (code: Vec<Instruction>)
    ensures
        views(code@) == push_from_variable_code(variable@),
{
    let mut code: Vec<Instruction> = Vec::new();
    emit(&mut code, Instruction::at(variable));
    emit(&mut code, Instruction::set(Dest::D, Comp::M));
    push_d(&mut code);
    assert(views(code@) =~= push_from_variable_code(variable@));
    code
}

fn push_from_segment(base: &str, index: u16) -> (code: Vec<Instruction>)
    ensures
        views(code@) == push_from_segment_code(base@, index as nat),
{
    let mut code: Vec<Instruction> = Vec::new();
    emit(&mut code, Instruction::Number(index as u32));
    emit(&mut code, Instruction::set(Dest::D, Comp::A));
    emit(&mut code, Instruction::at(base));
    emit(&mut code, Instruction::set(Dest::A, Comp::DPlusM));
    emit(&mut code, Instruction::set(Dest::D, Comp::M));
    push_d(&mut code);
    assert(views(code@) =~= push_from_segment_code(base@, index as nat));
    code
}

/// The code of `push segment index`.
pub fn generate_push(sc: &SourceCommand, segment: &Segment, index: u16) -> (code: Vec<Instruction>)
    ensures
        views(code@) == push_code(sc@.file_base, *segment, index),
{
    match segment {
        Segment::Argument => push_from_segment("ARG", index),
        Segment::Constant => push_constant(index),
        Segment::Local => push_from_segment("LCL", index),
        Segment::Pointer => push_from_address(index as u32 + 3),
        Segment::Static => {
            let variable = static_name(sc.file_base(), index);
            push_from_variable(variable.as_str())
        },
        Segment::Temp => push_from_address(index as u32 + 5),
        Segment::That => push_from_segment("THAT", index),
        Segment::This => push_from_segment("THIS", index),
    }
}

/// The code that takes the top word off the stack into the word at `address`.
pub fn pop_to_address(address: u32) -> (code: Vec<Instruction>)
    ensures
        views(code@) == pop_to_address_code(address as nat),
{
    let mut code: Vec<Instruction> = Vec::new();
    pop_d(&mut code);
    emit(&mut code, Instruction::Number(address));
    emit(&mut code, Instruction::set(Dest::M, Comp::D));
    assert(views(code@) =~= pop_to_address_code(address as nat));
    code
}

fn pop_to_variable(variable: &str) -> (code: Vec<Instruction>)
    ensures
        views(code@) == pop_to_variable_code(variable@),
{
    let mut code: Vec<Instruction> = Vec::new();
    pop_d(&mut code);
    emit(&mut code, Instruction::at(variable));
    emit(&mut code, Instruction::set(Dest::M, Comp::D));
    assert(views(code@) =~= pop_to_variable_code(variable@));
    code
}

fn pop_to_segment(base: &str, index: u16) -> (code: Vec<Instruction>)
    ensures
        views(code@) == pop_to_segment_code(base@, index as nat),
{
    let mut code: Vec<Instruction> = Vec::new();
    emit(&mut code, Instruction::at(base));
    emit(&mut code, Instruction::set(Dest::D, Comp::M));
    emit(&mut code, Instruction::Number(index as u32));
    emit(&mut code, Instruction::set(Dest::D, Comp::DPlusA));
    emit(&mut code, Instruction::at("SP"));
    emit(&mut code, Instruction::set(Dest::AM, Comp::MMinusOne));
    emit(&mut code, Instruction::set(Dest::D, Comp::DPlusM));
    emit(&mut code, Instruction::set(Dest::A, Comp::DMinusM));
    emit(&mut code, Instruction::set(Dest::M, Comp::DMinusA));
    assert(views(code@) =~= pop_to_segment_code(base@, index as nat));
    code
}

/// The code of `pop segment index`, or the reason why the segment cannot be
/// written to.
pub fn generate_pop(sc: &SourceCommand, segment: &Segment, index: u16) -> (r: Result<
    Vec<Instruction>,
    String,
>)
    ensures
        yields(r, pop_code(sc@.file_base, *segment, index)),
{
    match segment {
        Segment::Argument => Ok(pop_to_segment("ARG", index)),
        Segment::Local => Ok(pop_to_segment("LCL", index)),
        Segment::Pointer => Ok(pop_to_address(index as u32 + 3)),
        Segment::Static => {
            let variable = static_name(sc.file_base(), index);
            Ok(pop_to_variable(variable.as_str()))
        },
        Segment::Temp => Ok(pop_to_address(index as u32 + 5)),
        Segment::That => Ok(pop_to_segment("THAT", index)),
        Segment::This => Ok(pop_to_segment("THIS", index)),
        Segment::Constant => Err(String::from_str("Unable to address segment for pop: Constant")),
    }
}

/// The name that qualifies the labels of a command: the enclosing function,
/// or the translation unit where no function has been entered.
pub open spec fn scope_name(sc: SourceCommandView, scope: Option<Seq<char>>) -> Seq<char> {
    match scope {
        Some(function) => function,
        None => sc.file_base,
    }
}

/// The symbol of the label `label` declared within `scope`.
pub open spec fn scoped_label(scope: Seq<char>, label: Seq<char>) -> Seq<char> {
    scope + "$"@ + label
}

/// The symbol at which a call on line `line` within `scope` resumes.
pub open spec fn return_label(scope: Seq<char>, line: nat) -> Seq<char> {
    scope + "$ret."@ + decimal(line)
}

/// The message for a label without a name.
pub open spec fn unnamed_label_message() -> Seq<char> {
    "Label must have a name"@
}

/// Declares `symbol`.
pub open spec fn label_code(symbol: Seq<char>) -> Seq<InstructionView> {
    seq![InstructionView::Label(symbol)]
}

/// Jumps to `symbol`.
pub open spec fn goto_code(symbol: Seq<char>) -> Seq<InstructionView> {
    seq![InstructionView::at(symbol), InstructionView::branch(Comp::Zero, Jump::Always)]
}

/// Takes the top word off the stack and jumps to `symbol` unless it is zero.
pub open spec fn if_goto_code(symbol: Seq<char>) -> Seq<InstructionView> {
    pop_d_code() + seq![InstructionView::at(symbol), InstructionView::branch(Comp::D, Jump::NotEqual)]
}

/// The number of words a call puts on the stack: the return address and the
/// four pointer registers of the caller.
pub open spec fn frame_size() -> nat {
    5
}

/// Puts the address `resume` and the four pointer registers of the caller on
/// the stack: `LCL`, `ARG`, `THIS`, `THAT`, in this order.
pub open spec fn save_frame_code(resume: Seq<char>) -> Seq<InstructionView> {
    seq![InstructionView::at(resume), InstructionView::set(Dest::D, Comp::A)] + push_d_code()
        + push_symbol_code("LCL"@) + push_symbol_code("ARG"@) + push_symbol_code("THIS"@)
        + push_symbol_code("THAT"@)
}

/// Points `ARG` at the first of the `nargs` arguments, which lie below the
/// saved frame, and `LCL` at the top of the stack.
pub open spec fn reposition_code(nargs: nat) -> Seq<InstructionView> {
    seq![
        InstructionView::at("SP"@),
        InstructionView::set(Dest::D, Comp::M),
        InstructionView::Number(nargs + frame_size()),
        InstructionView::set(Dest::D, Comp::DMinusA),
        InstructionView::at("ARG"@),
        InstructionView::set(Dest::M, Comp::D),
        InstructionView::at("SP"@),
        InstructionView::set(Dest::D, Comp::M),
        InstructionView::at("LCL"@),
        InstructionView::set(Dest::M, Comp::D),
    ]
}

/// Jumps to the function `name` and declares `resume` right behind the jump.
pub open spec fn transfer_code(resume: Seq<char>, name: Seq<char>) -> Seq<InstructionView> {
    seq![
        InstructionView::at(name),
        InstructionView::branch(Comp::Zero, Jump::Always),
        InstructionView::Label(resume),
    ]
}

/// Calls the function `name` with the `nargs` top words of the stack as its
/// arguments, to resume at `resume`.
pub open spec fn call_code(resume: Seq<char>, name: Seq<char>, nargs: nat) -> Seq<InstructionView> {
    save_frame_code(resume) + reposition_code(nargs) + transfer_code(resume, name)
}

/// `count` times the code that puts zero on top of the stack.
pub open spec fn zero_locals_code(count: nat) -> Seq<InstructionView>
    decreases count,
{
    if count == 0 {
        Seq::<InstructionView>::empty()
    } else {
        zero_locals_code((count - 1) as nat) + push_constant_code(0)
    }
}

/// Declares the entry of the function `name` and puts its `nvars` local
/// words, all zero, on the stack.
pub open spec fn function_code(name: Seq<char>, nvars: nat) -> Seq<InstructionView> {
    seq![InstructionView::Label(name)] + zero_locals_code(nvars)
}

/// Restores the register `symbol` from the word below the one that `frame`
/// points to, and moves `frame` down to it.
pub open spec fn restore_code(symbol: Seq<char>) -> Seq<InstructionView> {
    seq![
        InstructionView::at("frame"@),
        InstructionView::set(Dest::AM, Comp::MMinusOne),
        InstructionView::set(Dest::D, Comp::M),
        InstructionView::at(symbol),
        InstructionView::set(Dest::M, Comp::D),
    ]
}

/// Keeps the base of the frame, which `LCL` holds, in `frame`, and the return
/// address, which lies five words below it, in `retaddr`.
pub open spec fn capture_code() -> Seq<InstructionView> {
    seq![
        InstructionView::at("LCL"@),
        InstructionView::set(Dest::D, Comp::M),
        InstructionView::at("frame"@),
        InstructionView::set(Dest::M, Comp::D),
        InstructionView::at("frame"@),
        InstructionView::set(Dest::D, Comp::M),
        InstructionView::Number(frame_size()),
        InstructionView::set(Dest::A, Comp::DMinusA),
        InstructionView::set(Dest::D, Comp::M),
        InstructionView::at("retaddr"@),
        InstructionView::set(Dest::M, Comp::D),
    ]
}

/// Takes the top word off the stack into the word that `ARG` points to, and
/// sets the stack pointer to the word above it.
pub open spec fn deliver_code() -> Seq<InstructionView> {
    pop_d_code() + seq![
        InstructionView::at("ARG"@),
        InstructionView::set(Dest::A, Comp::M),
        InstructionView::set(Dest::M, Comp::D),
        InstructionView::at("ARG"@),
        InstructionView::set(Dest::D, Comp::MPlusOne),
        InstructionView::at("SP"@),
        InstructionView::set(Dest::M, Comp::D),
    ]
}

/// Jumps to the address kept in `retaddr`.
pub open spec fn resume_code() -> Seq<InstructionView> {
    seq![
        InstructionView::at("retaddr"@),
        InstructionView::set(Dest::A, Comp::M),
        InstructionView::branch(Comp::Zero, Jump::Always),
    ]
}

/// Returns from a function: hands the top word of the stack to the caller in
/// place of the arguments, restores the caller's registers `THAT`, `THIS`,
/// `ARG` and `LCL`, in this order, and resumes the caller.
pub open spec fn return_code() -> Seq<InstructionView> {
    capture_code() + deliver_code() + restore_code("THAT"@) + restore_code("THIS"@) + restore_code(
        "ARG"@,
    ) + restore_code("LCL"@) + resume_code()
}

/// The name of the function that a program starts in.
pub open spec fn entry_name() -> Seq<char> {
    "Sys.init"@
}

/// The address at which the stack starts.
pub open spec fn stack_origin() -> nat {
    256
}

/// The prologue of a program: sets the stack pointer to the start of the
/// stack and the four segment pointers to values that address nothing, then
/// calls the entry function without arguments.
pub open spec fn bootstrap_code() -> Seq<InstructionView> {
    seq![
        InstructionView::Number(stack_origin()),
        InstructionView::set(Dest::D, Comp::A),
        InstructionView::at("SP"@),
        InstructionView::set(Dest::M, Comp::D),
        InstructionView::at("LCL"@),
        InstructionView::set(Dest::M, Comp::MinusOne),
        InstructionView::Number(2),
        InstructionView::set(Dest::D, Comp::NegA),
        InstructionView::at("ARG"@),
        InstructionView::set(Dest::M, Comp::D),
        InstructionView::Number(3),
        InstructionView::set(Dest::D, Comp::NegA),
        InstructionView::at("THIS"@),
        InstructionView::set(Dest::M, Comp::D),
        InstructionView::Number(4),
        InstructionView::set(Dest::D, Comp::NegA),
        InstructionView::at("THAT"@),
        InstructionView::set(Dest::M, Comp::D),
    ] + call_code(return_label("Bootstrap"@, 0), entry_name(), 0)
}

/// The scope of an optional function name.
pub open spec fn scope_view(scope: Option<&str>) -> Option<Seq<char>> {
    match scope {
        Some(function) => Some(function@),
        None => None,
    }
}

fn qualified_label(sc: &SourceCommand, label: &str, scope: Option<&str>) -> (r: String)
    ensures
        r@ == scoped_label(scope_name(sc@, scope_view(scope)), label@),
{
    let mut r = match scope {
        Some(function) => String::from_str(function),
        None => String::from_str(sc.file_base()),
    };
    r.append("$");
    r.append(label);
    r
}

/// The code of `if-goto label`, or the reason why the label is refused.
pub fn generate_if_goto(sc: &SourceCommand, label: &str, scope: Option<&str>) -> (r: Result<
    Vec<Instruction>,
    String,
>)
    ensures
        yields(
            r,
            if label@.len() == 0 {
                Err(unnamed_label_message())
            } else {
                Ok(if_goto_code(scoped_label(scope_name(sc@, scope_view(scope)), label@)))
            },
        ),
{
    if label.unicode_len() == 0 {
        return Err(String::from_str("Label must have a name"));
    }
    let symbol = qualified_label(sc, label, scope);
    let mut code: Vec<Instruction> = Vec::new();
    pop_d(&mut code);
    emit(&mut code, Instruction::Symbol(symbol));
    emit(&mut code, Instruction::branch(Comp::D, Jump::NotEqual));
    assert(views(code@) =~= if_goto_code(scoped_label(scope_name(sc@, scope_view(scope)), label@)));
    Ok(code)
}

/// The code of `goto label`, or the reason why the label is refused.
pub fn generate_goto(sc: &SourceCommand, label: &str, scope: Option<&str>) -> (r: Result<
    Vec<Instruction>,
    String,
>)
    ensures
        yields(
            r,
            if label@.len() == 0 {
                Err(unnamed_label_message())
            } else {
                Ok(goto_code(scoped_label(scope_name(sc@, scope_view(scope)), label@)))
            },
        ),
{
    if label.unicode_len() == 0 {
        return Err(String::from_str("Label must have a name"));
    }
    let symbol = qualified_label(sc, label, scope);
    let mut code: Vec<Instruction> = Vec::new();
    emit(&mut code, Instruction::Symbol(symbol));
    emit(&mut code, Instruction::branch(Comp::Zero, Jump::Always));
    assert(views(code@) =~= goto_code(scoped_label(scope_name(sc@, scope_view(scope)), label@)));
    Ok(code)
}

/// The code of `label label`, or the reason why the label is refused.
pub fn generate_label(sc: &SourceCommand, label: &str, scope: Option<&str>) -> (r: Result<
    Vec<Instruction>,
    String,
>)
    ensures
        yields(
            r,
            if label@.len() == 0 {
                Err(unnamed_label_message())
            } else {
                Ok(label_code(scoped_label(scope_name(sc@, scope_view(scope)), label@)))
            },
        ),
{
    if label.unicode_len() == 0 {
        return Err(String::from_str("Label must have a name"));
    }
    let symbol = qualified_label(sc, label, scope);
    let mut code: Vec<Instruction> = Vec::new();
    emit(&mut code, Instruction::Label(symbol));
    assert(views(code@) =~= label_code(scoped_label(scope_name(sc@, scope_view(scope)), label@)));
    Ok(code)
}

fn save_frame(code: &mut Vec<Instruction>, resume: &str)
    ensures
        views(final(code)@) == views(old(code)@) + save_frame_code(resume@),
{
    emit(code, Instruction::at(resume));
    emit(code, Instruction::set(Dest::D, Comp::A));
    push_d(code);
    push_symbol(code, "LCL");
    push_symbol(code, "ARG");
    push_symbol(code, "THIS");
    push_symbol(code, "THAT");
    assert(views(code@) =~= views(old(code)@) + save_frame_code(resume@));
}

fn reposition(code: &mut Vec<Instruction>, nargs: u16)
    ensures
        views(final(code)@) == views(old(code)@) + reposition_code(nargs as nat),
{
    emit(code, Instruction::at("SP"));
    emit(code, Instruction::set(Dest::D, Comp::M));
    emit(code, Instruction::Number(nargs as u32 + 5));
    emit(code, Instruction::set(Dest::D, Comp::DMinusA));
    emit(code, Instruction::at("ARG"));
    emit(code, Instruction::set(Dest::M, Comp::D));
    emit(code, Instruction::at("SP"));
    emit(code, Instruction::set(Dest::D, Comp::M));
    emit(code, Instruction::at("LCL"));
    emit(code, Instruction::set(Dest::M, Comp::D));
    assert(views(code@) =~= views(old(code)@) + reposition_code(nargs as nat));
}

fn transfer(code: &mut Vec<Instruction>, resume: &str, name: &str)
    ensures
        views(final(code)@) == views(old(code)@) + transfer_code(resume@, name@),
{
    emit(code, Instruction::at(name));
    emit(code, Instruction::branch(Comp::Zero, Jump::Always));
    emit(code, Instruction::Label(String::from_str(resume)));
    assert(views(code@) =~= views(old(code)@) + transfer_code(resume@, name@));
}

fn call_sequence(resume: &str, name: &str, nargs: u16) -> (code: Vec<Instruction>)
    ensures
        views(code@) == call_code(resume@, name@, nargs as nat),
{
    let mut code: Vec<Instruction> = Vec::new();
    save_frame(&mut code, resume);
    reposition(&mut code, nargs);
    transfer(&mut code, resume, name);
    assert(views(code@) =~= call_code(resume@, name@, nargs as nat));
    code
}

/// The code of `call name nargs`, which resumes at a label made of the
/// enclosing scope and the line of the call.
pub fn generate_call(sc: &SourceCommand, name: &str, nargs: u16, scope: Option<&str>) -> (code: Vec<
    Instruction,
>)
    ensures
        views(code@) == call_code(
            return_label(scope_name(sc@, scope_view(scope)), sc@.line),
            name@,
            nargs as nat,
        ),
{
    let mut resume = match scope {
        Some(function) => String::from_str(function),
        None => String::from_str(sc.file_base()),
    };
    resume.append("$ret.");
    let digits = decimal_string(sc.line() as u64);
    resume.append(digits.as_str());
    call_sequence(resume.as_str(), name, nargs)
}

/// The code of `function name nvars`.
pub fn generate_function(name: &str, nvars: u16) -> (code: Vec<Instruction>)
    ensures
        views(code@) == function_code(name@, nvars as nat),
{
    let mut code: Vec<Instruction> = Vec::new();
    emit(&mut code, Instruction::Label(String::from_str(name)));
    let mut i: u16 = 0;
    assert(views(code@) =~= function_code(name@, 0));
    while i < nvars
        invariant
            i <= nvars,
            views(code@) == function_code(name@, i as nat),
        decreases nvars - i,
    {
        emit(&mut code, Instruction::Number(0));
        emit(&mut code, Instruction::set(Dest::D, Comp::A));
        push_d(&mut code);
        assert(views(code@) =~= function_code(name@, (i + 1) as nat)) by {
            assert(zero_locals_code((i + 1) as nat) == zero_locals_code(i as nat)
                + push_constant_code(0));
        }
        i = i + 1;
    }
    code
}

fn restore(code: &mut Vec<Instruction>, symbol: &str)
    ensures
        views(final(code)@) == views(old(code)@) + restore_code(symbol@),
{
    emit(code, Instruction::at("frame"));
    emit(code, Instruction::set(Dest::AM, Comp::MMinusOne));
    emit(code, Instruction::set(Dest::D, Comp::M));
    emit(code, Instruction::at(symbol));
    emit(code, Instruction::set(Dest::M, Comp::D));
    assert(views(code@) =~= views(old(code)@) + restore_code(symbol@));
}

fn capture(code: &mut Vec<Instruction>)
    ensures
        views(final(code)@) == views(old(code)@) + capture_code(),
{
    emit(code, Instruction::at("LCL"));
    emit(code, Instruction::set(Dest::D, Comp::M));
    emit(code, Instruction::at("frame"));
    emit(code, Instruction::set(Dest::M, Comp::D));
    emit(code, Instruction::at("frame"));
    emit(code, Instruction::set(Dest::D, Comp::M));
    emit(code, Instruction::Number(5));
    emit(code, Instruction::set(Dest::A, Comp::DMinusA));
    emit(code, Instruction::set(Dest::D, Comp::M));
    emit(code, Instruction::at("retaddr"));
    emit(code, Instruction::set(Dest::M, Comp::D));
    assert(views(code@) =~= views(old(code)@) + capture_code());
}

fn deliver(code: &mut Vec<Instruction>)
    ensures
        views(final(code)@) == views(old(code)@) + deliver_code(),
{
    pop_d(code);
    emit(code, Instruction::at("ARG"));
    emit(code, Instruction::set(Dest::A, Comp::M));
    emit(code, Instruction::set(Dest::M, Comp::D));
    emit(code, Instruction::at("ARG"));
    emit(code, Instruction::set(Dest::D, Comp::MPlusOne));
    emit(code, Instruction::at("SP"));
    emit(code, Instruction::set(Dest::M, Comp::D));
    assert(views(code@) =~= views(old(code)@) + deliver_code());
}

/// The code of `return`.
pub fn generate_return() -> (code: Vec<Instruction>)
    ensures
        views(code@) == return_code(),
{
    let mut code: Vec<Instruction> = Vec::new();
    capture(&mut code);
    deliver(&mut code);
    restore(&mut code, "THAT");
    restore(&mut code, "THIS");
    restore(&mut code, "ARG");
    restore(&mut code, "LCL");
    emit(&mut code, Instruction::at("retaddr"));
    emit(&mut code, Instruction::set(Dest::A, Comp::M));
    emit(&mut code, Instruction::branch(Comp::Zero, Jump::Always));
    assert(views(code@) =~= return_code());
    code
}

/// The prologue of a program that has an entry function, as program text.
pub fn bootstrap() -> (r: String)
    ensures
        r@ == listing(bootstrap_code()),
{
    let mut code: Vec<Instruction> = Vec::new();
    emit(&mut code, Instruction::Number(256));
    emit(&mut code, Instruction::set(Dest::D, Comp::A));
    emit(&mut code, Instruction::at("SP"));
    emit(&mut code, Instruction::set(Dest::M, Comp::D));
    emit(&mut code, Instruction::at("LCL"));
    emit(&mut code, Instruction::set(Dest::M, Comp::MinusOne));
    emit(&mut code, Instruction::Number(2));
    emit(&mut code, Instruction::set(Dest::D, Comp::NegA));
    emit(&mut code, Instruction::at("ARG"));
    emit(&mut code, Instruction::set(Dest::M, Comp::D));
    emit(&mut code, Instruction::Number(3));
    emit(&mut code, Instruction::set(Dest::D, Comp::NegA));
    emit(&mut code, Instruction::at("THIS"));
    emit(&mut code, Instruction::set(Dest::M, Comp::D));
    emit(&mut code, Instruction::Number(4));
    emit(&mut code, Instruction::set(Dest::D, Comp::NegA));
    emit(&mut code, Instruction::at("THAT"));
    emit(&mut code, Instruction::set(Dest::M, Comp::D));
    let mut resume = String::from_str("Bootstrap");
    resume.append("$ret.");
    let digits = decimal_string(0);
    resume.append(digits.as_str());
    let mut call = call_sequence(resume.as_str(), "Sys.init", 0);
    let ghost head = views(code@);
    let ghost tail = views(call@);
    code.append(&mut call);
    assert(views(code@) =~= head + tail);
    assert(views(code@) =~= bootstrap_code());
    render_listing(&code)
}

/// The comment line that precedes the code of a command, with its newline.
pub open spec fn comment_text(sc: SourceCommandView) -> Seq<char> {
    "// "@ + sc.file_base + "["@ + decimal(sc.line) + "]: "@ + sc.source + "\n"@
}

/// The comment line that precedes the code of `source_command`.
pub fn comment(source_command: &SourceCommand) -> (r: String)
    ensures
        r@ == comment_text(source_command@),
{
    let mut r = String::from_str("// ");
    r.append(source_command.file_base());
    r.append("[");
    let digits = decimal_string(source_command.line() as u64);
    r.append(digits.as_str());
    r.append("]: ");
    r.append(source_command.source());
    r.append("\n");
    r
}

/// What is reported when the command `sc` cannot be translated for the reason
/// `message`.
pub open spec fn error_text(sc: SourceCommandView, message: Seq<char>) -> Seq<char> {
    "Code generation error at line "@ + sc.file_base + ":"@ + decimal(sc.line) + " ("@ + sc.source
        + "): "@ + message
}

fn located_error(sc: &SourceCommand, message: &str) -> (r: String)
    ensures
        r@ == error_text(sc@, message@),
{
    let mut r = String::from_str("Code generation error at line ");
    r.append(sc.file_base());
    r.append(":");
    let digits = decimal_string(sc.line() as u64);
    r.append(digits.as_str());
    r.append(" (");
    r.append(sc.source());
    r.append("): ");
    r.append(message);
    r
}

/// The code `code` of a label, a jump or a conditional jump to `label`; none
/// for a label without a name.
pub open spec fn named_code(
    label: Seq<char>,
    code: Seq<InstructionView>,
) -> Result<Seq<InstructionView>, Seq<char>> {
    if label.len() == 0 {
        Err(unnamed_label_message())
    } else {
        Ok(code)
    }
}

/// The instructions that the command `sc` translates to within `scope`, or
/// the reason why it has no translation.
pub open spec fn command_code(sc: SourceCommandView, scope: Option<Seq<char>>) -> Result<
    Seq<InstructionView>,
    Seq<char>,
> {
    let within = scope_name(sc, scope);
    match sc.command {
        CommandView::Add => Ok(add_code()),
        CommandView::And => Ok(and_code()),
        CommandView::Eq => Ok(eq_code(sc)),
        CommandView::Gt => Ok(gt_code(sc)),
        CommandView::Lt => Ok(lt_code(sc)),
        CommandView::Neg => Ok(neg_code()),
        CommandView::Not => Ok(not_code()),
        CommandView::Or => Ok(or_code()),
        CommandView::Pop { segment, index } => pop_code(sc.file_base, segment, index),
        CommandView::Push { segment, index } => Ok(push_code(sc.file_base, segment, index)),
        CommandView::Sub => Ok(sub_code()),
        CommandView::Goto(label) => named_code(label, goto_code(scoped_label(within, label))),
        CommandView::IfGoto(label) => named_code(label, if_goto_code(scoped_label(within, label))),
        CommandView::Label(label) => named_code(label, label_code(scoped_label(within, label))),
        CommandView::Call { name, nargs } => Ok(
            call_code(return_label(within, sc.line), name, nargs as nat),
        ),
        CommandView::Function { name, nvars } => Ok(function_code(name, nvars as nat)),
        CommandView::Return => Ok(return_code()),
    }
}

/// The text that the command `sc` translates to within `scope`: a comment
/// line that echoes the command, then its instructions, one line each; or
/// the report of why it has no translation.
pub open spec fn command_text(sc: SourceCommandView, scope: Option<Seq<char>>) -> Result<
    Seq<char>,
    Seq<char>,
> {
    match command_code(sc, scope) {
        Ok(code) => Ok(comment_text(sc) + listing(code)),
        Err(message) => Err(error_text(sc, message)),
    }
}

/// Whether `r` is the outcome `expected`, as text.
pub open spec fn yields_text(r: Result<String, String>, expected: Result<Seq<char>, Seq<char>>) -> bool {
    match expected {
        Ok(text) => r is Ok && r->Ok_0@ == text,
        Err(message) => r is Err && r->Err_0@ == message,
    }
}

/// Translates one command within `scope`, the innermost enclosing function
/// if there is one.
pub fn generate_code_for_command(source_command: &SourceCommand, scope: Option<&str>) -> (r: Result<
    String,
    String,
>)
    ensures
        yields_text(r, command_text(source_command@, scope_view(scope))),
{
    let code = match source_command.command() {
        Command::Add => Ok(generate_add()),
        Command::And => Ok(generate_and()),
        Command::Eq => Ok(generate_eq(source_command)),
        Command::Gt => Ok(generate_gt(source_command)),
        Command::Lt => Ok(generate_lt(source_command)),
        Command::Neg => Ok(generate_neg()),
        Command::Not => Ok(generate_not()),
        Command::Or => Ok(generate_or()),
        Command::Pop { segment, index } => generate_pop(source_command, segment, *index),
        Command::Push { segment, index } => Ok(generate_push(source_command, segment, *index)),
        Command::Sub => Ok(generate_sub()),
        Command::Goto(label) => generate_goto(source_command, label, scope),
        Command::IfGoto(label) => generate_if_goto(source_command, label, scope),
        Command::Label(label) => generate_label(source_command, label, scope),
        Command::Call { name, nargs } => Ok(generate_call(source_command, name, *nargs, scope)),
        Command::Function { name, nvars } => Ok(generate_function(name, *nvars)),
        Command::Return => Ok(generate_return()),
    };
    assert(yields(code, command_code(source_command@, scope_view(scope))));
    match code {
        Ok(code) => {
            let mut result = comment(source_command);
            let text = render_listing(&code);
            result.append(text.as_str());
            Ok(result)
        },
        Err(message) => Err(located_error(source_command, message.as_str())),
    }
}

/// Whether the command declares the function that a program starts in.
pub open spec fn is_entry(command: CommandView) -> bool {
    match command {
        CommandView::Function { name, nvars } => name == entry_name(),
        _ => false,
    }
}

/// Whether one of the commands declares the entry function.
pub open spec fn declares_entry(commands: Seq<SourceCommandView>) -> bool {
    exists|i: int| 0 <= i < commands.len() && is_entry(#[trigger] commands[i].command)
}

/// The scope of the command at index `i`: the name of the function declared
/// last at or before it, if there is one.
pub open spec fn scope_at(commands: Seq<SourceCommandView>, i: int) -> Option<Seq<char>>
    decreases i,
{
    if i < 0 || i >= commands.len() {
        None
    } else {
        match commands[i].command {
            CommandView::Function { name, nvars } => Some(name),
            _ => if i == 0 {
                None
            } else {
                scope_at(commands, i - 1)
            },
        }
    }
}

/// The text that the command at index `i` translates to, or the report of
/// why it has no translation.
pub open spec fn entry_text(commands: Seq<SourceCommandView>, i: int) -> Result<Seq<char>, Seq<char>> {
    command_text(commands[i], scope_at(commands, i))
}

/// The instructions that the command at index `i` translates to, or the
/// reason why it has no translation.
pub open spec fn entry_code(commands: Seq<SourceCommandView>, i: int) -> Result<
    Seq<InstructionView>,
    Seq<char>,
> {
    command_code(commands[i], scope_at(commands, i))
}

/// The instructions of the first `upto` commands, one after the other.
pub open spec fn code_upto(commands: Seq<SourceCommandView>, upto: nat) -> Seq<InstructionView>
    decreases upto,
{
    if upto == 0 {
        Seq::empty()
    } else {
        code_upto(commands, (upto - 1) as nat) + entry_code(commands, upto - 1)->Ok_0
    }
}

/// The instructions of the prologue where the entry function is declared,
/// none where it is not.
pub open spec fn prologue_code(commands: Seq<SourceCommandView>) -> Seq<InstructionView> {
    if declares_entry(commands) {
        bootstrap_code()
    } else {
        Seq::empty()
    }
}

/// The program that the translation of `commands` is the text of: the
/// instructions of the prologue, if one is due, and then those of each
/// command, in order.
pub open spec fn program_code(commands: Seq<SourceCommandView>) -> Seq<InstructionView> {
    prologue_code(commands) + code_upto(commands, commands.len())
}

/// The index in the program at which the instructions of the command at
/// index `i` start.
pub open spec fn command_offset(commands: Seq<SourceCommandView>, i: int) -> int {
    (prologue_code(commands).len() + code_upto(commands, i as nat).len()) as int
}

/// The blocks that precede the commands' own: the prologue where the entry
/// function is declared, nothing where it is not.
pub open spec fn prologue(commands: Seq<SourceCommandView>) -> Seq<Seq<char>> {
    if declares_entry(commands) {
        seq![listing(bootstrap_code())]
    } else {
        Seq::<Seq<char>>::empty()
    }
}

/// Whether `outcome` is the translation of `commands`: where every command
/// has a translation, the prologue, if one is due, and then the text of each
/// command in order; where not, the report for the first command that has
/// none.
pub open spec fn is_translation(
    commands: Seq<SourceCommandView>,
    outcome: Result<Seq<Seq<char>>, Seq<char>>,
) -> bool {
    match outcome {
        Ok(blocks) => {
            &&& forall|i: int| 0 <= i < commands.len() ==> (#[trigger] entry_text(commands, i)) is Ok
            &&& blocks == prologue(commands) + Seq::new(
                commands.len(),
                |i: int| entry_text(commands, i)->Ok_0,
            )
        },
        Err(report) => exists|i: int|
            {
                &&& 0 <= i < commands.len()
                &&& #[trigger] entry_text(commands, i) == Err::<Seq<char>, Seq<char>>(report)
                &&& forall|j: int| 0 <= j < i ==> (#[trigger] entry_text(commands, j)) is Ok
            },
    }
}

/// The outcome of a translation with its texts as character sequences.
pub open spec fn outcome_view(r: Result<Vec<String>, String>) -> Result<Seq<Seq<char>>, Seq<char>> {
    match r {
        Ok(blocks) => Ok(string_views(blocks@)),
        Err(report) => Err(report@),
    }
}

/// Translates a program: one block of text for each command, in order, each
/// a comment line and the command's instructions, and before them the
/// prologue where the program declares the entry function. Fails with the
/// report of the first command that has no translation.
pub fn generate_code(commands: Vec<SourceCommand>) -> (r: Result<Vec<String>, String>)
    ensures
        is_translation(command_views(commands@), outcome_view(r)),
{
    let ghost all = command_views(commands@);
    let mut scope: Vec<&str> = Vec::new();
    let mut should_bootstrap = false;
    let mut instructions: Vec<String> = Vec::new();
    let mut i: usize = 0;
    while i < commands.len()
        invariant
            i <= commands.len(),
            all == command_views(commands@),
            instructions@.len() == i,
            forall|j: int| 0 <= j < i ==> (#[trigger] entry_text(all, j)) is Ok,
            forall|j: int| 0 <= j < i ==> (#[trigger] instructions@[j])@ == entry_text(all, j)->Ok_0,
            should_bootstrap == (exists|j: int| 0 <= j < i && is_entry(#[trigger] all[j].command)),
            scope@.len() == 0 ==> scope_at(all, i - 1) is None,
            scope@.len() > 0 ==> scope_at(all, i - 1) == Some(scope@[scope@.len() - 1]@),
        decreases commands.len() - i,
    {
        let source_command = &commands[i];
        assert(source_command@ == all[i as int]);
        match source_command.command() {
            Command::Function { name, nvars } => {
                should_bootstrap = should_bootstrap || same_text(name, "Sys.init");
                scope.push(name);
            },
            _ => {},
        }
        let top = if scope.len() > 0 {
            Some(scope[scope.len() - 1])
        } else {
            None
        };
        assert(scope_view(top) == scope_at(all, i as int));
        match generate_code_for_command(source_command, top) {
            Ok(text) => {
                instructions.push(text);
            },
            Err(report) => {
                assert(entry_text(all, i as int) == Err::<Seq<char>, Seq<char>>(report@));
                return Err(report);
            },
        }
        i = i + 1;
    }
    if should_bootstrap {
        instructions.insert(0, bootstrap());
    }
    proof {
        let body = Seq::new(all.len(), |i: int| entry_text(all, i)->Ok_0);
        assert(string_views(instructions@) =~= prologue(all) + body);
    }
    Ok(instructions)
}

} // verus!
