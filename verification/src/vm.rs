//! The commands of the stack machine and the reader of their textual form.

use vstd::prelude::*;
use vstd::string::*;
use crate::text::{
    before_comment, decimal, decimal_string, lines, number_error_text, parse_number, parse_u16,
    same_text, split_lines, split_whitespace, string_views, strip_prefix, texts, trim, trimmed,
    without_comment,
    without_prefix, words,
};

verus! {

/// A named region of the stack machine's memory.
#[derive(Clone, Copy, Debug, PartialEq, Eq, Structural)]
pub enum Segment {
    Argument,
    Constant,
    Local,
    Pointer,
    Static,
    Temp,
    That,
    This,
}

/// One operation of the stack machine.
#[derive(Debug)]
pub enum Command<'a> {
    Push { segment: Segment, index: u16 },
    Pop { segment: Segment, index: u16 },
    Add,
    Sub,
    Neg,
    Eq,
    Gt,
    Lt,
    And,
    Or,
    Not,
    Goto(&'a str),
    IfGoto(&'a str),
    Label(&'a str),
    Function { name: &'a str, nvars: u16 },
    Call { name: &'a str, nargs: u16 },
    Return,
}

/// A command with its names as character sequences.
pub enum CommandView {
    Push { segment: Segment, index: u16 },
    Pop { segment: Segment, index: u16 },
    Add,
    Sub,
    Neg,
    Eq,
    Gt,
    Lt,
    And,
    Or,
    Not,
    Goto(Seq<char>),
    IfGoto(Seq<char>),
    Label(Seq<char>),
    Function { name: Seq<char>, nvars: u16 },
    Call { name: Seq<char>, nargs: u16 },
    Return,
}

impl<'a> View for Command<'a> {
    type V = CommandView;

    open spec fn view(&self) -> CommandView {
        match self {
            Command::Push { segment, index } => CommandView::Push { segment: *segment, index: *index },
            Command::Pop { segment, index } => CommandView::Pop { segment: *segment, index: *index },
            Command::Add => CommandView::Add,
            Command::Sub => CommandView::Sub,
            Command::Neg => CommandView::Neg,
            Command::Eq => CommandView::Eq,
            Command::Gt => CommandView::Gt,
            Command::Lt => CommandView::Lt,
            Command::And => CommandView::And,
            Command::Or => CommandView::Or,
            Command::Not => CommandView::Not,
            Command::Goto(name) => CommandView::Goto(name@),
            Command::IfGoto(name) => CommandView::IfGoto(name@),
            Command::Label(name) => CommandView::Label(name@),
            Command::Function { name, nvars } => CommandView::Function { name: name@, nvars: *nvars },
            Command::Call { name, nargs } => CommandView::Call { name: name@, nargs: *nargs },
            Command::Return => CommandView::Return,
        }
    }
}

/// A command together with the place it was read from.
#[derive(Debug)]
pub struct SourceCommand<'a> {
    line: usize,
    command: Command<'a>,
    source: &'a str,
    file_base: &'a str,
}

/// A source command with its texts as character sequences.
pub struct SourceCommandView {
    /// The line of the command within its translation unit, counted from 0.
    pub line: nat,
    pub command: CommandView,
    /// The text of the command as it was written.
    pub source: Seq<char>,
    /// The name of the translation unit.
    pub file_base: Seq<char>,
}

impl<'a> View for SourceCommand<'a> {
    type V = SourceCommandView;

    closed spec fn view(&self) -> SourceCommandView {
        SourceCommandView {
            line: self.line as nat,
            command: self.command@,
            source: self.source@,
            file_base: self.file_base@,
        }
    }
}

impl<'a> SourceCommand<'a> {
    /// A command of the translation unit `file_base`, written as `source` on
    /// line `line`.
    pub fn new(file_base: &'a str, line: usize, source: &'a str, command: Command<'a>) -> (r: Self)
        ensures
            r@ == (SourceCommandView {
                line: line as nat,
                command: command@,
                source: source@,
                file_base: file_base@,
            }),
    {
        SourceCommand { line, command, source, file_base }
    }

    pub fn line(&self) -> (r: usize)
        ensures
            r == self@.line,
    {
        self.line
    }

    pub fn source(&self) -> (r: &str)
        ensures
            r@ == self@.source,
    {
        self.source
    }

    pub fn command(&self) -> (r: &Command<'a>)
        ensures
            r@ == self@.command,
    {
        &self.command
    }

    pub fn file_base(&self) -> (r: &str)
        ensures
            r@ == self@.file_base,
    {
        self.file_base
    }
}

/// The segment that `s` names, or the report that it names none.
pub open spec fn spec_parse_segment(s: Seq<char>) -> Result<Segment, Seq<char>> {
    if s == "argument"@ {
        Ok(Segment::Argument)
    } else if s == "constant"@ {
        Ok(Segment::Constant)
    } else if s == "local"@ {
        Ok(Segment::Local)
    } else if s == "pointer"@ {
        Ok(Segment::Pointer)
    } else if s == "static"@ {
        Ok(Segment::Static)
    } else if s == "temp"@ {
        Ok(Segment::Temp)
    } else if s == "that"@ {
        Ok(Segment::That)
    } else if s == "this"@ {
        Ok(Segment::This)
    } else {
        Err("Unknown segment name: '"@ + s + "'"@)
    }
}

impl Segment {
    /// Reads the name of a segment.
    pub fn from_str(s: &str) -> (r: Result<Segment, String>)
        ensures
            match spec_parse_segment(s@) {
                Ok(segment) => r == Ok::<Segment, String>(segment),
                Err(report) => r is Err && r->Err_0@ == report,
            },
    {
        if same_text(s, "argument") {
            Ok(Segment::Argument)
        } else if same_text(s, "constant") {
            Ok(Segment::Constant)
        } else if same_text(s, "local") {
            Ok(Segment::Local)
        } else if same_text(s, "pointer") {
            Ok(Segment::Pointer)
        } else if same_text(s, "static") {
            Ok(Segment::Static)
        } else if same_text(s, "temp") {
            Ok(Segment::Temp)
        } else if same_text(s, "that") {
            Ok(Segment::That)
        } else if same_text(s, "this") {
            Ok(Segment::This)
        } else {
            let mut report = String::from_str("Unknown segment name: '");
            report.append(s);
            report.append("'");
            Err(report)
        }
    }
}

/// The name and the number that `s` consists of: two words, the second a
/// numeral.
pub open spec fn spec_parse_label_and_n(s: Seq<char>) -> Result<(Seq<char>, u16), Seq<char>> {
    let parts = words(s);
    if parts.len() == 2 {
        match parse_number(parts[1]) {
            Ok(n) => Ok((parts[0], n)),
            Err(e) => Err("Error parsing index: "@ + number_error_text(e)),
        }
    } else {
        Err("expected format '<string> <int>'"@)
    }
}

/// The segment and the index that `s` consists of.
pub open spec fn spec_parse_stack_arguments(s: Seq<char>) -> Result<(Segment, u16), Seq<char>> {
    match spec_parse_label_and_n(s) {
        Ok((label, n)) => match spec_parse_segment(label) {
            Ok(segment) => Ok((segment, n)),
            Err(report) => Err(report),
        },
        Err(report) => Err(report),
    }
}

/// The label name that `s` holds between white space.
pub open spec fn spec_parse_label_name(s: Seq<char>) -> Result<Seq<char>, Seq<char>> {
    let name = trimmed(s);
    if name.len() == 0 {
        Err("Label must have a name"@)
    } else {
        Ok(name)
    }
}

pub open spec fn spec_parse_push(s: Seq<char>) -> Result<CommandView, Seq<char>> {
    match spec_parse_stack_arguments(s) {
        Ok((segment, index)) => Ok(CommandView::Push { segment, index }),
        Err(report) => Err(report),
    }
}

pub open spec fn spec_parse_pop(s: Seq<char>) -> Result<CommandView, Seq<char>> {
    match spec_parse_stack_arguments(s) {
        Ok((segment, index)) => Ok(CommandView::Pop { segment, index }),
        Err(report) => Err(report),
    }
}

pub open spec fn spec_parse_label(s: Seq<char>) -> Result<CommandView, Seq<char>> {
    match spec_parse_label_name(s) {
        Ok(name) => Ok(CommandView::Label(name)),
        Err(report) => Err(report),
    }
}

pub open spec fn spec_parse_goto(s: Seq<char>) -> Result<CommandView, Seq<char>> {
    match spec_parse_label_name(s) {
        Ok(name) => Ok(CommandView::Goto(name)),
        Err(report) => Err(report),
    }
}

pub open spec fn spec_parse_if_goto(s: Seq<char>) -> Result<CommandView, Seq<char>> {
    match spec_parse_label_name(s) {
        Ok(name) => Ok(CommandView::IfGoto(name)),
        Err(report) => Err(report),
    }
}

pub open spec fn spec_parse_function(s: Seq<char>) -> Result<CommandView, Seq<char>> {
    match spec_parse_label_and_n(s) {
        Ok((name, nvars)) => Ok(CommandView::Function { name, nvars }),
        Err(report) => Err(report),
    }
}

pub open spec fn spec_parse_call(s: Seq<char>) -> Result<CommandView, Seq<char>> {
    match spec_parse_label_and_n(s) {
        Ok((name, nargs)) => Ok(CommandView::Call { name, nargs }),
        Err(report) => Err(report),
    }
}

/// The command that is written as exactly `line`, if there is one.
pub open spec fn spec_parse_plain(line: Seq<char>) -> Result<CommandView, Seq<char>> {
    if line == "add"@ {
        Ok(CommandView::Add)
    } else if line == "sub"@ {
        Ok(CommandView::Sub)
    } else if line == "neg"@ {
        Ok(CommandView::Neg)
    } else if line == "eq"@ {
        Ok(CommandView::Eq)
    } else if line == "lt"@ {
        Ok(CommandView::Lt)
    } else if line == "gt"@ {
        Ok(CommandView::Gt)
    } else if line == "and"@ {
        Ok(CommandView::And)
    } else if line == "or"@ {
        Ok(CommandView::Or)
    } else if line == "not"@ {
        Ok(CommandView::Not)
    } else if line == "return"@ {
        Ok(CommandView::Return)
    } else {
        Err("Parser not implemented for '"@ + line + "'"@)
    }
}

/// The command that `line` is the text of: a keyword with what follows it,
/// or one of the plain commands; else the report of what is wrong with it.
pub open spec fn spec_parse_command(line: Seq<char>) -> Result<CommandView, Seq<char>> {
    if let Some(rest) = without_prefix(line, "push"@) {
        spec_parse_push(trimmed(rest))
    } else if let Some(rest) = without_prefix(line, "pop"@) {
        spec_parse_pop(trimmed(rest))
    } else if let Some(rest) = without_prefix(line, "label"@) {
        spec_parse_label(trimmed(rest))
    } else if let Some(rest) = without_prefix(line, "if-goto"@) {
        spec_parse_if_goto(rest)
    } else if let Some(rest) = without_prefix(line, "goto"@) {
        spec_parse_goto(rest)
    } else if let Some(rest) = without_prefix(line, "function"@) {
        spec_parse_function(rest)
    } else if let Some(rest) = without_prefix(line, "call"@) {
        spec_parse_call(rest)
    } else {
        spec_parse_plain(line)
    }
}

/// Whether `r` is the parser's outcome `expected`.
pub open spec fn reads(r: Result<Command, String>, expected: Result<CommandView, Seq<char>>) -> bool {
    match expected {
        Ok(command) => r is Ok && r->Ok_0@ == command,
        Err(report) => r is Err && r->Err_0@ == report,
    }
}

impl<'a> Command<'a> {
    /// Reads a command from a line without comment and without white space
    /// around it.
    pub fn from_str(line: &'a str) -> (r: Result<Command<'a>, String>)
        ensures
            reads(r, spec_parse_command(line@)),
    {
        if let Some(s) = strip_prefix(line, "push") {
            Command::parse_push(trim(s))
        } else if let Some(s) = strip_prefix(line, "pop") {
            Command::parse_pop(trim(s))
        } else if let Some(s) = strip_prefix(line, "label") {
            Command::parse_label(trim(s))
        } else if let Some(s) = strip_prefix(line, "if-goto") {
            Command::parse_if_goto(s)
        } else if let Some(s) = strip_prefix(line, "goto") {
            Command::parse_goto(s)
        } else if let Some(s) = strip_prefix(line, "function") {
            Command::parse_function(s)
        } else if let Some(s) = strip_prefix(line, "call") {
            Command::parse_call(s)
        } else if same_text(line, "add") {
            Ok(Command::Add)
        } else if same_text(line, "sub") {
            Ok(Command::Sub)
        } else if same_text(line, "neg") {
            Ok(Command::Neg)
        } else if same_text(line, "eq") {
            Ok(Command::Eq)
        } else if same_text(line, "lt") {
            Ok(Command::Lt)
        } else if same_text(line, "gt") {
            Ok(Command::Gt)
        } else if same_text(line, "and") {
            Ok(Command::And)
        } else if same_text(line, "or") {
            Ok(Command::Or)
        } else if same_text(line, "not") {
            Ok(Command::Not)
        } else if same_text(line, "return") {
            Ok(Command::Return)
        } else {
            let mut report = String::from_str("Parser not implemented for '");
            report.append(line);
            report.append("'");
            Err(report)
        }
    }

    /// Reads what follows `label`.
    pub fn parse_label(s: &'a str) -> (r: Result<Command<'a>, String>)
        ensures
            reads(r, spec_parse_label(s@)),
    {
        match Self::parse_label_name(s) {
            Ok(name) => Ok(Command::Label(name)),
            Err(e) => Err(e),
        }
    }

    /// Reads what follows `if-goto`.
    pub fn parse_if_goto(s: &'a str) -> (r: Result<Command<'a>, String>)
        ensures
            reads(r, spec_parse_if_goto(s@)),
    {
        match Self::parse_label_name(s) {
            Ok(name) => Ok(Command::IfGoto(name)),
            Err(e) => Err(e),
        }
    }

    /// Reads what follows `goto`.
    pub fn parse_goto(s: &'a str) -> (r: Result<Command<'a>, String>)
        ensures
            reads(r, spec_parse_goto(s@)),
    {
        match Self::parse_label_name(s) {
            Ok(name) => Ok(Command::Goto(name)),
            Err(e) => Err(e),
        }
    }

    /// Reads what follows `function`.
    pub fn parse_function(s: &'a str) -> (r: Result<Command<'a>, String>)
        ensures
            reads(r, spec_parse_function(s@)),
    {
        match Self::parse_label_and_n(s) {
            Ok((name, n)) => Ok(Command::Function { name: name, nvars: n }),
            Err(e) => Err(e),
        }
    }

    /// Reads what follows `call`.
    pub fn parse_call(s: &'a str) -> (r: Result<Command<'a>, String>)
        ensures
            reads(r, spec_parse_call(s@)),
    {
        match Self::parse_label_and_n(s) {
            Ok((name, n)) => Ok(Command::Call { name: name, nargs: n }),
            Err(e) => Err(e),
        }
    }

    /// Reads the name of a label.
    pub fn parse_label_name(s: &'a str) -> (r: Result<&'a str, String>)
        ensures
            match spec_parse_label_name(s@) {
                Ok(name) => r is Ok && r->Ok_0@ == name,
                Err(report) => r is Err && r->Err_0@ == report,
            },
    {
        let s = trim(s);
        if s.unicode_len() == 0 {
            Err(String::from_str("Label must have a name"))
        } else {
            Ok(s)
        }
    }

    /// Reads what follows `pop`.
    pub fn parse_pop(s: &'a str) -> (r: Result<Command<'a>, String>)
        ensures
            reads(r, spec_parse_pop(s@)),
    {
        match Command::parse_stack_arguments(s) {
            Ok((segment, index)) => Ok(Command::Pop { segment: segment, index: index }),
            Err(e) => Err(e),
        }
    }

    /// Reads what follows `push`.
    pub fn parse_push(s: &'a str) -> (r: Result<Command<'a>, String>)
        ensures
            reads(r, spec_parse_push(s@)),
    {
        match Command::parse_stack_arguments(s) {
            Ok((segment, index)) => Ok(Command::Push { segment: segment, index: index }),
            Err(e) => Err(e),
        }
    }

    /// Reads a segment and an index.
    pub fn parse_stack_arguments(s: &str) -> (r: Result<(Segment, u16), String>)
        ensures
            match spec_parse_stack_arguments(s@) {
                Ok(pair) => r == Ok::<(Segment, u16), String>(pair),
                Err(report) => r is Err && r->Err_0@ == report,
            },
    {
        match Self::parse_label_and_n(s) {
            Ok((label, n)) => {
                match Segment::from_str(label) {
                    Ok(segment) => Ok((segment, n)),
                    Err(e) => Err(e),
                }
            },
            Err(e) => Err(e),
        }
    }

    /// Reads a name and a number.
    pub fn parse_label_and_n<'b>(s: &'b str) -> (r: Result<(&'b str, u16), String>)
        ensures
            match spec_parse_label_and_n(s@) {
                Ok((name, n)) => r is Ok && r->Ok_0.0@ == name && r->Ok_0.1 == n,
                Err(report) => r is Err && r->Err_0@ == report,
            },
    {
        let parts = split_whitespace(s);
        if parts.len() == 2 {
            let name = parts[0];
            assert(texts(parts@)[0] == name@);
            assert(texts(parts@)[1] == parts@[1]@);
            match parse_u16(parts[1]) {
                Ok(index) => Ok((name, index)),
                Err(e) => {
                    let mut report = String::from_str("Error parsing index: ");
                    report.append(e.message());
                    Err(report)
                },
            }
        } else {
            Err(String::from_str("expected format '<string> <int>'"))
        }
    }
}

/// The views of a list of source commands, in order.
pub open spec fn command_views(commands: Seq<SourceCommand>) -> Seq<SourceCommandView> {
    Seq::new(commands.len(), |i: int| commands[i]@)
}

/// What a line holds besides its comment and the white space around it, if
/// anything.
pub open spec fn spec_strip_comments(line: Seq<char>) -> Option<Seq<char>> {
    let code = trimmed(without_comment(line));
    if code.len() == 0 {
        None
    } else {
        Some(code)
    }
}

/// The part of `line` that is neither comment nor white space around it, if
/// there is one.
pub fn strip_comments<'a>(line: &'a str) -> (r: Option<&'a str>)
    ensures
        match spec_strip_comments(line@) {
            Some(code) => r is Some && r->Some_0@ == code,
            None => r is None,
        },
{
    let code = trim(before_comment(line));
    if code.unicode_len() == 0 {
        None
    } else {
        Some(code)
    }
}

/// What is reported when line `i` of unit `file_base`, which reads `source`,
/// is no command for the reason `report`.
pub open spec fn parse_error_text(
    file_base: Seq<char>,
    i: nat,
    source: Seq<char>,
    report: Seq<char>,
) -> Seq<char> {
    "Parse error at line "@ + file_base + ":"@ + decimal(i) + " ("@ + source + "): "@ + report
}

/// The command that line `i` of unit `file_base` holds, where `source` is
/// that line without comment and white space around it.
pub open spec fn spec_parse_source_command(file_base: Seq<char>, i: nat, source: Seq<char>) -> Result<
    SourceCommandView,
    Seq<char>,
> {
    match spec_parse_command(source) {
        Ok(command) => Ok(SourceCommandView { line: i, command, source, file_base }),
        Err(report) => Err(parse_error_text(file_base, i, source, report)),
    }
}

/// The outcome of reading one line, with its texts as character sequences.
pub open spec fn parse_view(r: Result<SourceCommand, String>) -> Result<SourceCommandView, Seq<char>> {
    match r {
        Ok(command) => Ok(command@),
        Err(report) => Err(report@),
    }
}

/// The outcomes of reading a list of lines, in order.
pub open spec fn parse_views(results: Seq<Result<SourceCommand, String>>) -> Seq<
    Result<SourceCommandView, Seq<char>>,
> {
    Seq::new(results.len(), |i: int| parse_view(results[i]))
}

/// Reads the command on line `i` of unit `file_base`.
pub fn parse_source_command<'a>(file_base: &'a str, i: usize, source: &'a str) -> (r: Result<
    SourceCommand<'a>,
    String,
>)
    ensures
        parse_view(r) == spec_parse_source_command(file_base@, i as nat, source@),
{
    match Command::from_str(source) {
        Ok(command) => Ok(
            SourceCommand { file_base: file_base, line: i, command: command, source: source },
        ),
        Err(e) => {
            let mut report = String::from_str("Parse error at line ");
            report.append(file_base);
            report.append(":");
            let digits = decimal_string(i as u64);
            report.append(digits.as_str());
            report.append(" (");
            report.append(source);
            report.append("): ");
            report.append(e.as_str());
            Err(report)
        },
    }
}

/// The outcomes of reading the first `upto` of the lines `all` of unit
/// `file_base`: one for each line that holds more than comment and white
/// space, in order, each under the number of its line.
pub open spec fn spec_parse_lines(file_base: Seq<char>, all: Seq<Seq<char>>, upto: nat) -> Seq<
    Result<SourceCommandView, Seq<char>>,
>
    decreases upto,
{
    if upto == 0 {
        Seq::empty()
    } else {
        let before = spec_parse_lines(file_base, all, (upto - 1) as nat);
        match spec_strip_comments(all[upto - 1]) {
            Some(code) => before.push(spec_parse_source_command(file_base, (upto - 1) as nat, code)),
            None => before,
        }
    }
}

/// The outcomes of reading the text `source` of unit `file_base`.
pub open spec fn spec_parse_source(file_base: Seq<char>, source: Seq<char>) -> Seq<
    Result<SourceCommandView, Seq<char>>,
> {
    spec_parse_lines(file_base, lines(source), lines(source).len())
}

/// Reads the text of one translation unit: a command or a report for each
/// line that holds more than comment and white space, in order.
pub fn parse_source<'a>(file_base: &'a str, source: &'a str) -> (results: Vec<
    Result<SourceCommand<'a>, String>,
>)
    ensures
        parse_views(results@) == spec_parse_source(file_base@, source@),
{
    let all = split_lines(source);
    let mut results: Vec<Result<SourceCommand<'a>, String>> = Vec::new();
    let mut i: usize = 0;
    assert(parse_views(results@) =~= spec_parse_lines(file_base@, lines(source@), 0));
    while i < all.len()
        invariant
            i <= all.len(),
            texts(all@) == lines(source@),
            parse_views(results@) == spec_parse_lines(file_base@, lines(source@), i as nat),
        decreases all.len() - i,
    {
        assert(texts(all@)[i as int] == all@[i as int]@);
        match strip_comments(all[i]) {
            Some(code) => {
                let ghost before = parse_views(results@);
                let r = parse_source_command(file_base, i, code);
                results.push(r);
                assert(parse_views(results@) =~= before.push(parse_view(r)));
            },
            None => {},
        }
        i = i + 1;
    }
    results
}

/// The outcomes of reading the first `upto` of the translation units
/// `sources`, each a name and a text: those of each unit, in the order of the
/// units.
pub open spec fn spec_parse_sources(sources: Seq<(Seq<char>, Seq<char>)>, upto: nat) -> Seq<
    Result<SourceCommandView, Seq<char>>,
>
    decreases upto,
{
    if upto == 0 {
        Seq::empty()
    } else {
        spec_parse_sources(sources, (upto - 1) as nat) + spec_parse_source(
            sources[upto - 1].0,
            sources[upto - 1].1,
        )
    }
}

/// The names and texts of a list of translation units, as character
/// sequences.
pub open spec fn source_views(sources: Seq<(String, String)>) -> Seq<(Seq<char>, Seq<char>)> {
    Seq::new(sources.len(), |i: int| (sources[i].0@, sources[i].1@))
}

/// Reads the texts of several translation units, each given as its name and
/// its text, one after the other.
pub fn parse_sources<'a>(sources: &'a Vec<(String, String)>) -> (results: Vec<
    Result<SourceCommand<'a>, String>,
>)
    ensures
        parse_views(results@) == spec_parse_sources(source_views(sources@), sources@.len()),
{
    let mut results: Vec<Result<SourceCommand<'a>, String>> = Vec::new();
    let mut i: usize = 0;
    assert(parse_views(results@) =~= spec_parse_sources(source_views(sources@), 0));
    while i < sources.len()
        invariant
            i <= sources.len(),
            parse_views(results@) == spec_parse_sources(source_views(sources@), i as nat),
        decreases sources.len() - i,
    {
        let unit = &sources[i];
        let mut part = parse_source(unit.0.as_str(), unit.1.as_str());
        let ghost before = parse_views(results@);
        let ghost added = parse_views(part@);
        results.append(&mut part);
        assert(parse_views(results@) =~= before + added);
        i = i + 1;
    }
    results
}

/// The reports among the outcomes `results`, in order.
pub open spec fn reports_of(results: Seq<Result<SourceCommandView, Seq<char>>>) -> Seq<Seq<char>>
    decreases results.len(),
{
    if results.len() == 0 {
        Seq::empty()
    } else {
        match results.last() {
            Ok(command) => reports_of(results.drop_last()),
            Err(report) => reports_of(results.drop_last()).push(report),
        }
    }
}

/// The commands among the outcomes `results`, in order.
pub open spec fn commands_of(results: Seq<Result<SourceCommandView, Seq<char>>>) -> Seq<
    SourceCommandView,
>
    decreases results.len(),
{
    if results.len() == 0 {
        Seq::empty()
    } else {
        match results.last() {
            Ok(command) => commands_of(results.drop_last()).push(command),
            Err(report) => commands_of(results.drop_last()),
        }
    }
}

/// Parts the outcomes of reading a program: all its commands where every
/// line was read, and the reports of all the lines that were not where some
/// were not.
pub fn extract_errors<'a>(parse_results: Vec<Result<SourceCommand<'a>, String>>) -> (r: Result<
    Vec<SourceCommand<'a>>,
    Vec<String>,
>)
    ensures
        match r {
            Ok(commands) => reports_of(parse_views(parse_results@)).len() == 0 && command_views(
                commands@,
            ) == commands_of(parse_views(parse_results@)),
            Err(reports) => reports@.len() > 0 && string_views(reports@) == reports_of(
                parse_views(parse_results@),
            ),
        },
{
    let ghost all = parse_views(parse_results@);
    let mut reports: Vec<String> = Vec::new();
    let mut parsed_commands: Vec<SourceCommand<'a>> = Vec::new();
    assert(all.take(0) =~= Seq::empty());
    for result in it: parse_results
        invariant
            all == parse_views(parse_results@),
            it.seq() == parse_results@,
            string_views(reports@) == reports_of(all.take(it.index() as int)),
            command_views(parsed_commands@) == commands_of(all.take(it.index() as int)),
    {
        let ghost k = it.index() as int;
        let ghost before_reports = string_views(reports@);
        let ghost before_commands = command_views(parsed_commands@);
        assert(all.take(k + 1).drop_last() =~= all.take(k));
        assert(all.take(k + 1).last() == parse_view(result));
        match result {
            Ok(c) => {
                parsed_commands.push(c);
                assert(command_views(parsed_commands@) =~= before_commands.push(c@));
            },
            Err(e) => {
                reports.push(e);
                assert(string_views(reports@) =~= before_reports.push(e@));
            },
        }
    }
    assert(all.take(parse_results@.len() as int) =~= all);
    if reports.len() > 0 {
        Err(reports)
    } else {
        Ok(parsed_commands)
    }
}

/// The sentence that sums up `count` lines that could not be read.
pub open spec fn error_summary_text(count: nat) -> Seq<char> {
    "Parse errors found: "@ + decimal(count)
}

/// The sentence that sums up `count` lines that could not be read.
pub fn error_summary(count: usize) -> (r: String)
    ensures
        r@ == error_summary_text(count as nat),
{
    let mut r = String::from_str("Parse errors found: ");
    let digits = decimal_string(count as u64);
    r.append(digits.as_str());
    r
}

} // verus!
