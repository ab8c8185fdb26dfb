//! The arguments of the command line.

use vstd::prelude::*;

verus! {

/// What is reported when the command line names no source.
pub open spec fn missing_argument_text() -> Seq<char> {
    "not enough arguments"@
}

/// The source that the command line names: its first argument, which stands
/// behind the name of the program.
pub fn parse_args(args: &[String]) -> (r: Result<String, &'static str>)
    ensures
        args@.len() > 1 ==> r == Ok::<String, &'static str>(args@[1]),
        args@.len() <= 1 ==> r is Err && r->Err_0@ == missing_argument_text(),
{
    if args.len() > 1 {
        Ok(args[1].clone())
    } else {
        Err("not enough arguments")
    }
}

} // verus!
