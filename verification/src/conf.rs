//! Process-wide configuration.

use crate::decimal::{parse_usize, parsed};
use vstd::prelude::*;
use vstd::string::StringExecFns;

verus! {

/// Configuration of a running instance.
#[derive(Debug, Clone, Copy, PartialEq, Eq, Structural)]
pub struct Conf {
    /// True if the output should be verbose.
    pub verbose: bool,
}

impl Conf {
    /// The configuration a process starts with: quiet.
    pub fn new() -> (res: Self)
        ensures
            !res.verbose,
    {
        Conf { verbose: false }
    }
}

/// Sets the verbosity flag.
pub fn set_verb(conf: &mut Conf, b: bool)
    ensures
        final(conf).verbose == b,
{
    conf.verbose = b;
}

/// True if the output should be verbose.
pub fn verb(conf: &Conf) -> (res: bool)
    ensures
        res == conf.verbose,
{
    conf.verbose
}

/// Default address to serve the UI at.
pub const DEFAULT_ADDR: &'static str = "localhost";

/// Default port to serve the UI at.
pub const DEFAULT_PORT: &'static str = "7878";

/// Default directory containing the dump files.
pub const DEFAULT_DIR: &'static str = ".";

/// True if `text` writes a `usize`.
pub open spec fn is_usize(text: Seq<char>) -> bool {
    parsed(text) matches Some(value) && value <= usize::MAX
}

/// What `usize_validator` answers to a text that is not a `usize`.
pub open spec fn not_an_integer(text: Seq<char>) -> Seq<char> {
    "expected integer, found `"@ + text + "`"@
}

/// Fails if the input string is not a `usize`.
pub fn usize_validator(s: String) -> (res: Result<(), String>)
    ensures
        match res {
            Ok(_) => is_usize(s@),
            Err(message) => !is_usize(s@) && message@ == not_an_integer(s@),
        },
{
    match parse_usize(s.as_str()) {
        Some(_) => Ok(()),
        None => Err(String::from_str("expected integer, found `").concat(s.as_str()).concat("`")),
    }
}

} // verus!
