use vstd::prelude::*;

pub mod error;
pub mod tokenizer;
pub mod resolve;
pub mod builtin;

pub use builtin::{handle_builtin_commands, builtin_kind, Builtin, BuiltinAction, DEFAULT_CD_TARGET};
pub use error::{check_exit_status, ShellError};
pub use resolve::{build_command, join_path, lookup_executable, split_search_path};

verus! {

/// The largest number of tokens a line may have: the command and up to 100 arguments.
pub const MAX_TOKENS: usize = 101;

/// Whether a token sequence may be dispatched, with a message for the user when it may
/// not. An empty sequence is refused silently (empty message); one longer than
/// `MAX_TOKENS` is refused with an explanation.
pub fn is_user_input_valid(tokens: &Vec<String>) -> (r: (bool, &'static str))
    ensures
        r.0 == (1 <= tokens.len() <= MAX_TOKENS),
        tokens.len() > MAX_TOKENS ==> r.1@ == "Shell doesn't support more than 100 arguments."@,
        tokens.len() <= MAX_TOKENS ==> r.1@ == ""@,
{
    if tokens.len() == 0 {
        (false, "")
    } else if tokens.len() > MAX_TOKENS {
        (false, "Shell doesn't support more than 100 arguments.")
    } else {
        (true, "")
    }
}

} // verus!
