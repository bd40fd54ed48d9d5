use vstd::prelude::*;
use crate::error::ShellError;
use crate::resolve::oracle_is;

verus! {

/// Where `cd` goes when it is given no target.
pub const DEFAULT_CD_TARGET: &'static str = "/home";

/// The commands that the interpreter carries out itself.
#[derive(Debug, Clone, Copy, PartialEq, Eq, Structural)]
pub enum Builtin {
    Cd,
    Exit,
}

/// What the interpreter has to do for a builtin command.
#[derive(Debug, Clone, PartialEq, Eq)]
pub enum BuiltinAction {
    /// End the process with status 0.
    Exit,
    /// Make the given path the working directory.
    ChangeDir(String),
}

impl BuiltinAction {
    /// The directory this action moves to, if it moves at all.
    pub open spec fn target(&self) -> Option<Seq<char>> {
        match self {
            BuiltinAction::Exit => None,
            BuiltinAction::ChangeDir(d) => Some(d@),
        }
    }
}

/// The builtin that a command name stands for, by exact match.
pub open spec fn builtin_of(name: Seq<char>) -> Option<Builtin> {
    if name == seq!['c', 'd'] {
        Some(Builtin::Cd)
    } else if name == seq!['e', 'x', 'i', 't'] {
        Some(Builtin::Exit)
    } else {
        None
    }
}

/// Where `cd` with arguments `args` goes, when `is_dir` tells directories apart: the
/// default target with no argument, the one argument where it is a directory, and an
/// error otherwise.
pub open spec fn cd_outcome(
    args: Seq<Seq<char>>,
    default_dir: Seq<char>,
    is_dir: spec_fn(Seq<char>) -> bool,
) -> Result<Seq<char>, ShellError> {
    if args.len() == 0 {
        Ok(default_dir)
    } else if args.len() == 1 {
        if is_dir(args[0]) {
            Ok(args[0])
        } else {
            Err(ShellError::CdInvalidPath)
        }
    } else {
        Err(ShellError::CdTooManyArguments)
    }
}

/// Recognises a builtin command name.
pub fn builtin_kind(name: &String) -> (r: Option<Builtin>)
    ensures
        r == builtin_of(name@),
{
    let cd = String::from_str("cd");
    let exit = String::from_str("exit");
    proof {
        reveal_strlit("cd");
        reveal_strlit("exit");
        assert("cd"@ =~= seq!['c', 'd']);
        assert("exit"@ =~= seq!['e', 'x', 'i', 't']);
    }
    if *name == cd {
        Some(Builtin::Cd)
    } else if *name == exit {
        Some(Builtin::Exit)
    } else {
        None
    }
}

/// Decides what a builtin command does.
///
/// Returns `Ok(None)` when the first token names no builtin, so that the command is run
/// as a program. `exit` asks to end the process. `cd` goes to `default_dir` with no
/// argument, to its one argument when `is_dir` accepts it (else `CdInvalidPath`), and
/// fails with `CdTooManyArguments` when given more than one; a failed `cd` moves nowhere.
pub fn handle_builtin_commands<F: Fn(&String) -> bool>(
    tokens: &Vec<String>,
    default_dir: &str,
    is_dir: F,
) -> (r: Result<Option<BuiltinAction>, ShellError>)
    requires
        tokens.len() >= 1,
        forall|s: &String| #[trigger] is_dir.requires((s,)),
    ensures
        builtin_of(tokens@[0]@) is None ==> r == Ok::<Option<BuiltinAction>, ShellError>(None),
        builtin_of(tokens@[0]@) == Some(Builtin::Exit) ==> r == Ok::<Option<BuiltinAction>, ShellError>(
            Some(BuiltinAction::Exit),
        ),
        builtin_of(tokens@[0]@) == Some(Builtin::Cd) ==> {
            &&& r matches Ok(a) ==> (a matches Some(act) && act.target() is Some)
            &&& tokens.len() == 1 ==> (r matches Ok(Some(act)) && act.target() == Some(default_dir@))
            &&& tokens.len() > 2 ==> r == Err::<Option<BuiltinAction>, ShellError>(
                ShellError::CdTooManyArguments,
            )
            &&& forall|d: spec_fn(Seq<char>) -> bool| #[trigger] oracle_is(is_dir, d) ==>
                match cd_outcome(tokens.deep_view().drop_first(), default_dir@, d) {
                    Ok(t) => (r matches Ok(Some(act)) && act.target() == Some(t)),
                    Err(e) => r == Err::<Option<BuiltinAction>, ShellError>(e),
                }
        },
{
    let ghost args = tokens.deep_view().drop_first();
    match builtin_kind(&tokens[0]) {
        None => Ok(None),
        Some(Builtin::Exit) => Ok(Some(BuiltinAction::Exit)),
        Some(Builtin::Cd) => {
            if tokens.len() == 1 {
                Ok(Some(BuiltinAction::ChangeDir(String::from_str(default_dir))))
            } else if tokens.len() == 2 {
                assert(args[0] == tokens@[1]@);
                if is_dir(&tokens[1]) {
                    Ok(Some(BuiltinAction::ChangeDir(tokens[1].clone())))
                } else {
                    Err(ShellError::CdInvalidPath)
                }
            } else {
                Err(ShellError::CdTooManyArguments)
            }
        },
    }
}

/// `cd` into something that is not a directory fails and moves nowhere.
pub proof fn lemma_cd_into_non_directory_fails(
    target: Seq<char>,
    default_dir: Seq<char>,
    is_dir: spec_fn(Seq<char>) -> bool,
)
    requires
        !is_dir(target),
    ensures
        cd_outcome(seq![target], default_dir, is_dir) == Err::<Seq<char>, ShellError>(
            ShellError::CdInvalidPath,
        ),
{
}

/// `cd` with two or more targets fails with its own error and moves nowhere, whatever
/// the targets are.
pub proof fn lemma_cd_with_many_targets_fails(
    args: Seq<Seq<char>>,
    default_dir: Seq<char>,
    is_dir: spec_fn(Seq<char>) -> bool,
)
    requires
        args.len() >= 2,
    ensures
        cd_outcome(args, default_dir, is_dir) == Err::<Seq<char>, ShellError>(
            ShellError::CdTooManyArguments,
        ),
{
}

} // verus!
