use vstd::prelude::*;
use crate::error::ShellError;

verus! {

/// The pieces of a search-path value between its `:` separators. A value without
/// separators, the empty value included, is one piece.
pub open spec fn split_colons(s: Seq<char>) -> Seq<Seq<char>>
    decreases s.len(),
{
    if s.len() == 0 {
        seq![Seq::<char>::empty()]
    } else {
        let prev = split_colons(s.drop_last());
        if s.last() == ':' {
            prev.push(Seq::empty())
        } else {
            prev.drop_last().push(prev.last().push(s.last()))
        }
    }
}

/// `name` joined onto `dir`, as a path: an absolute `name` replaces `dir`, and a `/` is put
/// between the two only where `dir` is not empty and does not already end in one.
pub open spec fn join(dir: Seq<char>, name: Seq<char>) -> Seq<char> {
    if name.len() > 0 && name[0] == '/' {
        name
    } else if dir.len() == 0 || dir.last() == '/' {
        dir + name
    } else {
        dir + seq!['/'] + name
    }
}

/// The paths tried for a command name, one per search-path directory, in order.
pub open spec fn candidates(name: Seq<char>, search_path: Seq<char>) -> Seq<Seq<char>> {
    split_colons(search_path).map_values(|dir: Seq<char>| join(dir, name))
}

/// The first of `paths` that `exec` accepts.
pub open spec fn first_match(paths: Seq<Seq<char>>, exec: spec_fn(Seq<char>) -> bool) -> Option<Seq<char>>
    decreases paths.len(),
{
    if paths.len() == 0 {
        None
    } else if exec(paths[0]) {
        Some(paths[0])
    } else {
        first_match(paths.drop_first(), exec)
    }
}

/// `f` answers as the predicate `p` does, whatever it is asked.
pub open spec fn oracle_is<F: Fn(&String) -> bool>(f: F, p: spec_fn(Seq<char>) -> bool) -> bool {
    forall|s: &String, b: bool| #[trigger] f.ensures((s,), b) ==> b == p(s@)
}

/// What a token sequence resolves to, when `exec` tells executable files apart: the path
/// to run and its arguments. The first token is taken as a path when it names an
/// executable file itself, and is looked up on the search path otherwise.
pub open spec fn resolved_command(
    tokens: Seq<Seq<char>>,
    search_path: Seq<char>,
    exec: spec_fn(Seq<char>) -> bool,
) -> Option<(Seq<char>, Seq<Seq<char>>)> {
    let path = if exec(tokens[0]) {
        Some(tokens[0])
    } else {
        first_match(candidates(tokens[0], search_path), exec)
    };
    match path {
        Some(p) => Some((p, tokens.drop_first())),
        None => None,
    }
}

proof fn lemma_first_match_at(paths: Seq<Seq<char>>, exec: spec_fn(Seq<char>) -> bool, i: int)
    requires
        0 <= i <= paths.len(),
        forall|j: int| 0 <= j < i ==> !exec(#[trigger] paths[j]),
    ensures
        i < paths.len() && exec(paths[i]) ==> first_match(paths, exec) == Some(paths[i]),
        i == paths.len() ==> first_match(paths, exec) is None,
    decreases i,
{
    if i > 0 {
        assert(!exec(paths[0]));
        let rest = paths.drop_first();
        assert forall|j: int| 0 <= j < i - 1 implies !exec(#[trigger] rest[j]) by {
            assert(rest[j] == paths[j + 1]);
        }
        lemma_first_match_at(rest, exec, i - 1);
    }
}

/// Splits a search-path value on `:` into its directories, in order.
pub fn split_search_path(value: &str) -> (r: Vec<String>)
    ensures
        r.deep_view() == split_colons(value@),
{
    let n = value.unicode_len();
    let mut dirs: Vec<String> = Vec::new();
    let mut seg: usize = 0;
    let mut i: usize = 0;
    assert(value@.take(0) =~= Seq::<char>::empty());
    assert(dirs.deep_view().push(value@.subrange(0, 0)) =~= seq![Seq::<char>::empty()]);
    while i < n
        invariant
            n == value@.len(),
            seg <= i <= n,
            split_colons(value@.take(i as int)) == dirs.deep_view().push(value@.subrange(seg as int, i as int)),
        decreases n - i,
    {
        let c = value.get_char(i);
        let ghost prev = split_colons(value@.take(i as int));
        let ghost before = dirs.deep_view();
        assert(value@.take(i + 1).drop_last() =~= value@.take(i as int));
        assert(value@.take(i + 1).last() == c);
        if c == ':' {
            let piece = String::from_str(value.substring_char(seg, i));
            dirs.push(piece);
            assert(dirs.deep_view() =~= before.push(piece@));
            assert(prev == before.push(value@.subrange(seg as int, i as int)));
            assert(split_colons(value@.take(i + 1)) == prev.push(Seq::<char>::empty()));
            assert(value@.subrange(i + 1, i + 1) =~= Seq::<char>::empty());
            seg = i + 1;
            assert(split_colons(value@.take(i + 1)) =~= dirs.deep_view().push(value@.subrange(seg as int, i + 1)));
        } else {
            assert(prev.drop_last() =~= dirs.deep_view());
            assert(prev.last().push(c) =~= value@.subrange(seg as int, i + 1));
            assert(split_colons(value@.take(i + 1)) =~= dirs.deep_view().push(value@.subrange(seg as int, i + 1)));
        }
        i += 1;
    }
    let ghost before = dirs.deep_view();
    let last = String::from_str(value.substring_char(seg, n));
    dirs.push(last);
    assert(dirs.deep_view() =~= before.push(last@));
    assert(value@.take(n as int) =~= value@);
    assert(dirs.deep_view() =~= split_colons(value@));
    dirs
}

/// Joins a command name onto a directory, as a path.
pub fn join_path(dir: &str, name: &str) -> (r: String)
    ensures
        r@ == join(dir@, name@),
{
    if name.unicode_len() > 0 && name.get_char(0) == '/' {
        return String::from_str(name);
    }
    let mut path = String::from_str(dir);
    let n = dir.unicode_len();
    if n > 0 && dir.get_char(n - 1) != '/' {
        path.append("/");
        proof {
            reveal_strlit("/");
        }
    }
    path.append(name);
    path
}

/// Looks `user_command` up on the search path `search_path` (a `:`-separated list of
/// directories) and returns the first candidate path that `is_executable` accepts.
pub fn lookup_executable<F: Fn(&String) -> bool>(
    user_command: &str,
    search_path: &str,
    is_executable: F,
) -> (r: Option<String>)
    requires
        forall|s: &String| #[trigger] is_executable.requires((s,)),
    ensures
        r matches Some(p) ==> candidates(user_command@, search_path@).contains(p@),
        forall|exec: spec_fn(Seq<char>) -> bool| #[trigger] oracle_is(is_executable, exec) ==> match r {
            Some(p) => first_match(candidates(user_command@, search_path@), exec) == Some(p@),
            None => first_match(candidates(user_command@, search_path@), exec) is None,
        },
{
    let dirs = split_search_path(search_path);
    let ghost cands = candidates(user_command@, search_path@);
    let mut i: usize = 0;
    while i < dirs.len()
        invariant
            forall|s: &String| #[trigger] is_executable.requires((s,)),
            i <= dirs.len(),
            cands == candidates(user_command@, search_path@),
            cands.len() == dirs.len(),
            forall|j: int| 0 <= j < dirs.len() ==> #[trigger] cands[j] == join(dirs@[j]@, user_command@),
            forall|exec: spec_fn(Seq<char>) -> bool| #[trigger] oracle_is(is_executable, exec) ==>
                forall|j: int| 0 <= j < i ==> !exec(#[trigger] cands[j]),
        decreases dirs.len() - i,
    {
        let candidate = join_path(dirs[i].as_str(), user_command);
        assert(dirs.deep_view()[i as int] == dirs@[i as int]@);
        let found = is_executable(&candidate);
        if found {
            proof {
                assert(cands[i as int] == candidate@);
                assert(cands.contains(candidate@));
                assert forall|exec: spec_fn(Seq<char>) -> bool| #[trigger] oracle_is(is_executable, exec) implies
                    first_match(cands, exec) == Some(candidate@) by {
                    assert(is_executable.ensures((&candidate,), true));
                    lemma_first_match_at(cands, exec, i as int);
                }
                assert(cands[i as int] == candidate@);
            }
            return Some(candidate);
        }
        assert(is_executable.ensures((&candidate,), false));
        assert(cands[i as int] == candidate@);
        i += 1;
    }
    proof {
        assert forall|exec: spec_fn(Seq<char>) -> bool| #[trigger] oracle_is(is_executable, exec) implies
            first_match(cands, exec) is None by {
            lemma_first_match_at(cands, exec, i as int);
        }
    }
    None
}

/// Turns a token sequence into the path to run and its arguments.
///
/// The first token is used as it is when `is_executable` accepts it as a path, and is
/// looked up on `search_path` otherwise; the arguments are the remaining tokens, in order.
/// Fails with `CommandNotFound` when neither yields an executable file.
pub fn build_command<F: Fn(&String) -> bool>(
    tokens: Vec<String>,
    search_path: &str,
    is_executable: F,
) -> (r: Result<(String, Vec<String>), ShellError>)
    requires
        tokens.len() >= 1,
        forall|s: &String| #[trigger] is_executable.requires((s,)),
    ensures
        r matches Ok(c) ==> c.1.deep_view() == tokens.deep_view().drop_first(),
        r is Err ==> r == Err::<(String, Vec<String>), ShellError>(ShellError::CommandNotFound),
        forall|exec: spec_fn(Seq<char>) -> bool| #[trigger] oracle_is(is_executable, exec) ==>
            match resolved_command(tokens.deep_view(), search_path@, exec) {
                Some(c) => r matches Ok(rc) && rc.0@ == c.0 && rc.1.deep_view() == c.1,
                None => r is Err,
            },
{
    let mut tokens = tokens;
    let ghost all = tokens.deep_view();
    assert(all[0] == tokens@[0]@);
    let command = if is_executable(&tokens[0]) {
        tokens[0].clone()
    } else {
        match lookup_executable(tokens[0].as_str(), search_path, is_executable) {
            Some(path) => path,
            None => {
                return Err(ShellError::CommandNotFound);
            },
        }
    };
    tokens.remove(0);
    assert(tokens.deep_view() =~= all.drop_first());
    Ok((command, tokens))
}

/// A first token that is itself an executable file runs as given: a lone such token
/// resolves to exactly that path, with no arguments.
pub proof fn lemma_executable_path_runs_as_given(
    command: Seq<char>,
    search_path: Seq<char>,
    exec: spec_fn(Seq<char>) -> bool,
)
    requires
        exec(command),
    ensures
        resolved_command(seq![command], search_path, exec) == Some((command, Seq::<Seq<char>>::empty())),
{
    assert(seq![command].drop_first() =~= Seq::<Seq<char>>::empty());
}

/// A command name that is not an executable path, and whose every search-path candidate
/// is not an executable file either, resolves to nothing.
pub proof fn lemma_unknown_command_not_found(
    tokens: Seq<Seq<char>>,
    search_path: Seq<char>,
    exec: spec_fn(Seq<char>) -> bool,
)
    requires
        tokens.len() >= 1,
        !exec(tokens[0]),
        forall|i: int|
            0 <= i < candidates(tokens[0], search_path).len() ==> !exec(
                #[trigger] candidates(tokens[0], search_path)[i],
            ),
    ensures
        resolved_command(tokens, search_path, exec) is None,
{
    let cands = candidates(tokens[0], search_path);
    lemma_first_match_at(cands, exec, cands.len() as int);
}

} // verus!
