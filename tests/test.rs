use turtle::builtin::{Builtin, BuiltinAction, DEFAULT_CD_TARGET};
use turtle::error::{check_exit_status, decimal_string, ShellError};
use turtle::resolve::{build_command, join_path, lookup_executable, split_search_path};
use turtle::tokenizer::tokenizer;
use turtle::{builtin_kind, handle_builtin_commands, is_user_input_valid};

const SEARCH_PATH: &str = "/usr/local/bin:/usr/bin:/bin";

fn vecstr_to_vecstring(v: Vec<&str>) -> Vec<String> {
    v.into_iter().map(|x| x.to_string()).collect::<Vec<String>>()
}

// A file system holding one executable, /usr/bin/ls.
fn only_ls_is_executable(p: &String) -> bool {
    p == "/usr/bin/ls"
}

// A file system whose only directory is the root.
fn only_root_is_a_directory(p: &String) -> bool {
    p == "/"
}

#[test]
fn test_is_user_input_valid_true() {
    assert_eq!(is_user_input_valid(&vec!["ls".to_string()]), (true, ""));
    assert_eq!(is_user_input_valid(&vec!["token".to_string(); 101]), (true, ""));
}

#[test]
fn test_is_user_input_valid_false() {
    assert_eq!(is_user_input_valid(&vec![]), (false, ""));
    assert_eq!(
        is_user_input_valid(&vec!["token".to_string(); 102]),
        (false, "Shell doesn't support more than 100 arguments.")
    );
}

#[test]
fn test_tokenizer_success() {
    assert_eq!(
        tokenizer(&"printf                 \"Cat's %s\" \"Cradle\"".to_string()).unwrap(),
        vecstr_to_vecstring(vec!["printf", "Cat's %s", "Cradle"])
    );
    assert_eq!(
        tokenizer(&"printf \"Cat's %s\" \"Cradle\"".to_string()).unwrap(),
        vecstr_to_vecstring(vec!["printf", "Cat's %s", "Cradle"])
    );
    assert_eq!(
        tokenizer(&"printf \"\" \"Cat's %s\" \"Cradle\"".to_string()).unwrap(),
        vecstr_to_vecstring(vec!["printf", "", "Cat's %s", "Cradle"])
    );
    assert_eq!(
        tokenizer(&"printf \"\"".to_string()).unwrap(),
        vecstr_to_vecstring(vec!["printf", ""])
    );
    assert_eq!(
        tokenizer(&"printf      ".to_string()).unwrap(),
        vecstr_to_vecstring(vec!["printf"])
    );
    assert_eq!(tokenizer(&"printf".to_string()).unwrap(), vecstr_to_vecstring(vec!["printf"]));
}

#[test]
fn test_tokenizer_failure() {
    assert!(tokenizer(&"printf \"Missing `Closing` Quote".to_string()).is_err());
}

#[test]
fn test_lookup_executable() {
    assert_eq!(
        lookup_executable("ls", SEARCH_PATH, only_ls_is_executable),
        Some("/usr/bin/ls".to_string())
    );
    assert!(lookup_executable(
        "non_existent_bin_30044bf7-e448-44aa-8d87-7ebf85c22fcf",
        SEARCH_PATH,
        only_ls_is_executable
    )
    .is_none());
}

#[test]
fn test_build_command_success() {
    assert_eq!(
        build_command(vec!["ls".to_string()], SEARCH_PATH, only_ls_is_executable).unwrap(),
        ("/usr/bin/ls".to_string(), Vec::<String>::new())
    );
    assert_eq!(
        build_command(vec!["ls".to_string()], SEARCH_PATH, only_ls_is_executable).unwrap(),
        ("/usr/bin/ls".to_string(), Vec::<String>::new())
    );
    assert_eq!(
        build_command(vec!["ls".to_string(), "-alh".to_string()], SEARCH_PATH, only_ls_is_executable)
            .unwrap(),
        ("/usr/bin/ls".to_string(), vec!["-alh".to_string()])
    );
}

#[test]
fn test_handle_builtin_commands() {
    assert_eq!(
        handle_builtin_commands(
            &vecstr_to_vecstring(vec!["cd", "/"]),
            DEFAULT_CD_TARGET,
            only_root_is_a_directory
        ),
        Ok(Some(BuiltinAction::ChangeDir("/".to_string())))
    );
    assert!(handle_builtin_commands(
        &vecstr_to_vecstring(vec!["cd", "/f44098b6-c618-4ee1-8cf6-25c1b3a23ec4"]),
        DEFAULT_CD_TARGET,
        only_root_is_a_directory
    )
    .is_err());
}

#[test]
fn test_std_streams() {}

#[test]
fn blank_lines_have_no_tokens() {
    assert_eq!(tokenizer(&"".to_string()), Ok(Vec::<String>::new()));
    assert_eq!(tokenizer(&"     ".to_string()), Ok(Vec::<String>::new()));
    assert_eq!(tokenizer(&" \t \u{a0}\u{3000} ".to_string()), Ok(Vec::<String>::new()));
}

#[test]
fn apostrophe_inside_double_quotes_is_literal() {
    assert_eq!(
        tokenizer(&"printf \"Cat's %s\" \"Cradle\"".to_string()),
        Ok(vecstr_to_vecstring(vec!["printf", "Cat's %s", "Cradle"]))
    );
}

#[test]
fn empty_quotes_make_an_empty_token() {
    assert_eq!(
        tokenizer(&"printf \"\"".to_string()),
        Ok(vecstr_to_vecstring(vec!["printf", ""]))
    );
    assert_eq!(tokenizer(&"''".to_string()), Ok(vecstr_to_vecstring(vec![""])));
}

#[test]
fn trailing_spaces_add_no_token() {
    assert_eq!(tokenizer(&"printf      ".to_string()), Ok(vecstr_to_vecstring(vec!["printf"])));
}

#[test]
fn unterminated_quotes_fail() {
    assert_eq!(tokenizer(&"printf \"unterminated".to_string()), Err(ShellError::MismatchedQuotes));
    assert_eq!(tokenizer(&"echo 'half".to_string()), Err(ShellError::MismatchedQuotes));
    assert_eq!(tokenizer(&"echo \"a'\" 'b".to_string()), Err(ShellError::MismatchedQuotes));
}

#[test]
fn tokenizing_twice_gives_the_same_result() {
    let lines = ["printf \"Cat's %s\" \"Cradle\"", "a  'b c'  \"\"", "bad \"quote"];
    for line in lines {
        let line = line.to_string();
        assert_eq!(tokenizer(&line), tokenizer(&line));
    }
}

#[test]
fn quotes_nest_and_mix_with_plain_text() {
    assert_eq!(
        tokenizer(&"echo 'a \"b\"' \"c 'd'\"".to_string()),
        Ok(vecstr_to_vecstring(vec!["echo", "a \"b\"", "c 'd'"]))
    );
    assert_eq!(tokenizer(&"ab\"c d\"e".to_string()), Ok(vecstr_to_vecstring(vec!["abc de"])));
    assert_eq!(
        tokenizer(&"  ls   -l  ".to_string()),
        Ok(vecstr_to_vecstring(vec!["ls", "-l"]))
    );
}

#[test]
fn only_spaces_separate_words() {
    assert_eq!(tokenizer(&"a\tb c".to_string()), Ok(vecstr_to_vecstring(vec!["a\tb", "c"])));
    assert_eq!(
        tokenizer(&"héllo wörld".to_string()),
        Ok(vecstr_to_vecstring(vec!["héllo", "wörld"]))
    );
}

#[test]
fn search_path_splits_on_colons() {
    assert_eq!(split_search_path(""), vecstr_to_vecstring(vec![""]));
    assert_eq!(split_search_path("/bin"), vecstr_to_vecstring(vec!["/bin"]));
    assert_eq!(split_search_path("a::b:"), vecstr_to_vecstring(vec!["a", "", "b", ""]));
}

#[test]
fn paths_join_like_path_join() {
    assert_eq!(join_path("", "ls"), "ls");
    assert_eq!(join_path("/usr/bin", "ls"), "/usr/bin/ls");
    assert_eq!(join_path("/usr/bin/", "ls"), "/usr/bin/ls");
    assert_eq!(join_path("/usr/bin", "/bin/ls"), "/bin/ls");
    assert_eq!(join_path("bin", "sub/tool"), "bin/sub/tool");
}

#[test]
fn first_search_path_match_wins() {
    let both = |p: &String| p == "/opt/bin/tool" || p == "/usr/bin/tool";
    assert_eq!(lookup_executable("tool", "/opt/bin:/usr/bin", both), Some("/opt/bin/tool".to_string()));
    assert_eq!(lookup_executable("tool", "/usr/bin:/opt/bin", both), Some("/usr/bin/tool".to_string()));
    let relative = |p: &String| p == "tool";
    assert_eq!(lookup_executable("tool", "", relative), Some("tool".to_string()));
}

#[test]
fn executable_path_runs_as_given() {
    assert_eq!(
        build_command(vec!["/usr/bin/ls".to_string()], "", only_ls_is_executable),
        Ok(("/usr/bin/ls".to_string(), Vec::<String>::new()))
    );
    assert_eq!(
        build_command(vec!["/usr/bin/ls".to_string(), "-a".to_string(), "x y".to_string()], SEARCH_PATH, only_ls_is_executable),
        Ok(("/usr/bin/ls".to_string(), vecstr_to_vecstring(vec!["-a", "x y"])))
    );
}

#[test]
fn unknown_command_is_not_found() {
    let r = build_command(vec!["nosuch".to_string(), "arg".to_string()], SEARCH_PATH, only_ls_is_executable);
    assert_eq!(r, Err(ShellError::CommandNotFound));
    assert_eq!(r.unwrap_err().message(), "error: command not found.");
}

#[test]
fn builtin_names_match_exactly() {
    assert_eq!(builtin_kind(&"cd".to_string()), Some(Builtin::Cd));
    assert_eq!(builtin_kind(&"exit".to_string()), Some(Builtin::Exit));
    assert_eq!(builtin_kind(&"CD".to_string()), None);
    assert_eq!(builtin_kind(&"exit2".to_string()), None);
    assert_eq!(builtin_kind(&"ls".to_string()), None);
}

#[test]
fn builtins_plan_their_actions() {
    let h = |v: Vec<&str>| handle_builtin_commands(&vecstr_to_vecstring(v), DEFAULT_CD_TARGET, only_root_is_a_directory);
    assert_eq!(h(vec!["ls", "-l"]), Ok(None));
    assert_eq!(h(vec!["exit"]), Ok(Some(BuiltinAction::Exit)));
    assert_eq!(h(vec!["exit", "3"]), Ok(Some(BuiltinAction::Exit)));
    assert_eq!(h(vec!["cd"]), Ok(Some(BuiltinAction::ChangeDir("/home".to_string()))));
}

#[test]
fn cd_into_a_file_fails() {
    let is_dir = |p: &String| p != "/etc/passwd";
    let r = handle_builtin_commands(&vecstr_to_vecstring(vec!["cd", "/etc/passwd"]), DEFAULT_CD_TARGET, is_dir);
    assert_eq!(r, Err(ShellError::CdInvalidPath));
    assert_eq!(r.unwrap_err().message(), "error: cd failed - invalid path.");
}

#[test]
fn cd_with_many_targets_fails() {
    let r = handle_builtin_commands(&vecstr_to_vecstring(vec!["cd", "/", "/"]), DEFAULT_CD_TARGET, only_root_is_a_directory);
    assert_eq!(r, Err(ShellError::CdTooManyArguments));
    assert_eq!(
        r.unwrap_err().message(),
        "error: cd failed - please specify only one target path."
    );
}

#[test]
fn non_zero_exit_is_reported_with_its_code() {
    let r = check_exit_status(Some(7));
    assert_eq!(r, Err(ShellError::ExitedWithCode(7)));
    assert_eq!(r.unwrap_err().message(), "error: command exited with code 7");
    assert_eq!(check_exit_status(Some(0)), Ok(()));
    assert_eq!(check_exit_status(None), Ok(()));
    assert_eq!(check_exit_status(Some(-1)), Err(ShellError::ExitedWithCode(-1)));
}

#[test]
fn decimal_rendering() {
    assert_eq!(decimal_string(0), "0");
    assert_eq!(decimal_string(7), "7");
    assert_eq!(decimal_string(10), "10");
    assert_eq!(decimal_string(1234), "1234");
    assert_eq!(decimal_string(-45), "-45");
    assert_eq!(decimal_string(i32::MAX), "2147483647");
    assert_eq!(decimal_string(i32::MIN), "-2147483648");
}

#[test]
fn error_messages() {
    assert_eq!(ShellError::MismatchedQuotes.message(), "error: mismatched quotes");
    assert_eq!(
        ShellError::CdFailed("No such file or directory".to_string()).message(),
        "error: cd failed - No such file or directory."
    );
    assert_eq!(ShellError::LaunchFailed("spawn failed".to_string()).message(), "spawn failed");
    assert_eq!(ShellError::ExitedWithCode(-3).message(), "error: command exited with code -3");
}
