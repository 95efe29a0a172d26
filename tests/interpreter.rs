use shell::dispatch::{cd_response, plan, run_response, type_response, CdOutcome, RunOutcome, Step};
use shell::resolver::{is_executable, search_path, Command};
use shell::shell::{Shell, ShellError};
use shell::text::{join_words, tokenize};

fn words(v: &[&str]) -> Vec<String> {
    v.iter().map(|s| s.to_string()).collect()
}

fn respond(step: Step) -> String {
    match step {
        Step::Respond(s) => s,
        _ => panic!("expected a response"),
    }
}

#[test]
fn blank_lines_give_empty_response() {
    for line in ["", " ", "\t\n", "   \r\n", "\u{a0}\u{3000} "] {
        assert!(tokenize(line).is_empty());
        assert_eq!(respond(plan(line, Some("/home/u"))), "");
    }
}

#[test]
fn tokenize_splits_on_runs_of_whitespace() {
    assert_eq!(tokenize("  echo\ta   b \n"), words(&["echo", "a", "b"]));
    assert_eq!(tokenize("x"), words(&["x"]));
    assert_eq!(tokenize("héllo wörld"), words(&["héllo", "wörld"]));
}

#[test]
fn join_words_uses_single_spaces() {
    assert_eq!(join_words(&words(&["a", "b", "c"])), "a b c");
    assert_eq!(join_words(&words(&["a"])), "a");
    assert_eq!(join_words(&[]), "");
}

#[test]
fn echo_collapses_whitespace() {
    assert_eq!(respond(plan("echo a   b", None)), "a b");
    assert_eq!(respond(plan("   echo   hello    world  \n", None)), "hello world");
    assert_eq!(respond(plan("echo", None)), "");
    assert_eq!(respond(plan("echo type exit", None)), "type exit");
}

#[test]
fn type_of_builtin() {
    assert_eq!(respond(plan("type echo", None)), "echo is a shell builtin");
    assert_eq!(respond(plan("type cd", None)), "cd is a shell builtin");
    assert_eq!(respond(plan("type type", None)), "type is a shell builtin");
}

#[test]
fn type_without_argument_gives_usage() {
    assert_eq!(
        respond(plan("type", None)),
        "type: expected an argument of a command name"
    );
}

#[test]
fn type_of_unknown_name() {
    match plan("type nonexistentcmd123", None) {
        Step::TypeLookup(name) => {
            assert_eq!(name, "nonexistentcmd123");
            assert_eq!(type_response(&name, None), "nonexistentcmd123: not found");
        }
        _ => panic!("expected a lookup"),
    }
}

#[test]
fn type_of_resolved_name() {
    let paths = words(&["/bin", "/usr/bin"]);
    let found = Command::get_command_path("ls", &paths, &[true, true]);
    assert_eq!(found.as_deref(), Some("/bin/ls"));
    assert_eq!(type_response("ls", found), "ls is /bin/ls");
}

#[test]
fn is_builtin_closed_set() {
    for name in ["echo", "type", "exit", "pwd", "cd"] {
        assert_eq!(Command::is_builtin(name), Some(format!("{} is a shell builtin", name)));
    }
    for name in ["ls", "", "Echo", "echo ", "cdx", "ex"] {
        assert_eq!(Command::is_builtin(name), None);
    }
}

#[test]
fn lookup_gives_variant() {
    assert_eq!(Command::lookup("pwd"), Some(Command::Pwd));
    assert_eq!(Command::lookup("exit"), Some(Command::Exit));
    assert_eq!(Command::lookup("cat"), None);
}

#[test]
fn candidate_paths() {
    assert_eq!(Command::candidate("/bin", "ls"), "/bin/ls");
    assert_eq!(Command::candidate("/bin/", "ls"), "/bin/ls");
    assert_eq!(Command::candidate("", "ls"), "ls");
    assert_eq!(Command::candidate("/bin", "/usr/bin/ls"), "/bin//usr/bin/ls");
}

#[test]
fn first_executable_directory_wins() {
    let paths = words(&["/a", "/b", "/c"]);
    assert_eq!(
        Command::get_command_path("x", &paths, &[false, true, true]).as_deref(),
        Some("/b/x")
    );
    assert_eq!(
        Command::get_command_path("x", &paths, &[true, false, true]).as_deref(),
        Some("/a/x")
    );
    assert_eq!(Command::get_command_path("x", &paths, &[false, false, false]), None);
    assert_eq!(Command::get_command_path("x", &[], &[]), None);
}

#[test]
fn names_with_separator_are_not_searched() {
    let paths = words(&["/usr/bin"]);
    assert_eq!(Command::get_command_path("/bin/ls", &paths, &[true]), None);
    assert_eq!(Command::get_command_path("bin/ls", &paths, &[true]), None);
    assert_eq!(Command::get_command_path("ls", &paths, &[true]).as_deref(), Some("/usr/bin/ls"));
}

#[test]
fn search_path_entries() {
    assert_eq!(search_path(Some("/bin:/usr/bin")), words(&["/bin", "/usr/bin"]));
    assert_eq!(search_path(Some("/a::/b:")), words(&["/a", "", "/b", ""]));
    assert_eq!(search_path(Some("")), words(&[""]));
    assert_eq!(search_path(None), Vec::<String>::new());
}

#[test]
fn cd_missing_directory() {
    match plan("cd /nonexistent/dir", Some("/home/u")) {
        Step::ChangeDir(t) => {
            assert_eq!(t, "/nonexistent/dir");
            assert_eq!(
                cd_response(&t, CdOutcome::NotFound),
                "cd: /nonexistent/dir: No such file or directory"
            );
        }
        _ => panic!("expected a change of directory"),
    }
}

#[test]
fn cd_without_argument_goes_home() {
    match plan("cd", Some("/home/u")) {
        Step::ChangeDir(t) => {
            assert_eq!(t, "/home/u");
            assert_eq!(cd_response(&t, CdOutcome::Changed), "");
        }
        _ => panic!("expected a change of directory"),
    }
}

#[test]
fn cd_expands_tilde() {
    match plan("cd ~/sub", Some("/home/u")) {
        Step::ChangeDir(t) => assert_eq!(t, "/home/u/sub"),
        _ => panic!("expected a change of directory"),
    }
    match plan("cd a~b~", Some("/h")) {
        Step::ChangeDir(t) => assert_eq!(t, "a/hb/h"),
        _ => panic!("expected a change of directory"),
    }
}

#[test]
fn cd_without_home() {
    assert_eq!(respond(plan("cd", None)), "cd: HOME environment variable not set");
    assert_eq!(respond(plan("cd ~", None)), "cd: HOME environment variable not set");
    assert_eq!(respond(plan("cd", Some(""))), "cd: HOME environment variable not set");
}

#[test]
fn cd_error_messages() {
    assert_eq!(cd_response("/root", CdOutcome::PermissionDenied), "cd: permission denied: /root");
    assert_eq!(
        cd_response("/etc/passwd", CdOutcome::Other("Not a directory (os error 20)".to_string())),
        "cd: error changing to /etc/passwd: Not a directory (os error 20)"
    );
}

#[test]
fn pwd_twice_plans_the_same() {
    assert!(matches!(plan("pwd", None), Step::Pwd));
    assert!(matches!(plan("  pwd  ", Some("/x")), Step::Pwd));
}

#[test]
fn exit_ends_session() {
    assert!(matches!(plan("exit", None), Step::Exit));
    assert!(matches!(plan("exit 3", Some("/h")), Step::Exit));
}

#[test]
fn other_commands_run() {
    match plan("ls -l  /tmp", None) {
        Step::Run(c, a) => {
            assert_eq!(c, "ls");
            assert_eq!(a, words(&["-l", "/tmp"]));
        }
        _ => panic!("expected a run"),
    }
}

#[test]
fn run_responses() {
    assert_eq!(run_response("foo", RunOutcome::Unresolved), Ok("foo: command not found".to_string()));
    assert_eq!(run_response("foo", RunOutcome::Failed), Err("foo: failed to execute".to_string()));
    assert_eq!(
        run_response("ls", RunOutcome::Finished("a\nb\n".to_string())),
        Ok("a\nb".to_string())
    );
    assert_eq!(
        run_response("ls", RunOutcome::Finished("a\r\n\r\n".to_string())),
        Ok("a\r\n".to_string())
    );
    assert_eq!(run_response("ls", RunOutcome::Finished("a ".to_string())), Ok("a ".to_string()));
    assert_eq!(run_response("ls", RunOutcome::Finished(String::new())), Ok(String::new()));
}

#[test]
fn console_routes_responses() {
    let mut sh = Shell::new();
    sh.prompt();
    sh.deliver(Ok("hi".to_string()));
    sh.deliver(Ok(String::new()));
    sh.deliver(Err("boom".to_string()));
    sh.write_stdout("x".to_string());
    sh.write_stderr("y".to_string());
    let (out, err) = sh.take_output();
    assert_eq!(out, "$ hi\nx\n");
    assert_eq!(err, "boom\ny\n");
    assert_eq!(sh.take_output(), (String::new(), String::new()));
}

#[test]
fn console_reads_lines() {
    let mut sh = Shell::new();
    assert_eq!(sh.read_stdin(Some("echo a\n".to_string())), Ok("echo a\n".to_string()));
    assert_eq!(sh.read_stdin(Some(String::new())), Ok(String::new()));
    assert_eq!(sh.read_stdin(None), Err(ShellError::ReadFailed));
}

#[test]
fn executable_needs_file_and_execute_bit() {
    assert!(is_executable(true, 0o755));
    assert!(is_executable(true, 0o100));
    assert!(is_executable(true, 0o010));
    assert!(is_executable(true, 0o001));
    assert!(!is_executable(true, 0o644));
    assert!(!is_executable(false, 0o755));
    assert!(is_executable(true, 0o100644 | 0o1));
}
