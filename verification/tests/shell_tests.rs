//! The dispatcher: builtins, exit codes, and the command-not-found path.

use vshell::redirect::Sink;
use vshell::shell::{Action, ResolveNext, Shell};

fn shell_for(command: &str, args: &[&str]) -> Shell {
    Shell::new(
        command.to_string(),
        args.iter().map(|a| a.to_string()).collect(),
        Sink::Inherit,
        Sink::Inherit,
    )
}

#[test]
fn exit_without_argument_is_zero() {
    let mut sh = shell_for("exit", &[]);
    assert_eq!(sh.execute("/", "/root"), Action::Exit(0));
    assert_eq!(sh.write_to_stdout_buffer(), "");
}

#[test]
fn exit_with_number_uses_it() {
    let mut sh = shell_for("exit", &["7"]);
    assert_eq!(sh.execute("/", "/root"), Action::Exit(7));
    let mut sh = shell_for("exit", &["0"]);
    assert_eq!(sh.execute("/", "/root"), Action::Exit(0));
    let mut sh = shell_for("exit", &["255"]);
    assert_eq!(sh.execute("/", "/root"), Action::Exit(255));
    let mut sh = shell_for("exit", &["+12"]);
    assert_eq!(sh.execute("/", "/root"), Action::Exit(12));
}

#[test]
fn exit_with_bad_argument_is_one() {
    let mut sh = shell_for("exit", &["abc"]);
    assert_eq!(sh.execute("/", "/root"), Action::Exit(1));
    let mut sh = shell_for("exit", &["256"]);
    assert_eq!(sh.execute("/", "/root"), Action::Exit(1));
    let mut sh = shell_for("exit", &["12x"]);
    assert_eq!(sh.execute("/", "/root"), Action::Exit(1));
    let mut sh = shell_for("exit", &["-1"]);
    assert_eq!(sh.execute("/", "/root"), Action::Exit(1));
    let mut sh = shell_for("exit", &[""]);
    assert_eq!(sh.execute("/", "/root"), Action::Exit(1));
    let mut sh = shell_for("exit", &["+"]);
    assert_eq!(sh.execute("/", "/root"), Action::Exit(1));
}

#[test]
fn pwd_prints_the_working_directory() {
    let mut sh = shell_for("pwd", &[]);
    assert_eq!(sh.execute("/tmp/somewhere", "/root"), Action::Done(0));
    assert_eq!(sh.write_to_stdout_buffer(), "/tmp/somewhere\n");
    assert_eq!(sh.write_to_stderr_buffer(), "");
}

#[test]
fn cd_asks_for_its_target() {
    let mut sh = shell_for("cd", &["/tmp"]);
    assert_eq!(sh.execute("/", "/root"), Action::RunChdir("/tmp".to_string()));

    let mut sh = shell_for("cd", &[]);
    assert_eq!(sh.execute("/", "/root"), Action::RunChdir("/root".to_string()));

    let mut sh = shell_for("cd", &["~"]);
    assert_eq!(sh.execute("/", "/root"), Action::RunChdir("/root".to_string()));
}

#[test]
fn cd_failure_is_reported_with_status_one() {
    let mut sh = shell_for("cd", &["/does/not/exist"]);
    assert_eq!(
        sh.execute("/", "/root"),
        Action::RunChdir("/does/not/exist".to_string())
    );
    let st = sh.builtin_cd("/root", false);
    assert_eq!(st, 1);
    assert_eq!(
        sh.write_to_stdout_buffer(),
        "cd: /does/not/exist: No such file or directory\n"
    );
    assert_eq!(sh.write_to_stderr_buffer(), "");
}

#[test]
fn cd_success_is_silent() {
    let mut sh = shell_for("cd", &["/tmp"]);
    sh.execute("/", "/root");
    let st = sh.builtin_cd("/root", true);
    assert_eq!(st, 0);
    assert_eq!(sh.write_to_stdout_buffer(), "");
}

#[test]
fn type_knows_the_builtins() {
    for name in ["exit", "echo", "pwd", "cd", "type"] {
        let mut sh = shell_for("type", &[name]);
        assert_eq!(sh.execute("/", "/root"), Action::Done(0));
        assert_eq!(sh.write_to_stdout_buffer(), format!("{} is a shell builtin\n", name));
    }
}

#[test]
fn type_reports_a_resolved_path() {
    let mut sh = shell_for("type", &["ls"]);
    assert_eq!(sh.execute("/", "/root"), Action::RunResolve("ls".to_string()));
    let next = sh.finish_resolve(Some("/usr/bin/ls".to_string()));
    assert_eq!(next, ResolveNext::Finished(0));
    assert_eq!(sh.write_to_stdout_buffer(), "ls is /usr/bin/ls\n");
}

#[test]
fn type_reports_not_found_with_status_one() {
    let mut sh = shell_for("type", &["nonexistent_xyz"]);
    assert_eq!(
        sh.execute("/", "/root"),
        Action::RunResolve("nonexistent_xyz".to_string())
    );
    let next = sh.finish_resolve(None);
    assert_eq!(next, ResolveNext::Finished(1));
    assert_eq!(sh.write_to_stdout_buffer(), "nonexistent_xyz: not found\n");
}

#[test]
fn unknown_command_not_found_is_127() {
    let mut sh = shell_for("foobarbaz", &[]);
    assert_eq!(sh.execute("/", "/root"), Action::RunResolve("foobarbaz".to_string()));
    let next = sh.finish_resolve(None);
    assert_eq!(next, ResolveNext::Finished(127));
    assert_eq!(sh.write_to_stdout_buffer(), "foobarbaz: command not found\n");
    assert_eq!(sh.write_to_stderr_buffer(), "");
}

#[test]
fn resolved_command_is_handed_back_to_run() {
    let mut sh = shell_for("ls", &["-1"]);
    assert_eq!(sh.execute("/", "/root"), Action::RunResolve("ls".to_string()));
    let next = sh.finish_resolve(Some("/usr/bin/ls".to_string()));
    assert_eq!(next, ResolveNext::RunSpawn("/usr/bin/ls".to_string()));
    // The buffers are untouched until the child has run.
    assert_eq!(sh.write_to_stdout_buffer(), "");
}

#[test]
fn child_output_is_folded_line_by_line() {
    let mut sh = shell_for("somechild", &[]);
    let st = sh.finish_spawn("apple\nbanana", "oops\r\n", 3);
    assert_eq!(st, 3);
    assert_eq!(sh.write_to_stdout_buffer(), "apple\nbanana\n");
    assert_eq!(sh.write_to_stderr_buffer(), "oops\n");
}

#[test]
fn carriage_returns_before_newlines_collapse() {
    let mut sh = shell_for("somechild", &[]);
    sh.finish_spawn("one\r\ntwo\r\n", "", 0);
    assert_eq!(sh.write_to_stdout_buffer(), "one\ntwo\n");
    // A carriage return not followed by a newline stays.
    let mut sh = shell_for("somechild", &[]);
    sh.finish_spawn("a\rb", "", 0);
    assert_eq!(sh.write_to_stdout_buffer(), "a\rb\n");
}

#[test]
fn empty_child_output_adds_nothing() {
    let mut sh = shell_for("somechild", &[]);
    let st = sh.finish_spawn("", "", 0);
    assert_eq!(st, 0);
    assert_eq!(sh.write_to_stdout_buffer(), "");
    assert_eq!(sh.write_to_stderr_buffer(), "");
}

#[test]
fn spawn_failure_goes_to_stderr() {
    let mut sh = shell_for("brokenbinary", &[]);
    let st = sh.report_spawn_failure();
    assert_eq!(st, 126);
    assert_eq!(sh.write_to_stdout_buffer(), "");
    assert_eq!(sh.write_to_stderr_buffer(), "brokenbinary: failed to launch\n");
}

#[test]
fn echo_joins_with_single_spaces() {
    let mut sh = shell_for("echo", &["a", "b", "c"]);
    assert_eq!(sh.execute("/", "/root"), Action::Done(0));
    assert_eq!(sh.write_to_stdout_buffer(), "a b c\n");
}

#[test]
fn echo_with_no_arguments_prints_a_newline() {
    let mut sh = shell_for("echo", &[]);
    assert_eq!(sh.execute("/", "/root"), Action::Done(0));
    assert_eq!(sh.write_to_stdout_buffer(), "\n");
}

#[test]
fn draining_empties_the_buffer() {
    let mut sh = shell_for("pwd", &[]);
    sh.execute("/a", "/root");
    assert_eq!(sh.write_to_stdout_buffer(), "/a\n");
    assert_eq!(sh.write_to_stdout_buffer(), "");
}

#[test]
fn buffers_survive_until_drained() {
    // A failing builtin still shows the text it produced: the buffer holds
    // the report until the caller drains it.
    let mut sh = shell_for("cd", &["/nope"]);
    sh.execute("/", "/root");
    sh.builtin_cd("/root", false);
    // Not drained yet: a second look at the shell still has it.
    let text = sh.write_to_stdout_buffer();
    assert_eq!(text, "cd: /nope: No such file or directory\n");
}
