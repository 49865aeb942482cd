use rust_shell::shell::{respond, ShellAction};

fn print(s: &str) -> ShellAction {
    ShellAction::Print(s.to_string())
}

#[test]
fn echo_joins_arguments_with_single_spaces() {
    assert_eq!(respond(Some("echo   hello    world\n")), print("hello world"));
}

#[test]
fn echo_accepts_tabs_between_words() {
    assert_eq!(respond(Some("echo\ta\t\t b\r\n")), print("a b"));
}

#[test]
fn echo_ignores_leading_whitespace() {
    assert_eq!(respond(Some("   echo hi\n")), print("hi"));
}

#[test]
fn echo_without_arguments_prints_empty_line() {
    assert_eq!(respond(Some("echo\n")), print(""));
    assert_eq!(respond(Some("echo    \n")), print(""));
}

#[test]
fn echo_keeps_argument_order() {
    assert_eq!(respond(Some("echo c b a")), print("c b a"));
}

#[test]
fn exit_ends_session() {
    assert_eq!(respond(Some("exit\n")), ShellAction::Exit);
    assert_eq!(respond(Some("exit\r\n")), ShellAction::Exit);
    assert_eq!(respond(Some("exit")), ShellAction::Exit);
}

#[test]
fn end_of_input_ends_session() {
    assert_eq!(respond(None), ShellAction::Exit);
}

#[test]
fn empty_lines_are_skipped() {
    assert_eq!(respond(Some("\n")), ShellAction::Skip);
    assert_eq!(respond(Some("")), ShellAction::Skip);
    assert_eq!(respond(Some("\r\n")), ShellAction::Skip);
}

#[test]
fn blank_lines_are_skipped() {
    assert_eq!(respond(Some("   \t \n")), ShellAction::Skip);
}

#[test]
fn exit_is_matched_exactly() {
    assert_eq!(respond(Some("exit now\n")), print("unkown command: exit"));
    assert_eq!(respond(Some("EXIT\n")), print("unkown command: EXIT"));
    assert_eq!(respond(Some("  exit\n")), print("unkown command: exit"));
}

#[test]
fn two_unknown_commands_in_a_row() {
    let lines = ["foo\n", "bar baz\n", "echo still here\n"];
    let answers: Vec<ShellAction> = lines.iter().map(|l| respond(Some(l))).collect();
    assert_eq!(answers[0], print("unkown command: foo"));
    assert_eq!(answers[1], print("unkown command: bar"));
    assert_eq!(answers[2], print("still here"));
}

#[test]
fn ls_lists_directory() {
    assert_eq!(respond(Some("ls\n")), ShellAction::ListDir);
}

#[test]
fn ls_ignores_arguments() {
    assert_eq!(respond(Some("ls -la /tmp\n")), ShellAction::ListDir);
}

#[test]
fn commands_are_case_sensitive() {
    assert_eq!(respond(Some("Echo x\n")), print("unkown command: Echo"));
    assert_eq!(respond(Some("LS\n")), print("unkown command: LS"));
}
