use envrun::command::{default_shell_for, join_command, plan_command, ExecMode, Platform};

fn words(w: &[&str]) -> Vec<String> {
    w.iter().map(|s| s.to_string()).collect()
}

#[test]
fn direct_mode_passes_words_as_they_are() {
    let plan = plan_command(&words(&["echo", "hi"]), &ExecMode::Direct, Platform::Unix).unwrap();
    assert_eq!(plan.program, "echo");
    assert_eq!(plan.args, words(&["hi"]));
    let plan =
        plan_command(&words(&["printf", "%s\n", "$FOO"]), &ExecMode::Direct, Platform::Unix).unwrap();
    assert_eq!(plan.program, "printf");
    assert_eq!(plan.args, words(&["%s\n", "$FOO"]));
}

#[test]
fn shell_mode_hands_one_line_to_the_shell() {
    let plan = plan_command(&words(&["echo", "$FOO"]), &ExecMode::Shell(None), Platform::Unix).unwrap();
    assert_eq!(plan.program, "sh");
    assert_eq!(plan.args, words(&["-c", "echo $FOO"]));
}

#[test]
fn shell_mode_on_windows_and_named_shell() {
    let plan = plan_command(&words(&["dir", "C:\\"]), &ExecMode::Shell(None), Platform::Windows).unwrap();
    assert_eq!(plan.program, "cmd");
    assert_eq!(plan.args, words(&["/c", "dir C:\\"]));
    let plan = plan_command(
        &words(&["echo", "a b"]),
        &ExecMode::Shell(Some("bash".to_string())),
        Platform::Unix,
    )
    .unwrap();
    assert_eq!(plan.program, "bash");
    assert_eq!(plan.args, words(&["-c", "echo a b"]));
}

#[test]
fn empty_command_launches_nothing() {
    assert!(plan_command(&vec![], &ExecMode::Direct, Platform::Unix).is_none());
    assert!(plan_command(&vec![], &ExecMode::Shell(None), Platform::Unix).is_none());
    assert!(plan_command(&vec![], &ExecMode::Shell(None), Platform::Windows).is_none());
}

#[test]
fn default_shells() {
    assert_eq!(default_shell_for(Platform::Unix), ("sh".to_string(), "-c".to_string()));
    assert_eq!(default_shell_for(Platform::Windows), ("cmd".to_string(), "/c".to_string()));
}

#[test]
fn joins_with_single_spaces() {
    assert_eq!(join_command(&words(&[])), "");
    assert_eq!(join_command(&words(&["one"])), "one");
    assert_eq!(join_command(&words(&["a", "", "b c"])), "a  b c");
}
