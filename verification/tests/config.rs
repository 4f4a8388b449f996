//! Tests of path-list parsing, watch registration checking and command
//! building.

use rentr::command::{
    build_process_definition, join_tokens, CommandError, CommandPolicy, CommandSpec,
    ProcessDefinition,
};
use rentr::watch::{first_registration_failure, parse_watch_paths};

fn strings(tokens: &[&str]) -> Vec<String> {
    tokens.iter().map(|t| t.to_string()).collect()
}

#[test]
fn parse_splits_on_newlines() {
    assert_eq!(parse_watch_paths("a/\nb/\n"), strings(&["a/", "b/"]));
}

#[test]
fn parse_skips_blank_lines() {
    assert_eq!(parse_watch_paths("\n\nfoo\n\nbar\n\n"), strings(&["foo", "bar"]));
}

#[test]
fn parse_keeps_an_unterminated_last_line() {
    assert_eq!(parse_watch_paths("one\ntwo"), strings(&["one", "two"]));
}

#[test]
fn parse_of_empty_input_is_empty() {
    assert_eq!(parse_watch_paths(""), strings(&[]));
    assert_eq!(parse_watch_paths("\n"), strings(&[]));
}

#[test]
fn parse_keeps_order_and_duplicates() {
    assert_eq!(
        parse_watch_paths("src\ntests\nsrc"),
        strings(&["src", "tests", "src"])
    );
}

#[test]
fn no_registration_failure_when_all_succeed() {
    assert_eq!(first_registration_failure(&vec![]), None);
    assert_eq!(first_registration_failure(&vec![true, true, true]), None);
}

#[test]
fn first_registration_failure_is_found() {
    assert_eq!(first_registration_failure(&vec![false]), Some(0));
    assert_eq!(first_registration_failure(&vec![true, false, false]), Some(1));
}

#[test]
fn join_puts_single_spaces_between_tokens() {
    assert_eq!(join_tokens(&strings(&["echo", "hi", "there"])), "echo hi there");
    assert_eq!(join_tokens(&strings(&["echo"])), "echo");
    assert_eq!(join_tokens(&strings(&[])), "");
}

#[test]
fn join_performs_no_escaping() {
    // Documented behavior: tokens that contain spaces are not quoted.
    assert_eq!(join_tokens(&strings(&["echo", "a b"])), "echo a b");
}

#[test]
fn shell_policy_delegates_to_sh() {
    let spec = CommandSpec {
        policy: CommandPolicy::ShellDelegated,
        tokens: strings(&["echo", "changed"]),
    };
    let d: ProcessDefinition = build_process_definition(&spec, false).unwrap();
    assert_eq!(d.program, "sh");
    assert_eq!(d.args, strings(&["-c", "echo changed"]));
}

#[test]
fn shell_policy_on_windows_uses_the_command_processor() {
    let spec = CommandSpec {
        policy: CommandPolicy::ShellDelegated,
        tokens: strings(&["echo", "changed"]),
    };
    let d = build_process_definition(&spec, true).unwrap();
    assert_eq!(d.program, "cmd");
    assert_eq!(d.args, strings(&["/C", "echo changed"]));
}

#[test]
fn shell_policy_accepts_an_empty_command() {
    let spec = CommandSpec {
        policy: CommandPolicy::ShellDelegated,
        tokens: strings(&[]),
    };
    let d = build_process_definition(&spec, false).unwrap();
    assert_eq!(d.program, "sh");
    assert_eq!(d.args, strings(&["-c", ""]));
}

#[test]
fn direct_policy_passes_tokens_verbatim() {
    let spec = CommandSpec {
        policy: CommandPolicy::Direct,
        tokens: strings(&["ls", "-l", "/tmp", "a b"]),
    };
    let d = build_process_definition(&spec, false).unwrap();
    assert_eq!(d.program, "ls");
    assert_eq!(d.args, strings(&["-l", "/tmp", "a b"]));
}

#[test]
fn direct_policy_rejects_an_empty_command() {
    let spec = CommandSpec {
        policy: CommandPolicy::Direct,
        tokens: strings(&[]),
    };
    assert_eq!(
        build_process_definition(&spec, false).unwrap_err(),
        CommandError::EmptyCommand
    );
}
