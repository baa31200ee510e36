use std::time::Duration;
use tiez_slim::actions::executor::{
    check_blocklist, expand_placeholders, expand_placeholders_with_captures, split_command,
    ActionExecutor, ActionResult, ActionStatus, ExecutionStep, Refusal,
};
use tiez_slim::actions::{Action, ActionKind};

fn make_action(kind: ActionKind, command: &str) -> Action {
    let mut a = Action::new("test", ".*", command);
    a.kind = kind;
    a
}

fn refusal_status(step: &ExecutionStep) -> Option<ActionStatus> {
    match step {
        ExecutionStep::Refused(r) => Some(r.status()),
        ExecutionStep::Spawn { .. } => None,
    }
}

fn spawned(step: &ExecutionStep) -> Option<(String, Vec<String>)> {
    match step {
        ExecutionStep::Spawn { program, args } => Some((program.clone(), args.clone())),
        ExecutionStep::Refused(_) => None,
    }
}

#[test]
fn percent_clipboard_replaced() {
    let result = expand_placeholders("echo %clipboard", "hello world");
    assert_eq!(result, "echo hello world");
}

#[test]
fn percent_escape_literal() {
    let result = expand_placeholders("echo 100%%", "");
    assert_eq!(result, "echo 100%");
}

#[test]
fn percent_capture_groups() {
    let re = regex::Regex::new(r"^(\w+)@(\w+)$").unwrap();
    let caps = re.captures("user@host").unwrap();
    let groups: Vec<Option<String>> =
        (0..caps.len()).map(|i| caps.get(i).map(|m| m.as_str().to_string())).collect();
    let result = expand_placeholders_with_captures("ssh %2 -l %1", "user@host", Some(&groups));
    assert_eq!(result, "ssh host -l user");
}

#[test]
fn percent_clipboard_and_escape_combined() {
    let result = expand_placeholders("echo %clipboard (100%%)", "hi");
    assert_eq!(result, "echo hi (100%)");
}

#[test]
fn blocklist_rm_rf_root() {
    let mut executor = ActionExecutor::new();
    let action = make_action(ActionKind::ShellCommand, "rm -rf /");
    let step = executor.begin(&action, "");
    assert_eq!(refusal_status(&step), Some(ActionStatus::Blocked));
}

#[test]
fn blocklist_fork_bomb() {
    let mut executor = ActionExecutor::new();
    let action = make_action(ActionKind::ShellCommand, ":(){:|:&};:");
    let step = executor.begin(&action, "");
    assert_eq!(refusal_status(&step), Some(ActionStatus::Blocked));
}

#[test]
fn blocklist_dd_if() {
    let mut executor = ActionExecutor::new();
    let action = make_action(ActionKind::ShellCommand, "dd if=/dev/zero of=/dev/sda");
    let step = executor.begin(&action, "");
    assert_eq!(refusal_status(&step), Some(ActionStatus::Blocked));
}

#[test]
fn blocklist_mkfs() {
    let mut executor = ActionExecutor::new();
    let action = make_action(ActionKind::ShellCommand, "mkfs.ext4 /dev/sda1");
    let step = executor.begin(&action, "");
    assert_eq!(refusal_status(&step), Some(ActionStatus::Blocked));
}

#[test]
fn allowlist_blocks_unlisted_command() {
    let mut executor = ActionExecutor::new();
    executor.set_allowlist(vec!["firefox".to_string()]);
    let action = make_action(ActionKind::ShellCommand, "echo hello");
    let step = executor.begin(&action, "test");
    assert_eq!(refusal_status(&step), Some(ActionStatus::Blocked));
    assert_eq!(step, ExecutionStep::Refused(Refusal::NotAllowlisted));
}

#[test]
fn allowlist_admits_listed_command() {
    let mut executor = ActionExecutor::new();
    executor.set_allowlist(vec!["echo".to_string()]);
    let action = make_action(ActionKind::ShellCommand, "echo hello");
    let step = executor.begin(&action, "test");
    assert_eq!(
        spawned(&step),
        Some(("sh".to_string(), vec!["-c".to_string(), "echo hello".to_string()]))
    );
    assert_eq!(executor.running, 1);
}

#[test]
fn allowlist_is_case_insensitive() {
    let mut executor = ActionExecutor::new();
    executor.set_allowlist(vec!["ECHO".to_string()]);
    assert!(executor.is_command_allowed("Echo hello"));
    assert!(!executor.is_command_allowed("printf hello"));
}

#[test]
fn empty_allowlist_admits_all() {
    let mut executor = ActionExecutor::new();
    executor.set_allowlist(vec![]);
    assert!(executor.is_command_allowed("anything at all"));
    let action = make_action(ActionKind::ShellCommand, "echo hello");
    let step = executor.begin(&action, "test");
    assert!(spawned(&step).is_some());
}

#[test]
fn shell_command_runs_expanded_command_through_sh() {
    let mut executor = ActionExecutor::new();
    let action = make_action(ActionKind::ShellCommand, "echo %clipboard");
    let step = executor.begin(&action, "hello");
    assert_eq!(
        spawned(&step),
        Some(("sh".to_string(), vec!["-c".to_string(), "echo hello".to_string()]))
    );
}

#[test]
fn copy_kind_returns_failed() {
    let mut executor = ActionExecutor::new();
    let action = make_action(ActionKind::Copy, "echo test");
    let step = executor.begin(&action, "test");
    assert_eq!(refusal_status(&step), Some(ActionStatus::Failed));
    assert_eq!(step, ExecutionStep::Refused(Refusal::CopyNotSupported));
    assert_eq!(executor.running, 0);
}

#[test]
fn open_kind_plans_xdg_open() {
    let mut executor = ActionExecutor::new();
    let action = make_action(ActionKind::Open, "%clipboard");
    let step = executor.begin(&action, "https://example.com");
    assert_eq!(
        spawned(&step),
        Some(("xdg-open".to_string(), vec!["https://example.com".to_string()]))
    );
}

#[test]
fn open_with_splits_the_expanded_command() {
    let mut executor = ActionExecutor::new();
    let action = make_action(ActionKind::OpenWith, "firefox --new-tab %clipboard");
    let step = executor.begin(&action, "https://example.com");
    assert_eq!(
        spawned(&step),
        Some((
            "firefox".to_string(),
            vec!["--new-tab".to_string(), "https://example.com".to_string()]
        ))
    );
}

#[test]
fn open_with_empty_command_fails() {
    let mut executor = ActionExecutor::new();
    let action = make_action(ActionKind::OpenWith, "   ");
    let step = executor.begin(&action, "x");
    assert_eq!(step, ExecutionStep::Refused(Refusal::EmptyCommand));
    assert_eq!(refusal_status(&step), Some(ActionStatus::Failed));
}

#[test]
fn concurrency_limit_refuses_and_finish_frees_a_slot() {
    let mut executor = ActionExecutor::new().with_max_concurrent(1);
    let action = make_action(ActionKind::ShellCommand, "echo ok");
    assert!(spawned(&executor.begin(&action, "")).is_some());
    let second = executor.begin(&action, "");
    assert_eq!(second, ExecutionStep::Refused(Refusal::TooManyConcurrent));
    assert_eq!(refusal_status(&second), Some(ActionStatus::Failed));
    executor.finish();
    assert_eq!(executor.running, 0);
    assert!(spawned(&executor.begin(&action, "")).is_some());
}

#[test]
fn new_executor_defaults() {
    let executor = ActionExecutor::new();
    assert_eq!(executor.max_runtime, Duration::from_secs(30));
    assert_eq!(executor.max_concurrent, 4);
    assert_eq!(executor.running, 0);
    assert!(executor.allowlist.is_empty());
    let d = ActionExecutor::default();
    assert_eq!(d.max_runtime, Duration::from_secs(30));
    let e = ActionExecutor::new().with_max_runtime(Duration::from_secs(2));
    assert_eq!(e.max_runtime, Duration::from_secs(2));
}

#[test]
fn run_outcomes_map_to_statuses() {
    let done = ActionResult::from_run(7, false, true, "out".to_string(), String::new(), 3);
    assert_eq!(done.status, ActionStatus::Completed);
    assert_eq!(done.output.as_deref(), Some("out"));
    assert_eq!(done.error, None);
    let failed = ActionResult::from_run(7, false, false, String::new(), "boom".to_string(), 3);
    assert_eq!(failed.status, ActionStatus::Failed);
    assert_eq!(failed.error.as_deref(), Some("boom"));
    let timed_out = ActionResult::from_run(7, true, true, String::new(), String::new(), 3);
    assert_eq!(timed_out.status, ActionStatus::Timeout);
    let refused = ActionResult::refused(9, ActionStatus::Blocked, "no".to_string(), 0);
    assert_eq!(refused.status, ActionStatus::Blocked);
    assert_eq!(refused.output, None);
    assert_eq!(refused.error.as_deref(), Some("no"));
}

#[test]
fn blocklist_reports_the_pattern() {
    assert_eq!(check_blocklist("echo", "hello"), None);
    assert_eq!(check_blocklist("RM -RF /", ""), Some("rm -rf /".to_string()));
    assert_eq!(check_blocklist("sudo", "mkfs.ext4 /dev/sdb"), Some("mkfs".to_string()));
    assert!(check_blocklist("cat", ":(){:|:&};:").is_some());
}

#[test]
fn split_command_basic() {
    let parts = split_command("firefox %clipboard");
    assert_eq!(parts, vec!["firefox", "%clipboard"]);
}

#[test]
fn split_command_empty() {
    let parts = split_command("");
    assert!(parts.is_empty());
}

#[test]
fn split_command_quotes_and_errors() {
    assert_eq!(split_command("a 'b c' \"d\""), vec!["a", "b c", "d"]);
    assert!(split_command("unterminated 'quote").is_empty());
}

#[test]
fn action_result_serialize_roundtrip() {
    let result = ActionResult {
        action_id: 12345,
        status: ActionStatus::Completed,
        output: Some("hello".to_string()),
        error: None,
        duration_ms: 42,
    };
    let debug = format!("{:?}", result);
    assert!(debug.contains("Completed"));
    assert!(debug.contains("12345"));
}

#[test]
fn action_status_equality() {
    assert_eq!(ActionStatus::Completed, ActionStatus::Completed);
    assert_ne!(ActionStatus::Completed, ActionStatus::Failed);
    assert_ne!(ActionStatus::Blocked, ActionStatus::Timeout);
}

#[test]
fn captures_fill_only_present_groups() {
    let groups: Vec<Option<String>> =
        vec![Some("all".to_string()), Some("one".to_string()), None];
    let result = expand_placeholders_with_captures("%1-%2-%9 %%", "", Some(&groups));
    assert_eq!(result, "one-%2-%9 %");
}
