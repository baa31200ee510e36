use tiez_slim::cli::{
    ci_interpreter, db_path_from_args, dev_command_from_args, dev_env_value_enabled,
    dev_mode_arg_enabled, format_command, minimized_start_requested, DevCommand,
};

#[test]
fn ci_arg_is_dev_command() {
    assert_eq!(dev_command_from_args(&["tiez-slim-linux", "ci"]), Some(DevCommand::Ci));
}

#[test]
fn dev_arg_enables_dev_mode() {
    assert!(dev_mode_arg_enabled(&["dev"]));
    assert!(dev_mode_arg_enabled(&["--dev"]));
    assert!(!dev_mode_arg_enabled(&["--minimized"]));
}

#[test]
fn dev_command_needs_ci_in_first_position() {
    assert_eq!(dev_command_from_args(&["tiez-slim-linux"]), None);
    assert_eq!(dev_command_from_args(&["ci"]), None);
    assert_eq!(dev_command_from_args(&["prog", "--dev", "ci"]), None);
}

#[test]
fn db_path_follows_its_flag() {
    assert_eq!(db_path_from_args(&["--minimized", "--db-path", "/tmp/x.db"]), Some("/tmp/x.db".to_string()));
    assert_eq!(db_path_from_args(&["--db-path"]), None);
    assert_eq!(db_path_from_args(&["x.db"]), None);
    assert_eq!(db_path_from_args(&["--db-path", "a", "--db-path", "b"]), Some("a".to_string()));
}

#[test]
fn minimized_flag() {
    assert!(minimized_start_requested(&["--dev", "--minimized"]));
    assert!(!minimized_start_requested(&["minimized"]));
}

#[test]
fn dev_env_values() {
    for v in ["1", "true", "TRUE", "yes", "YES"] {
        assert!(dev_env_value_enabled(v));
    }
    for v in ["0", "True", "", "on"] {
        assert!(!dev_env_value_enabled(v));
    }
}

#[test]
fn ci_shell_choice() {
    assert_eq!(ci_interpreter(true, true), Some("bash"));
    assert_eq!(ci_interpreter(false, true), Some("sh"));
    assert_eq!(ci_interpreter(false, false), None);
}

#[test]
fn command_lines_are_formatted() {
    assert_eq!(format_command("cargo", &[]), "cargo");
    assert_eq!(format_command("cargo", &["fmt", "--all"]), "cargo fmt --all");
}
