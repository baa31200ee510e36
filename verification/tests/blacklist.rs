use tiez_slim::blacklist::{AppBlacklist, ExclusionMode};

#[test]
fn substring_pattern_matches_wm_class() {
    let bl = AppBlacklist::new(vec!["*keepassxc*".to_string()]);
    assert!(bl.is_match("org.keepassxc.KeePassXC"));
    assert!(!bl.is_match("org.kde.dolphin"));
}

#[test]
fn password_glob_matches_substring() {
    let bl = AppBlacklist::new(vec!["*password*".to_string()]);
    assert!(bl.is_match("my-password-manager"));
    assert!(!bl.is_match("org.keepassxc.KeePassXC"));
    assert!(!bl.is_match("org.kde.dolphin"));
}

#[test]
fn exact_pattern_case_sensitive() {
    let bl = AppBlacklist::new(vec!["firefox".to_string()]);
    assert!(bl.is_match("firefox"));
    assert!(!bl.is_match("Firefox"));
}

#[test]
fn empty_patterns_never_match() {
    let bl = AppBlacklist::new(vec![]);
    assert!(!bl.is_match("org.keepassxc.KeePassXC"));
    assert!(!bl.is_match("anything"));
    assert!(!bl.is_match(""));
}

#[test]
fn empty_wm_class_never_matches() {
    let bl = AppBlacklist::new(vec!["*".to_string()]);
    assert!(!bl.is_match(""));
}

#[test]
fn multiple_patterns_any_match() {
    let bl = AppBlacklist::new(vec!["*keepassxc*".to_string(), "*bitwarden*".to_string()]);
    assert!(bl.is_match("org.keepassxc.KeePassXC"));
    assert!(bl.is_match("com.bitwarden.desktop"));
    assert!(!bl.is_match("org.kde.dolphin"));
}

#[test]
fn compile_100_patterns_under_10ms() {
    let patterns: Vec<String> = (0..100).map(|i| format!("pattern_{i}_*")).collect();
    let start = std::time::Instant::now();
    let bl = AppBlacklist::new(patterns);
    let elapsed = start.elapsed();
    assert!(
        elapsed.as_millis() < 10,
        "compiling 100 patterns took {}ms (limit: 10ms)",
        elapsed.as_millis()
    );
    assert!(bl.is_match("pattern_50_suffix"));
}

#[test]
fn from_vec_behaves_like_new() {
    let bl = AppBlacklist::from_vec(vec!["*test*".to_string()]);
    assert!(bl.is_match("my-test-app"));
    assert!(!bl.is_match("unrelated"));
}

#[test]
fn unparsable_patterns_are_skipped() {
    let bl = AppBlacklist::new(vec!["[unclosed".to_string(), "*vault*".to_string()]);
    assert!(bl.is_match("my-vault"));
    assert!(!bl.is_match("[unclosed"));
}

#[test]
fn exclusion_mode_defaults_to_blacklist() {
    assert_eq!(ExclusionMode::default(), ExclusionMode::Blacklist);
}
