use tiez_slim::actions::matcher::{is_glob_pattern, ActionMatcher, ActionSource};
use tiez_slim::actions::Action;

fn make_action(name: &str, pattern: &str, enabled: bool) -> Action {
    let mut a = Action::new(name, pattern, "echo %1");
    a.enabled = enabled;
    a
}

fn make_auto_action(name: &str, pattern: &str, auto_trigger: bool, auto_primary: bool) -> Action {
    let mut a = Action::new(name, pattern, "echo %1");
    a.enabled = true;
    a.auto_trigger = auto_trigger;
    a.auto_trigger_primary = auto_primary;
    a
}

struct MockSource {
    actions: Vec<Action>,
}

impl ActionSource for MockSource {
    fn load_enabled_actions(&self) -> Vec<Action> {
        self.actions.clone()
    }
}

#[test]
fn regex_pattern_matches_url() {
    let actions = vec![make_action("Open URL", r"^https?://", true)];
    let matcher = ActionMatcher::new(actions);
    let m = matcher.find_first_match("https://example.com");
    assert!(m.is_some(), "should match https URL");
    assert_eq!(m.unwrap().action.name, "Open URL");
    assert!(
        matcher.find_first_match("ftp://files.example.com").is_none(),
        "should not match ftp URL"
    );
}

#[test]
fn glob_pattern_matches_substring() {
    let actions = vec![make_action("Password Alert", "*password*", true)];
    let matcher = ActionMatcher::new(actions);
    let m = matcher.find_first_match("my password is foo");
    assert!(m.is_some(), "should match text containing 'password'");
    assert_eq!(m.unwrap().action.name, "Password Alert");
    assert!(matcher.find_first_match("hello world").is_none(), "should not match unrelated text");
}

#[test]
fn find_first_match_returns_highest_priority() {
    let mut a1 = make_action("First", r"https://", true);
    a1.sort_order = 1;
    let mut a2 = make_action("Second", r"https://", true);
    a2.sort_order = 2;
    let matcher = ActionMatcher::new(vec![a2, a1]);
    let m = matcher.find_first_match("https://example.com");
    assert!(m.is_some());
    assert_eq!(m.unwrap().action.name, "Second");
}

#[test]
fn invalid_regex_does_not_panic_and_falls_back() {
    let actions = vec![make_action("Bad Regex", "[invalid(", true)];
    let matcher = ActionMatcher::new(actions);
    let m = matcher.find_first_match("anything");
    assert!(m.is_some(), "fallback regex should match any text");
    assert_eq!(m.unwrap().action.name, "Bad Regex");
}

#[test]
fn disabled_actions_are_skipped() {
    let actions = vec![make_action("Disabled", r"^match$", false)];
    let matcher = ActionMatcher::new(actions);
    assert!(matcher.compiled.is_empty(), "disabled actions should not be compiled");
    assert!(matcher.find_first_match("match").is_none());
}

#[test]
fn empty_pattern_never_matches() {
    let actions = vec![make_action("Empty", "", true)];
    let matcher = ActionMatcher::new(actions);
    assert!(matcher.find_first_match("anything").is_none(), "empty pattern should never match");
}

#[test]
fn find_matching_returns_all_matches() {
    let actions = vec![
        make_action("A", r"https://", true),
        make_action("B", r"https://", true),
        make_action("C", r"^ftp://", true),
    ];
    let matcher = ActionMatcher::new(actions);
    let results = matcher.find_matching("https://example.com");
    assert_eq!(results.len(), 2);
    assert_eq!(results[0].action.name, "A");
    assert_eq!(results[1].action.name, "B");
}

#[test]
fn from_source_uses_trait() {
    let source = MockSource { actions: vec![make_action("Mock", r"test", true)] };
    let matcher = ActionMatcher::from_source(&source);
    assert!(matcher.find_first_match("test").is_some());
    assert!(matcher.find_first_match("other").is_none());
}

#[test]
fn performance_100_actions_under_1ms() {
    let actions: Vec<Action> = (0..100)
        .map(|i| make_action(&format!("Action {i}"), &format!("pattern{i}"), true))
        .collect();
    let matcher = ActionMatcher::new(actions);
    let start = std::time::Instant::now();
    for _ in 0..100 {
        let _ = matcher.find_matching("test text");
    }
    let elapsed = start.elapsed();
    assert!(
        elapsed.as_millis() < 50,
        "100 find_matching(100 actions) took {:?}, expected < 50ms",
        elapsed
    );
}

#[test]
fn auto_trigger_false_not_matched_by_find_first_auto_trigger() {
    let actions = vec![make_auto_action("No Auto", r"https://", false, false)];
    let matcher = ActionMatcher::new(actions);
    assert!(matcher.find_first_auto_trigger("https://example.com").is_none());
}

#[test]
fn auto_trigger_true_matched_by_find_first_auto_trigger() {
    let actions = vec![make_auto_action("Auto URL", r"https://", true, false)];
    let matcher = ActionMatcher::new(actions);
    let m = matcher.find_first_auto_trigger("https://example.com");
    assert!(m.is_some(), "action with auto_trigger=true should be found");
    assert_eq!(m.unwrap().action.name, "Auto URL");
    assert!(matcher.find_first_auto_trigger("not a url").is_none());
}

#[test]
fn auto_trigger_primary_respected() {
    let actions = vec![make_auto_action("Primary Only", r"selected", false, true)];
    let matcher = ActionMatcher::new(actions);
    assert!(matcher.find_first_auto_trigger("selected").is_none());
    assert!(matcher.find_first_auto_trigger_primary("selected").is_some());
}

#[test]
fn glob_detection_respects_anchors() {
    let chars = |s: &str| s.chars().collect::<Vec<char>>();
    assert!(is_glob_pattern(&chars("*.png")));
    assert!(is_glob_pattern(&chars("file?.txt")));
    assert!(!is_glob_pattern(&chars("^a*b")));
    assert!(!is_glob_pattern(&chars("a*b$")));
    assert!(!is_glob_pattern(&chars("plain")));
}

#[test]
fn first_match_heads_the_matching_list() {
    let actions = vec![
        make_action("Digits", r"^\d+$", true),
        make_action("Any", r".", true),
    ];
    let matcher = ActionMatcher::new(actions);
    let all = matcher.find_matching("123");
    let first = matcher.find_first_match("123").unwrap();
    assert_eq!(all.len(), 2);
    assert_eq!(first.action.name, all[0].action.name);
    assert_eq!(matcher.find_first_match("abc").unwrap().action.name, "Any");
}

#[test]
fn trimmed_pattern_is_used() {
    let actions = vec![make_action("Spaced", "  ^abc$  ", true)];
    let matcher = ActionMatcher::new(actions);
    assert!(matcher.find_first_match("abc").is_some());
}

#[test]
fn auto_trigger_search_picks_the_first_auto_match() {
    let actions = vec![
        make_auto_action("Manual", r"https://", false, false),
        make_auto_action("Primary", r"https://", false, true),
        make_auto_action("Auto", r"https://", true, false),
    ];
    let matcher = ActionMatcher::new(actions);
    let all = matcher.find_matching("https://example.com");
    let first_auto = all.iter().find(|c| c.action.auto_trigger).map(|c| c.action.name.clone());
    let found = matcher.find_first_auto_trigger("https://example.com").map(|c| c.action.name.clone());
    assert_eq!(found, first_auto);
    assert_eq!(found.as_deref(), Some("Auto"));
    assert_eq!(
        matcher.find_first_auto_trigger_primary("https://example.com").map(|c| c.action.name.as_str()),
        Some("Primary")
    );
    assert!(matcher.find_first_auto_trigger("not a url").is_none());
}
