use std::collections::HashSet;
use tiez_slim::actions::{Action, ActionKind};
use tiez_slim::ui::action_editor::{kind_from_label, kind_label_of, ActionEditor, EditorResult};
use tiez_slim::ui::context_menu_actions::action_menu_label;
use tiez_slim::ui::settings::snippets::snippet_from_editor;
use tiez_slim::ui::settings::actions::{normalize_allowlist, pattern_test_match_count, PANEL_INDEX};
use tiez_slim::platform::AppChoice;
use tiez_slim::ui::settings::{
    app_combo_options, combo_listing, font_combo_options, has_panel, panel_expanded, parse_hex_color,
    pick_option, record_panel_expanded,
    DropdownOption, HexColor, SettingsTab, MAX_SHOWN_OPTIONS,
};
use tiez_slim::ui::widgets::MacosButtonStyle;

#[test]
fn editor_result_variants() {
    let action = Action::new("test", "pat", "cmd");
    let save = EditorResult::Save(action.clone());
    assert!(matches!(save, EditorResult::Save(_)));

    let del = EditorResult::Delete(42);
    assert!(matches!(del, EditorResult::Delete(42)));

    let cancel = EditorResult::Cancel;
    assert!(matches!(cancel, EditorResult::Cancel));
}

#[test]
fn action_editor_open_new() {
    let mut editor = ActionEditor::default();
    editor.open_new();
    assert!(editor.is_open);
    assert!(editor.editing_id.is_none());
    assert!(editor.name.is_empty());
}

#[test]
fn action_editor_open_edit() {
    let mut editor = ActionEditor::default();
    let mut action = Action::new("Test", "^https://", "firefox %1");
    action.auto_trigger = true;
    action.toolbar_button = true;
    editor.open_edit(&action);
    assert!(editor.is_open);
    assert_eq!(editor.editing_id, Some(action.id));
    assert_eq!(editor.name, "Test");
    assert!(editor.auto_trigger);
    assert!(editor.toolbar_button);
}

#[test]
fn action_editor_close() {
    let mut editor = ActionEditor::default();
    editor.open_new();
    assert!(editor.is_open);
    editor.close();
    assert!(!editor.is_open);
}

#[test]
fn new_action_defaults_to_shell_command() {
    let mut editor = ActionEditor::default();
    editor.open_new();
    assert_eq!(editor.kind, "shell_command");
    assert!(editor.enabled);
    assert_eq!(kind_from_label(&editor.kind), ActionKind::ShellCommand);
}

#[test]
fn saving_trims_fields_and_keeps_the_id() {
    let mut editor = ActionEditor::default();
    let mut action = Action::new("Search", "^https?://", "firefox %clipboard");
    action.id = 77;
    action.kind = ActionKind::Open;
    action.sort_order = 3;
    editor.open_edit(&action);
    editor.name = "  Search web  ".to_string();
    match editor.submit() {
        Some(EditorResult::Save(saved)) => {
            assert_eq!(saved.id, 77);
            assert_eq!(saved.name, "Search web");
            assert_eq!(saved.pattern, "^https?://");
            assert_eq!(saved.kind, ActionKind::Open);
            assert_eq!(saved.sort_order, 3);
        }
        other => panic!("expected a saved action, got {other:?}"),
    }
    assert!(!editor.is_open);
}

#[test]
fn blank_fields_refuse_to_save() {
    let mut editor = ActionEditor::default();
    editor.open_new();
    editor.name = "Name".to_string();
    editor.pattern = "   ".to_string();
    editor.command = "echo".to_string();
    assert!(editor.build_action().is_none());
    assert!(editor.submit().is_none());
    assert!(editor.is_open);
}

#[test]
fn new_actions_save_with_id_zero() {
    let mut editor = ActionEditor::default();
    editor.open_new();
    editor.name = "N".to_string();
    editor.pattern = "p".to_string();
    editor.command = "c".to_string();
    let a = editor.build_action().unwrap();
    assert_eq!(a.id, 0);
    assert_eq!(a.kind, ActionKind::ShellCommand);
}

#[test]
fn delete_only_while_editing() {
    let mut editor = ActionEditor::default();
    editor.open_new();
    assert!(editor.delete().is_none());
    assert!(editor.is_open);
    let mut action = Action::new("A", "a", "a");
    action.id = 5;
    editor.open_edit(&action);
    assert!(matches!(editor.delete(), Some(EditorResult::Delete(5))));
    assert!(!editor.is_open);
}

#[test]
fn cancel_closes() {
    let mut editor = ActionEditor::default();
    editor.open_new();
    assert!(matches!(editor.cancel(), EditorResult::Cancel));
    assert!(!editor.is_open);
}

#[test]
fn edit_then_save_round_trips_except_open_with() {
    for kind in [ActionKind::Open, ActionKind::Copy, ActionKind::ShellCommand] {
        let mut action = Action::new("Name", "pat", "cmd");
        action.kind = kind;
        let mut editor = ActionEditor::default();
        editor.open_edit(&action);
        assert_eq!(editor.build_action().unwrap().kind, kind);
    }
    let mut action = Action::new("Name", "pat", "cmd");
    action.kind = ActionKind::OpenWith;
    let mut editor = ActionEditor::default();
    editor.open_edit(&action);
    assert_eq!(editor.kind, "openwith");
    assert_eq!(editor.build_action().unwrap().kind, ActionKind::ShellCommand);
    assert_eq!(kind_from_label("open_with"), ActionKind::OpenWith);
    assert_eq!(kind_label_of(ActionKind::ShellCommand), "shellcommand");
}

#[test]
fn panel_index_is_8() {
    assert_eq!(PANEL_INDEX, 8);
}

#[test]
fn allowlist_is_normalised() {
    assert_eq!(normalize_allowlist("  firefox \n\n\r\n code\r\n"), "firefox\ncode");
    assert_eq!(normalize_allowlist(""), "");
    assert_eq!(normalize_allowlist("   \n  "), "");
    assert_eq!(normalize_allowlist("one"), "one");
}

#[test]
fn pattern_tester_counts_enabled_matches() {
    let mut off = Action::new("Off", "https://", "x");
    off.enabled = false;
    let actions = vec![
        Action::new("Url", r"^https://", "x"),
        Action::new("Glob", "*example*", "x"),
        off,
        Action::new("Empty", "", "x"),
        Action::new("Digits", r"^\d+$", "x"),
    ];
    assert_eq!(pattern_test_match_count(&actions, "https://example.com"), 2);
    assert_eq!(pattern_test_match_count(&actions, "42"), 1);
    assert_eq!(pattern_test_match_count(&actions, ""), 0);
}

#[test]
fn test_dispatch_panel_implemented_count() {
    assert_eq!(SettingsTab::IMPLEMENTED.len(), 11, "Expected 11 implemented panels");
}

#[test]
fn test_dispatch_panel_all_implemented_variants_covered() {
    let mut seen = HashSet::new();
    for &tab in SettingsTab::IMPLEMENTED {
        assert!(seen.insert(tab), "Duplicate tab variant: {tab:?}");
    }
}

#[test]
fn test_settings_tab_debug() {
    let tab = SettingsTab::General;
    let debug = format!("{tab:?}");
    assert_eq!(debug, "General");
}

#[test]
fn button_styles_differ() {
    assert_ne!(MacosButtonStyle::Normal, MacosButtonStyle::Primary);
    assert_eq!(MacosButtonStyle::Danger, MacosButtonStyle::Danger);
}

#[test]
fn tabs_with_panels_are_the_implemented_ones() {
    for tab in [SettingsTab::Primary, SettingsTab::Encryption] {
        assert!(!has_panel(tab));
        assert!(!SettingsTab::IMPLEMENTED.contains(&tab));
    }
    for &tab in SettingsTab::IMPLEMENTED {
        assert!(has_panel(tab));
    }
}

#[test]
fn combo_search_filters_case_insensitively() {
    let options = vec![
        DropdownOption::borrowed("", "System default"),
        DropdownOption::borrowed("code.exe", "Visual Studio Code"),
        DropdownOption::owned("notepad.exe".to_string(), "Notepad".to_string()),
    ];
    assert_eq!(combo_listing(&options, ""), vec![0, 1, 2]);
    assert_eq!(combo_listing(&options, "  NOTE "), vec![2]);
    assert_eq!(combo_listing(&options, "code.EXE"), vec![1]);
    assert_eq!(combo_listing(&options, "studio code"), vec![1]);
    assert!(combo_listing(&options, "zzz").is_empty());
}

#[test]
fn combo_listing_is_capped() {
    let options: Vec<DropdownOption> =
        (0..100).map(|i| DropdownOption::owned(format!("v{i}"), format!("Font {i}"))).collect();
    let shown = combo_listing(&options, "font");
    assert_eq!(shown.len(), MAX_SHOWN_OPTIONS);
    assert_eq!(shown[79], 79);
}

#[test]
fn combo_option_lists() {
    let apps = vec![AppChoice { name: "Notepad".to_string(), command: "notepad.exe".to_string(), is_default: true }];
    let opts = app_combo_options(&apps, "System default");
    assert_eq!(opts, vec![
        DropdownOption::borrowed("", "System default"),
        DropdownOption::borrowed("notepad.exe", "Notepad  (notepad.exe)"),
    ]);
    let fonts = font_combo_options(&vec!["Inter".to_string()], "auto", "Automatic");
    assert_eq!(fonts, vec![
        DropdownOption::borrowed("auto", "Automatic"),
        DropdownOption::borrowed("Inter", "Inter"),
    ]);
}

#[test]
fn picking_an_option_selects_it_and_clears_search() {
    let mut selected = "a".to_string();
    let mut search = "query".to_string();
    let option = DropdownOption::borrowed("b", "B");
    assert!(pick_option(&mut selected, &mut search, &option));
    assert_eq!(selected, "b");
    assert!(search.is_empty());
    assert!(!pick_option(&mut selected, &mut search, &option));
}

#[test]
fn hex_colors_parse() {
    assert_eq!(parse_hex_color("#FF8000"), Some(HexColor { r: 255, g: 128, b: 0, a: 255 }));
    assert_eq!(parse_hex_color("  0a0b0c80 "), Some(HexColor { r: 10, g: 11, b: 12, a: 128 }));
    assert_eq!(parse_hex_color("#+f+f+f"), Some(HexColor { r: 15, g: 15, b: 15, a: 255 }));
    assert_eq!(parse_hex_color("#12345"), None);
    assert_eq!(parse_hex_color("#12345g"), None);
    assert_eq!(parse_hex_color("##123456"), None);
    assert_eq!(parse_hex_color(""), None);
    assert_eq!(parse_hex_color("#éé1234"), None);
}

#[test]
fn panel_collapse_state_is_recorded() {
    let mut collapsed = vec![false; 9];
    assert!(panel_expanded(&collapsed, PANEL_INDEX));
    assert!(!record_panel_expanded(&mut collapsed, PANEL_INDEX, true));
    assert!(record_panel_expanded(&mut collapsed, PANEL_INDEX, false));
    assert!(collapsed[PANEL_INDEX]);
    assert!(!panel_expanded(&collapsed, PANEL_INDEX));
    assert!(panel_expanded(&collapsed, 20));
    assert!(!record_panel_expanded(&mut collapsed, 20, false));
    assert_eq!(collapsed.len(), 9);
}

#[test]
fn normalising_twice_changes_nothing() {
    for text in ["  a \n\n b\r\n", "", "x\ny", " \t\n one two \n"] {
        let once = normalize_allowlist(text);
        assert_eq!(normalize_allowlist(&once), once);
    }
}

#[test]
fn menu_labels_show_the_icon_first() {
    let mut a = Action::new("Open URL", "^https://", "xdg-open %clipboard");
    assert_eq!(action_menu_label(&a), "Open URL");
    a.icon = "🌐".to_string();
    assert_eq!(action_menu_label(&a), "🌐 Open URL");
}

#[test]
fn a_closed_editor_yields_nothing() {
    let mut action = Action::new("A", "a", "a");
    action.id = 9;
    let mut editor = ActionEditor::default();
    editor.open_edit(&action);
    editor.close();
    assert!(editor.submit().is_none());
    assert!(editor.delete().is_none());
    assert!(!editor.is_open);
    assert_eq!(editor.editing_id, Some(9));
}

#[test]
fn snippets_need_a_name_and_a_template() {
    assert!(snippet_from_editor(None, "  ", "body", "", "").is_none());
    assert!(snippet_from_editor(None, "name", "\n", "", "").is_none());
    let d = snippet_from_editor(Some(4), " Greeting ", " Hello {name} ", "  says hi ", " work, ,home ,").unwrap();
    assert_eq!(d.id, Some(4));
    assert_eq!(d.name, "Greeting");
    assert_eq!(d.template, "Hello {name}");
    assert_eq!(d.description, "says hi");
    assert_eq!(d.tags, vec!["work".to_string(), "home".to_string()]);
    let n = snippet_from_editor(None, "n", "t", "", "").unwrap();
    assert_eq!(n.id, None);
    assert!(n.tags.is_empty());
}
