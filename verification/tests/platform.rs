use tiez_slim::platform::windows::{
    apps_use_light_theme_to_dark, assemble_app_choices, extension_for_mime, hotkey_plan,
    hotkey_wakes_window, is_middle_mouse_combo, key_to_vk, locale_name_from_buffer,
    middle_mouse_fires,
    parse_command_to_exe, parse_hotkey_combo, paste_strokes, push_app_choice,
    push_common_windows_choices, release_modifier_strokes, sort_choices, tray_click,
    tray_menu_command, tray_notification_code, unicode_text_strokes, validate_hotkey, wrap_wide,
    HotkeyBinding, KeyStroke, TrayClick, TrayCommand, MENU_ITEM_QUIT, MENU_ITEM_SETTINGS,
    MENU_ITEM_SHOW_HIDE, MOD_ALT, MOD_CONTROL, MOD_NOREPEAT, MOD_SHIFT, MOD_WIN, TRAY_ICON_ID,
    VK_CONTROL, VK_INSERT, VK_MENU, VK_SHIFT, VK_V,
};
use tiez_slim::platform::{
    active_app_name, autostart_enabled, discover_apps_for_mime, AppChoice, HotkeyAction, TrayHandle,
    HotkeyConfig, KeyboardModifiers, PasteMethod,
};

const WM_LBUTTONUP: u32 = 0x0202;

fn choice(name: &str, command: &str, is_default: bool) -> AppChoice {
    AppChoice { name: name.to_string(), command: command.to_string(), is_default }
}

#[test]
fn mouse_middle_is_a_valid_windows_hotkey() {
    assert!(validate_hotkey("MouseMiddle").is_ok());
}

#[test]
fn tray_notification_uses_low_word_with_version_four() {
    let packed = ((TRAY_ICON_ID << 16) | WM_LBUTTONUP) as isize;
    assert_eq!(tray_notification_code(packed), WM_LBUTTONUP);
}

#[test]
fn windows_light_theme_value_maps_to_dark_mode() {
    assert!(!apps_use_light_theme_to_dark(1));
    assert!(apps_use_light_theme_to_dark(0));
}

#[test]
fn hotkey_combos_parse_to_modifiers_and_keys() {
    assert_eq!(parse_hotkey_combo("Ctrl+Shift+V"), Some((MOD_CONTROL | MOD_SHIFT | MOD_NOREPEAT, 0x56)));
    assert_eq!(parse_hotkey_combo(" alt + F4 "), Some((MOD_ALT | MOD_NOREPEAT, 0x73)));
    assert_eq!(parse_hotkey_combo("Win+Space"), Some((MOD_WIN | MOD_NOREPEAT, 0x20)));
    assert_eq!(parse_hotkey_combo("Ctrl+Shift"), None);
    assert_eq!(parse_hotkey_combo("Ctrl+Banana"), None);
    assert_eq!(parse_hotkey_combo(""), None);
    assert!(validate_hotkey("Ctrl+Banana").is_err());
    assert_eq!(validate_hotkey("Ctrl+Banana"), Err("Ctrl+Banana".to_string()));
}

#[test]
fn keys_map_to_virtual_key_codes() {
    assert_eq!(key_to_vk("a"), Some(0x41));
    assert_eq!(key_to_vk("Z"), Some(0x5A));
    assert_eq!(key_to_vk("7"), Some(0x37));
    assert_eq!(key_to_vk("Enter"), Some(0x0D));
    assert_eq!(key_to_vk("F12"), Some(0x7B));
    assert_eq!(key_to_vk("nope"), None);
}

#[test]
fn middle_mouse_ignores_case_and_spaces() {
    assert!(is_middle_mouse_combo("  mousemiddle "));
    assert!(!is_middle_mouse_combo("MouseLeft"));
}

#[test]
fn command_exe_is_extracted() {
    assert_eq!(parse_command_to_exe("\"C:\\Program Files\\App\\app.exe\" \"%1\""), "C:\\Program Files\\App\\app.exe");
    assert_eq!(parse_command_to_exe("notepad.exe %1"), "notepad.exe");
}

#[test]
fn app_choices_are_deduplicated_by_executable() {
    let mut choices = Vec::new();
    push_app_choice(&mut choices, "Notepad".to_string(), "notepad.exe %1".to_string(), false);
    push_app_choice(&mut choices, "Notepad again".to_string(), "NOTEPAD.EXE".to_string(), true);
    push_app_choice(&mut choices, "Blank".to_string(), "   ".to_string(), false);
    assert_eq!(choices, vec![choice("Notepad", "notepad.exe", false)]);
}

#[test]
fn common_choices_follow_the_content_type() {
    let mut choices = Vec::new();
    push_common_windows_choices("image/png", &mut choices);
    assert_eq!(choices, vec![choice("Paint", "mspaint.exe", false)]);
    let mut none = Vec::new();
    push_common_windows_choices("application/x-unknown", &mut none);
    assert!(none.is_empty());
    assert_eq!(extension_for_mime("text/plain"), Some(".txt"));
    assert_eq!(extension_for_mime("x-scheme-handler/https"), Some("http"));
    assert_eq!(extension_for_mime("audio/ogg"), None);
}

#[test]
fn choices_sort_defaults_first_then_by_name() {
    let input = vec![
        choice("zeta", "z.exe", false),
        choice("Alpha", "a.exe", false),
        choice("beta", "b.exe", true),
        choice("alpha", "a2.exe", false),
    ];
    let sorted = sort_choices(&input);
    assert_eq!(
        sorted,
        vec![
            choice("beta", "b.exe", true),
            choice("Alpha", "a.exe", false),
            choice("alpha", "a2.exe", false),
            choice("zeta", "z.exe", false),
        ]
    );
}

#[test]
fn assembled_choices_put_the_default_first() {
    let installed = vec![choice("Editor", "editor.exe", false), choice("Again", "NOTEPAD.exe", false)];
    let r = assemble_app_choices("text/plain", Some(choice("Word", "word.exe \"%1\"", false)), installed);
    assert_eq!(
        r,
        vec![
            choice("Word", "word.exe", true),
            choice("Editor", "editor.exe", false),
            choice("Notepad", "notepad.exe", false),
        ]
    );
    let no_assoc = assemble_app_choices("audio/ogg", Some(choice("Player", "player.exe", false)), vec![]);
    assert!(no_assoc.is_empty());
}

#[test]
fn assembled_choices_stop_at_two_hundred() {
    let installed: Vec<AppChoice> =
        (0..250).map(|i| choice(&format!("app{i:03}"), &format!("app{i:03}.exe"), false)).collect();
    let r = assemble_app_choices("audio/ogg", None, installed);
    assert_eq!(r.len(), 200);
    assert_eq!(r[0].name, "app000");
    assert_eq!(r[199].name, "app199");
}

fn config(main: &str, sequential: &str, search: &str) -> HotkeyConfig {
    HotkeyConfig {
        main_hotkeys: main.to_string(),
        sequential_hotkey: sequential.to_string(),
        rich_paste_hotkey: String::new(),
        search_hotkey: search.to_string(),
        private_mode_hotkey: String::new(),
        snippet_picker_hotkey: String::new(),
    }
}

#[test]
fn hotkey_plan_binds_each_parsed_combo() {
    let plan = hotkey_plan(&config("Ctrl+Shift+V\n\n  Alt+Space  \nbogus+key", "Ctrl+B", "MouseMiddle"));
    assert_eq!(
        plan.bindings,
        vec![
            HotkeyBinding { mods: MOD_CONTROL | MOD_SHIFT | MOD_NOREPEAT, vk: 0x56, action: HotkeyAction::ToggleWindow },
            HotkeyBinding { mods: MOD_ALT | MOD_NOREPEAT, vk: 0x20, action: HotkeyAction::ToggleWindow },
            HotkeyBinding { mods: MOD_CONTROL | MOD_NOREPEAT, vk: 0x42, action: HotkeyAction::SequentialPaste },
        ]
    );
    assert_eq!(plan.middle_mouse, Some(HotkeyAction::FocusSearch));
}

#[test]
fn main_middle_mouse_takes_the_button() {
    let plan = hotkey_plan(&config("Ctrl+V\r\nMouseMiddle", "MouseMiddle", ""));
    assert_eq!(plan.middle_mouse, Some(HotkeyAction::ToggleWindow));
    assert_eq!(plan.bindings.len(), 1);
}

#[test]
fn portable_fallbacks() {
    assert_eq!(active_app_name(), "Unknown");
    assert_eq!(autostart_enabled(), Ok(false));
    assert!(discover_apps_for_mime("text/plain").is_empty());
    assert_eq!(KeyboardModifiers::default(), KeyboardModifiers { ctrl: false, shift: false, alt: false, super_key: false });
    assert_eq!(PasteMethod::from_str("ctrl_v"), PasteMethod::CtrlV);
    assert_eq!(PasteMethod::from_str("shift_insert"), PasteMethod::ShiftInsert);
    assert_eq!(PasteMethod::from_str("type_text"), PasteMethod::TypeText);
    assert_eq!(PasteMethod::from_str("whatever"), PasteMethod::Auto);
}

#[test]
fn tray_events() {
    assert_eq!(tray_click(WM_LBUTTONUP), TrayClick::ToggleWindow);
    assert_eq!(tray_click(0x0205), TrayClick::ShowMenu);
    assert_eq!(tray_click(0x0200), TrayClick::Ignore);
    assert_eq!(tray_menu_command(MENU_ITEM_SHOW_HIDE), Some(TrayCommand::ToggleWindow));
    assert_eq!(tray_menu_command(MENU_ITEM_SETTINGS), Some(TrayCommand::OpenSettings));
    assert_eq!(tray_menu_command(MENU_ITEM_QUIT), Some(TrayCommand::Quit));
    assert_eq!(tray_menu_command(0), None);
}

#[test]
fn hotkey_events() {
    assert!(hotkey_wakes_window(HotkeyAction::FocusSearch));
    assert!(!hotkey_wakes_window(HotkeyAction::RichPaste));
    let a = Some(HotkeyAction::SnippetPicker);
    assert_eq!(middle_mouse_fires(true, false, a), a);
    assert_eq!(middle_mouse_fires(true, true, a), None);
    assert_eq!(middle_mouse_fires(false, false, a), None);
}

#[test]
fn wide_strings_are_nul_terminated() {
    assert_eq!(wrap_wide("ab"), vec![0x61, 0x62, 0]);
    assert_eq!(wrap_wide("😀"), vec![0xd83d, 0xde00, 0]);
    assert_eq!(wrap_wide(""), vec![0]);
}

#[test]
fn paste_key_strokes() {
    let key = |vk, up| KeyStroke::Key { vk, up };
    assert_eq!(
        paste_strokes(PasteMethod::CtrlV, false),
        Some(vec![key(VK_CONTROL, false), key(VK_V, false), key(VK_V, true), key(VK_CONTROL, true)])
    );
    assert_eq!(
        paste_strokes(PasteMethod::Auto, false),
        Some(vec![key(VK_SHIFT, false), key(VK_INSERT, false), key(VK_INSERT, true), key(VK_SHIFT, true)])
    );
    assert_eq!(paste_strokes(PasteMethod::Auto, true), paste_strokes(PasteMethod::CtrlV, false));
    assert_eq!(paste_strokes(PasteMethod::TypeText, true), None);
    assert_eq!(
        release_modifier_strokes(),
        vec![key(VK_CONTROL, true), key(VK_SHIFT, true), key(VK_MENU, true)]
    );
    let uni = |unit, up| KeyStroke::Unicode { unit, up };
    assert_eq!(unicode_text_strokes("a😀"), vec![uni(0x61, false), uni(0x61, true), uni(0xf600, false), uni(0xf600, true)]);
}

#[test]
fn locale_names_come_from_the_buffer() {
    let mut buf = [0u16; 85];
    for (i, u) in "zh-CN".encode_utf16().enumerate() {
        buf[i] = u;
    }
    assert_eq!(locale_name_from_buffer(&buf, 6), Some("zh-CN".to_string()));
    assert_eq!(locale_name_from_buffer(&buf, 1), None);
    assert_eq!(locale_name_from_buffer(&buf, 0), None);
    let lone = [0x61u16, 0xd800, 0x62, 0xd83d, 0xde00, 0];
    assert_eq!(locale_name_from_buffer(&lone, 6), Some(String::from_utf16_lossy(&lone[..5])));
}

#[test]
fn tray_handle_stops_once() {
    let flag = std::sync::Arc::new(std::sync::atomic::AtomicUsize::new(0));
    let seen = std::sync::Arc::clone(&flag);
    let handle = TrayHandle::new(move || {
        seen.fetch_add(1, std::sync::atomic::Ordering::SeqCst);
    });
    handle.stop();
    assert_eq!(flag.load(std::sync::atomic::Ordering::SeqCst), 1);
}
