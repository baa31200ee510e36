use tiez_slim::i18n::{detect_from_raw, detect_system_locale_from, resolve_locale_choice, set_app_locale, set_app_locale_choice};

#[test]
fn test_detect_zh_cn() {
    assert_eq!(detect_from_raw("zh_CN.UTF-8"), "zh-CN");
}

#[test]
fn test_detect_en_us() {
    assert_eq!(detect_from_raw("en_US.UTF-8"), "en-US");
}

#[test]
fn test_detect_fallback_french() {
    assert_eq!(detect_from_raw("fr_FR.UTF-8"), "en-US");
}

#[test]
fn test_detect_empty() {
    assert_eq!(detect_from_raw(""), "en-US");
}

#[test]
fn test_detect_c() {
    assert_eq!(detect_from_raw("C"), "en-US");
}

#[test]
fn detect_recognises_other_chinese_spellings() {
    assert_eq!(detect_from_raw("ZH_TW.Big5"), "zh-CN");
    assert_eq!(detect_from_raw("Chinese (Simplified)_China.936"), "zh-CN");
    assert_eq!(detect_from_raw("en_US.chinese"), "en-US");
}

#[test]
fn choices_resolve_to_supported_locales() {
    assert_eq!(resolve_locale_choice("zh-CN", "en_US.UTF-8"), "zh-CN");
    assert_eq!(resolve_locale_choice("en-US", "zh_CN.UTF-8"), "en-US");
    assert_eq!(resolve_locale_choice("follow-system", "zh_CN.UTF-8"), "zh-CN");
    assert_eq!(resolve_locale_choice("follow-system", "de_DE.UTF-8"), "en-US");
    assert_eq!(resolve_locale_choice("klingon", "zh_CN.UTF-8"), "en-US");
}

#[test]
fn only_supported_locales_are_applied() {
    assert!(set_app_locale("en-US"));
    assert!(!set_app_locale("fr-FR"));
    assert_eq!(set_app_locale_choice("follow-system", "C"), "en-US");
}

#[test]
fn system_locale_prefers_platform_then_lc_messages_then_lang() {
    let s = |v: &str| Some(v.to_string());
    assert_eq!(detect_system_locale_from(s("zh-CN"), s("en_US.UTF-8"), None), "zh-CN");
    assert_eq!(detect_system_locale_from(None, s("en_US.UTF-8"), s("zh_CN.UTF-8")), "en-US");
    assert_eq!(detect_system_locale_from(None, None, s("zh_TW.UTF-8")), "zh-CN");
    assert_eq!(detect_system_locale_from(None, None, None), "en-US");
}
