//! Locale selection: mapping raw system locale names and persisted language
//! choices to the two supported application locales, `zh-CN` and `en-US`.

use crate::text::{
    before_char, chars_of, contains, contains_seq, prefix_before, replace_char, replace_char_seq,
    starts_with, starts_with_seq, str_eq, string_from_chars, to_lowercase, unicode_lowercase,
};
use vstd::prelude::*;

verus! {

/// The language part of a raw locale name (`zh_CN.UTF-8` gives `zh-cn`):
/// the text before the first `.`, with `_` turned into `-`, lower-cased.
pub open spec fn normalized_language(raw: Seq<char>) -> Seq<char> {
    unicode_lowercase(replace_char_seq(before_char(raw, '.'), '_', '-'))
}

/// The locale detected from a raw locale name: `zh-CN` for Chinese
/// (`zh*` or anything mentioning `chinese`), `en-US` for everything else.
pub open spec fn detect_spec(raw: Seq<char>) -> Seq<char> {
    let lang = normalized_language(raw);
    if starts_with_seq(lang, "zh"@) || contains_seq(lang, "chinese"@) {
        "zh-CN"@
    } else {
        "en-US"@
    }
}

/// The locales the application ships.
pub open spec fn is_supported_locale(lang: Seq<char>) -> bool {
    lang == "zh-CN"@ || lang == "en-US"@
}

/// The locale a persisted language choice stands for: the system's (detected
/// from its raw locale name) for `follow-system`, a supported locale as it
/// is, and `en-US` for anything else.
pub open spec fn resolve_spec(lang: Seq<char>, system_raw: Seq<char>) -> Seq<char> {
    if lang == "follow-system"@ {
        detect_spec(system_raw)
    } else if is_supported_locale(lang) {
        lang
    } else {
        "en-US"@
    }
}

/// Detects the locale from a raw locale string such as `zh_CN.UTF-8`.
///
/// Rules: `zh*` / `*chinese*` give `zh-CN`, everything else `en-US`.
pub fn detect_from_raw(raw: &str) -> (r: String)
    ensures
        r@ == detect_spec(raw@),
{
    let raw_chars = chars_of(raw);
    let first = prefix_before(raw_chars.as_slice(), '.');
    let dashed = replace_char(first.as_slice(), '_', '-');
    let dashed_str = string_from_chars(dashed.as_slice());
    let lower = to_lowercase(dashed_str.as_str());
    let lang = chars_of(lower.as_str());
    let zh = chars_of("zh");
    let chinese = chars_of("chinese");
    if starts_with(lang.as_slice(), zh.as_slice()) || contains(lang.as_slice(), chinese.as_slice()) {
        "zh-CN".to_owned()
    } else {
        "en-US".to_owned()
    }
}

/// `rust_i18n::set_locale`: makes `locale` the locale of later translations.
/// Nothing is claimed: the effect is on the crate's global locale.
#[verifier::external_body]
fn set_locale(locale: &str) {
    rust_i18n::set_locale(locale);
}

/// Sets the application locale when `lang` is `zh-CN` or `en-US`; other
/// values are ignored. Returns whether the locale was set.
pub fn set_app_locale(lang: &str) -> (applied: bool)
    ensures
        applied == is_supported_locale(lang@),
{
    if str_eq(lang, "zh-CN") || str_eq(lang, "en-US") {
        set_locale(lang);
        true
    } else {
        false
    }
}

/// Resolves a persisted language choice to a concrete application locale;
/// `system_raw` is the system's raw locale name, used for `follow-system`.
pub fn resolve_locale_choice(lang: &str, system_raw: &str) -> (r: String)
    ensures
        r@ == resolve_spec(lang@, system_raw@),
{
    if str_eq(lang, "follow-system") {
        detect_from_raw(system_raw)
    } else if str_eq(lang, "zh-CN") || str_eq(lang, "en-US") {
        lang.to_owned()
    } else {
        "en-US".to_owned()
    }
}

/// Applies a persisted language choice, including `follow-system`, and
/// returns the locale applied.
pub fn set_app_locale_choice(lang: &str, system_raw: &str) -> (r: String)
    ensures
        r@ == resolve_spec(lang@, system_raw@),
        is_supported_locale(r@),
{
    let locale = resolve_locale_choice(lang, system_raw);
    proof {
        lemma_resolved_locale_is_supported(lang@, system_raw@);
    }
    let applied = set_app_locale(locale.as_str());
    assert(applied);
    locale
}

/// The raw system locale name: the platform's own, else `LC_MESSAGES`, else
/// `LANG`, else empty.
pub open spec fn system_locale_raw(platform: Option<Seq<char>>, lc_messages: Option<Seq<char>>, lang: Option<Seq<char>>) -> Seq<char> {
    match platform {
        Some(p) => p,
        None => match lc_messages {
            Some(m) => m,
            None => match lang {
                Some(l) => l,
                None => Seq::empty(),
            },
        },
    }
}

/// The raw system locale name from the platform's own, `LC_MESSAGES` and
/// `LANG` (see [`system_locale_raw`]).
pub fn system_locale_raw_from(platform: Option<String>, lc_messages: Option<String>, lang: Option<String>) -> (r: String)
    ensures
        r@ == system_locale_raw(
            match platform { Some(p) => Some(p@), None => None },
            match lc_messages { Some(m) => Some(m@), None => None },
            match lang { Some(l) => Some(l@), None => None },
        ),
{
    match platform {
        Some(p) => p,
        None => match lc_messages {
            Some(m) => m,
            None => match lang {
                Some(l) => l,
                None => String::new(),
            },
        },
    }
}

/// Detects the system locale from the platform's locale name and the
/// `LC_MESSAGES` and `LANG` variables, in that order of preference.
pub fn detect_system_locale_from(platform: Option<String>, lc_messages: Option<String>, lang: Option<String>) -> (r: String)
    ensures
        r@ == detect_spec(system_locale_raw(
            match platform { Some(p) => Some(p@), None => None },
            match lc_messages { Some(m) => Some(m@), None => None },
            match lang { Some(l) => Some(l@), None => None },
        )),
{
    let raw = system_locale_raw_from(platform, lc_messages, lang);
    detect_from_raw(raw.as_str())
}

/// Law: every language choice resolves to a supported locale, so applying a
/// choice always takes effect.
pub proof fn lemma_resolved_locale_is_supported(lang: Seq<char>, system_raw: Seq<char>)
    ensures
        is_supported_locale(resolve_spec(lang, system_raw)),
{
}

/// Law: every raw locale name whose language part begins with `zh` (`zh_CN`,
/// `zh_TW`, `zh_HK`, bare `zh`, ...) or mentions `chinese` anywhere is
/// detected as `zh-CN`; every other one as `en-US`.
pub proof fn lemma_chinese_languages_detect_zh_cn(raw: Seq<char>)
    ensures
        ({
            let lang = normalized_language(raw);
            ||| (lang.len() >= 2 && lang[0] == 'z' && lang[1] == 'h')
            ||| exists|k: int|
                0 <= k && k + "chinese"@.len() <= lang.len()
                    && #[trigger] lang.subrange(k, k + "chinese"@.len()) == "chinese"@
        }) <==> detect_spec(raw) == "zh-CN"@,
        detect_spec(raw) != "zh-CN"@ ==> detect_spec(raw) == "en-US"@,
{
    let lang = normalized_language(raw);
    reveal_strlit("zh");
    reveal_strlit("zh-CN");
    reveal_strlit("en-US");
    assert("zh"@ =~= seq!['z', 'h']);
    assert("zh-CN"@[3] != "en-US"@[3]);
    if lang.len() >= 2 && lang[0] == 'z' && lang[1] == 'h' {
        assert(lang.subrange(0, 2) =~= "zh"@);
    }
    if contains_seq(lang, "chinese"@) {
        let k = choose|k: int| crate::text::occurs_at(lang, "chinese"@, k);
        assert(lang.subrange(k, k + "chinese"@.len()) == "chinese"@);
    }
    if exists|k: int|
        0 <= k && k + "chinese"@.len() <= lang.len()
            && #[trigger] lang.subrange(k, k + "chinese"@.len()) == "chinese"@ {
        let k = choose|k: int|
            0 <= k && k + "chinese"@.len() <= lang.len()
                && #[trigger] lang.subrange(k, k + "chinese"@.len()) == "chinese"@;
        assert(crate::text::occurs_at(lang, "chinese"@, k));
    }
    if starts_with_seq(lang, "zh"@) {
        assert(lang[0] == lang.subrange(0, 2)[0]);
        assert(lang[1] == lang.subrange(0, 2)[1]);
    }
}

/// Law: detection always yields a supported locale.
pub proof fn lemma_detected_locale_is_supported(raw: Seq<char>)
    ensures
        is_supported_locale(detect_spec(raw)),
{
}

} // verus!
