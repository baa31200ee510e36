use tiez_slim::text::{chars_of, contains, decode_utf16_lossy, encode_utf16, replace_all, split_nonblank, string_from_chars, trim};

fn chars(s: &str) -> Vec<char> {
    s.chars().collect()
}

fn text(v: &[char]) -> String {
    v.iter().collect()
}

#[test]
fn replace_is_left_to_right_and_non_overlapping() {
    assert_eq!(text(&replace_all(&chars("aaa"), &chars("aa"), &chars("b"))), "ba");
    assert_eq!(text(&replace_all(&chars("x%%y"), &chars("%%"), &chars("%"))), "x%y");
}

#[test]
fn trim_strips_unicode_white_space() {
    assert_eq!(text(&trim(&chars("\u{3000} a b \t\n"))), "a b");
    assert!(trim(&chars("   ")).is_empty());
}

#[test]
fn contains_finds_substrings() {
    assert!(contains(&chars("hello world"), &chars("o w")));
    assert!(contains(&chars("abc"), &chars("")));
    assert!(!contains(&chars("abc"), &chars("abcd")));
}

#[test]
fn lines_are_trimmed_and_blank_ones_dropped() {
    let lines: Vec<String> = split_nonblank(&chars(" a \n\n b\r\n"), '\n').iter().map(|l| text(l)).collect();
    assert_eq!(lines, vec!["a", "b"]);
    assert_eq!(string_from_chars(&chars_of("héllo")), "héllo");
}

#[test]
fn utf16_encoding_matches_std() {
    for s in ["", "abc", "héllo", "日本", "😀x", "\u{ffff}\u{10000}\u{10ffff}"] {
        assert_eq!(encode_utf16(s), s.encode_utf16().collect::<Vec<u16>>());
    }
}

#[test]
fn utf16_decoding_matches_std_lossy() {
    let cases: [&[u16]; 5] = [&[], &[0x61, 0x62], &[0xd83d, 0xde00], &[0xdc00, 0x61, 0xd800], &[0xd800, 0xd800, 0xdc00]];
    for units in cases {
        let ours: String = decode_utf16_lossy(units).into_iter().collect();
        assert_eq!(ours, String::from_utf16_lossy(units));
    }
}
