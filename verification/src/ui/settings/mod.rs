//! The settings window's tabs.

use crate::platform::AppChoice;
use crate::text::{
    ascii_lower_seq, chars_of, contains, contains_seq, string_from_chars, to_ascii_lower, trim,
    trim_seq, utf8_bytes,
};
use vstd::prelude::*;

pub mod actions;
pub mod snippets;

verus! {

/// A tab of the settings window.
#[derive(Clone, Copy, Debug, PartialEq, Eq, Structural, Hash)]
pub enum SettingsTab {
    General,
    Shortcuts,
    Clipboard,
    Appearance,
    DefaultApps,
    Tags,
    Data,
    Privacy,
    Actions,
    Primary,
    Encryption,
    Sync,
    Snippets,
}

impl SettingsTab {
    /// The tabs that have a panel, in display order.
    pub const IMPLEMENTED: &'static [SettingsTab; 11] = &[
        SettingsTab::General,
        SettingsTab::Shortcuts,
        SettingsTab::Clipboard,
        SettingsTab::Appearance,
        SettingsTab::DefaultApps,
        SettingsTab::Tags,
        SettingsTab::Data,
        SettingsTab::Privacy,
        SettingsTab::Actions,
        SettingsTab::Sync,
        SettingsTab::Snippets,
    ];
}

/// Whether a tab has a panel to draw (the others show a "not implemented"
/// note).
pub fn has_panel(tab: SettingsTab) -> (r: bool)
    ensures
        r == !(tab == SettingsTab::Primary || tab == SettingsTab::Encryption),
{
    match tab {
        SettingsTab::Primary | SettingsTab::Encryption => false,
        _ => true,
    }
}

/// Whether the settings group at `index` is shown expanded: it is unless it
/// is recorded as collapsed (a group with no record is expanded).
pub fn panel_expanded(collapsed: &Vec<bool>, index: usize) -> (r: bool)
    ensures
        r == !(index < collapsed@.len() && collapsed@[index as int]),
{
    !(index < collapsed.len() && collapsed[index])
}

/// Records the expanded state of the settings group at `index` after it was
/// drawn. Returns whether the record changed (and so is to be saved); a
/// group with no record keeps none.
pub fn record_panel_expanded(collapsed: &mut Vec<bool>, index: usize, expanded: bool) -> (changed: bool)
    ensures
        changed == (index < old(collapsed)@.len() && old(collapsed)@[index as int] == expanded),
        changed ==> final(collapsed)@ == old(collapsed)@.update(index as int, !expanded),
        !changed ==> final(collapsed)@ == old(collapsed)@,
{
    if index < collapsed.len() && collapsed[index] == expanded {
        collapsed.set(index, !expanded);
        true
    } else {
        false
    }
}

/// Law: the tabs listed as implemented are exactly the tabs with a panel.
pub proof fn lemma_implemented_tabs_have_panels(tab: SettingsTab)
    ensures
        SettingsTab::IMPLEMENTED@.contains(tab) <==> !(tab == SettingsTab::Primary || tab
            == SettingsTab::Encryption),
{
    let l = SettingsTab::IMPLEMENTED@;
    if !(tab == SettingsTab::Primary || tab == SettingsTab::Encryption) {
        match tab {
            SettingsTab::General => assert(l[0] == tab),
            SettingsTab::Shortcuts => assert(l[1] == tab),
            SettingsTab::Clipboard => assert(l[2] == tab),
            SettingsTab::Appearance => assert(l[3] == tab),
            SettingsTab::DefaultApps => assert(l[4] == tab),
            SettingsTab::Tags => assert(l[5] == tab),
            SettingsTab::Data => assert(l[6] == tab),
            SettingsTab::Privacy => assert(l[7] == tab),
            SettingsTab::Actions => assert(l[8] == tab),
            SettingsTab::Sync => assert(l[9] == tab),
            SettingsTab::Snippets => assert(l[10] == tab),
            _ => {},
        }
    }
}

/// Law: each tab with a panel is listed once, and the tabs without one
/// (`Primary`, `Encryption`) are not listed.
pub proof fn lemma_implemented_tabs_distinct()
    ensures
        SettingsTab::IMPLEMENTED@.len() == 11,
        forall|i: int, j: int|
            0 <= i < j < 11 ==> SettingsTab::IMPLEMENTED@[i] != SettingsTab::IMPLEMENTED@[j],
        !SettingsTab::IMPLEMENTED@.contains(SettingsTab::Primary),
        !SettingsTab::IMPLEMENTED@.contains(SettingsTab::Encryption),
{
}

/// An entry of a searchable drop-down: the value it selects and the label
/// shown for it.
#[derive(Clone, Debug, PartialEq, Eq)]
pub struct DropdownOption {
    pub value: String,
    pub label: String,
}

impl DropdownOption {
    /// An option built from borrowed text.
    pub fn borrowed(value: &str, label: &str) -> (o: Self)
        ensures
            o.value@ == value@,
            o.label@ == label@,
    {
        DropdownOption { value: value.to_owned(), label: label.to_owned() }
    }

    /// An option taking ownership of its text.
    pub fn owned(value: String, label: String) -> (o: Self)
        ensures
            o.value == value,
            o.label == label,
    {
        DropdownOption { value, label }
    }
}

/// At most this many options are listed for a search.
pub const MAX_SHOWN_OPTIONS: usize = 80;

/// The search query of a drop-down: its search text trimmed and ASCII
/// lower-cased.
pub open spec fn combo_query(search: Seq<char>) -> Seq<char> {
    ascii_lower_seq(trim_seq(search))
}

/// An option is listed for a query: every option for an empty query, else
/// those whose `"{label} {value}"`, ASCII lower-cased, contains the query.
pub open spec fn option_listed(o: DropdownOption, query: Seq<char>) -> bool {
    query.len() == 0 || contains_seq(ascii_lower_seq(o.label@ + seq![' '] + o.value@), query)
}

/// The indices of the options listed for a query, in order, before the
/// cut-off.
pub open spec fn listed_indices(options: Seq<DropdownOption>, query: Seq<char>) -> Seq<int>
    decreases options.len(),
{
    if options.len() == 0 {
        Seq::empty()
    } else {
        let before = listed_indices(options.drop_last(), query);
        if option_listed(options.last(), query) {
            before.push(options.len() - 1)
        } else {
            before
        }
    }
}

/// What a drop-down lists for its search text: the first
/// [`MAX_SHOWN_OPTIONS`] listed options, by index.
pub open spec fn combo_listing_spec(options: Seq<DropdownOption>, search: Seq<char>) -> Seq<int> {
    let all = listed_indices(options, combo_query(search));
    if all.len() > MAX_SHOWN_OPTIONS {
        all.take(MAX_SHOWN_OPTIONS as int)
    } else {
        all
    }
}

/// The options a searchable drop-down lists (by index) for its search
/// text; when the list holds [`MAX_SHOWN_OPTIONS`] entries a hint to refine
/// the search follows it, when it is empty a "no match" line replaces it.
pub fn combo_listing(options: &Vec<DropdownOption>, search: &str) -> (r: Vec<usize>)
    ensures
        r@.len() == combo_listing_spec(options@, search@).len(),
        forall|k: int| 0 <= k < r@.len() ==> r@[k] as int == #[trigger] combo_listing_spec(options@, search@)[k],
        r@.len() <= MAX_SHOWN_OPTIONS,
{
    let raw = chars_of(search);
    let t = trim(raw.as_slice());
    let query = to_ascii_lower(t.as_slice());
    let ghost q = combo_query(search@);
    let mut shown: Vec<usize> = Vec::new();
    let mut i: usize = 0;
    assert(options@.take(0) =~= Seq::<DropdownOption>::empty());
    while i < options.len()
        invariant
            i <= options@.len(),
            query@ == q,
            q == combo_query(search@),
            shown@.len() <= MAX_SHOWN_OPTIONS,
            shown@.len() == (if listed_indices(options@.take(i as int), q).len() > MAX_SHOWN_OPTIONS {
                MAX_SHOWN_OPTIONS as int
            } else {
                listed_indices(options@.take(i as int), q).len() as int
            }),
            forall|k: int| 0 <= k < shown@.len() ==> shown@[k] as int == #[trigger] listed_indices(options@.take(i as int), q)[k],
            shown@.len() < MAX_SHOWN_OPTIONS || listed_indices(options@.take(i as int), q).len() >= MAX_SHOWN_OPTIONS,
        decreases options@.len() - i,
    {
        let ghost before = listed_indices(options@.take(i as int), q);
        proof {
            assert(options@.take(i + 1).drop_last() =~= options@.take(i as int));
            assert(options@.take(i + 1).last() == options@[i as int]);
        }
        let o = &options[i];
        let listed = if query.len() == 0 {
            true
        } else {
            let l = chars_of(o.label.as_str());
            let v = chars_of(o.value.as_str());
            let mut hay: Vec<char> = Vec::new();
            let mut k: usize = 0;
            while k < l.len()
                invariant
                    k <= l@.len(),
                    hay@ == l@.subrange(0, k as int),
                decreases l@.len() - k,
            {
                hay.push(l[k]);
                k = k + 1;
                assert(hay@ =~= l@.subrange(0, k as int));
            }
            hay.push(' ');
            let ghost h0 = hay@;
            k = 0;
            while k < v.len()
                invariant
                    k <= v@.len(),
                    hay@ == h0 + v@.subrange(0, k as int),
                decreases v@.len() - k,
            {
                hay.push(v[k]);
                k = k + 1;
                assert(hay@ =~= h0 + v@.subrange(0, k as int));
            }
            assert(l@.subrange(0, l@.len() as int) =~= l@);
            assert(v@.subrange(0, v@.len() as int) =~= v@);
            assert(hay@ =~= o.label@ + seq![' '] + o.value@);
            let low = to_ascii_lower(hay.as_slice());
            contains(low.as_slice(), query.as_slice())
        };
        if listed && shown.len() < MAX_SHOWN_OPTIONS {
            shown.push(i);
        }
        proof {
            let after = listed_indices(options@.take(i + 1), q);
            if listed {
                assert(after == before.push(i as int));
            } else {
                assert(after == before);
            }
        }
        i = i + 1;
    }
    assert(options@.take(options@.len() as int) =~= options@);
    proof {
        let all = listed_indices(options@, q);
        if all.len() > MAX_SHOWN_OPTIONS {
            assert forall|k: int| 0 <= k < shown@.len() implies shown@[k] as int == #[trigger] combo_listing_spec(options@, search@)[k] by {
                assert(all.take(MAX_SHOWN_OPTIONS as int)[k] == all[k]);
            }
        }
    }
    shown
}

/// The options of the default-application drop-down: the system default
/// (empty value) first, then each application as `"{name}  ({command})"`
/// selecting its command.
pub fn app_combo_options(choices: &Vec<AppChoice>, system_default_label: &str) -> (r: Vec<DropdownOption>)
    ensures
        r@.len() == choices@.len() + 1,
        r@[0].value@.len() == 0,
        r@[0].label@ == system_default_label@,
        forall|i: int| 0 <= i < choices@.len() ==> {
            &&& (#[trigger] r@[i + 1]).value@ == choices@[i].command@
            &&& r@[i + 1].label@ == choices@[i].name@ + "  ("@ + choices@[i].command@ + ")"@
        },
{
    let mut out: Vec<DropdownOption> = Vec::new();
    proof {
        reveal_strlit("");
    }
    out.push(DropdownOption::borrowed("", system_default_label));
    let mut i: usize = 0;
    while i < choices.len()
        invariant
            i <= choices@.len(),
            out@.len() == i + 1,
            out@[0].value@.len() == 0,
            out@[0].label@ == system_default_label@,
            forall|j: int| 0 <= j < i ==> {
                &&& (#[trigger] out@[j + 1]).value@ == choices@[j].command@
                &&& out@[j + 1].label@ == choices@[j].name@ + "  ("@ + choices@[j].command@ + ")"@
            },
        decreases choices@.len() - i,
    {
        let c = &choices[i];
        let mut label = chars_of(c.name.as_str());
        let ghost n = label@;
        let sep = chars_of("  (");
        let cmd = chars_of(c.command.as_str());
        let close = chars_of(")");
        append_chars(&mut label, sep.as_slice());
        append_chars(&mut label, cmd.as_slice());
        append_chars(&mut label, close.as_slice());
        assert(label@ =~= n + "  ("@ + c.command@ + ")"@);
        let value = c.command.clone();
        out.push(DropdownOption { value, label: string_from_chars(label.as_slice()) });
        i = i + 1;
    }
    out
}

/// The options of the font drop-down: the automatic choice first, then each
/// font by its name.
pub fn font_combo_options(choices: &Vec<String>, auto_value: &str, automatic_label: &str) -> (r: Vec<DropdownOption>)
    ensures
        r@.len() == choices@.len() + 1,
        r@[0].value@ == auto_value@,
        r@[0].label@ == automatic_label@,
        forall|i: int| 0 <= i < choices@.len() ==> {
            &&& (#[trigger] r@[i + 1]).value@ == choices@[i]@
            &&& r@[i + 1].label@ == choices@[i]@
        },
{
    let mut out: Vec<DropdownOption> = Vec::new();
    out.push(DropdownOption::borrowed(auto_value, automatic_label));
    let mut i: usize = 0;
    while i < choices.len()
        invariant
            i <= choices@.len(),
            out@.len() == i + 1,
            out@[0].value@ == auto_value@,
            out@[0].label@ == automatic_label@,
            forall|j: int| 0 <= j < i ==> {
                &&& (#[trigger] out@[j + 1]).value@ == choices@[j]@
                &&& out@[j + 1].label@ == choices@[j]@
            },
        decreases choices@.len() - i,
    {
        let name = choices[i].clone();
        out.push(DropdownOption { value: name.clone(), label: name });
        i = i + 1;
    }
    out
}

fn append_chars(v: &mut Vec<char>, w: &[char])
    ensures
        final(v)@ == old(v)@ + w@,
{
    let ghost base = v@;
    let mut i: usize = 0;
    while i < w.len()
        invariant
            i <= w@.len(),
            v@ == base + w@.subrange(0, i as int),
        decreases w@.len() - i,
    {
        v.push(w[i]);
        i = i + 1;
        assert(v@ =~= base + w@.subrange(0, i as int));
    }
    assert(w@.subrange(0, w@.len() as int) =~= w@);
}

/// Picking an option in a drop-down: the selection becomes the option's
/// value and the search text is cleared. Returns whether the selection
/// changed.
pub fn pick_option(selected: &mut String, search: &mut String, option: &DropdownOption) -> (changed: bool)
    ensures
        final(selected)@ == option.value@,
        final(search)@.len() == 0,
        changed == (old(selected)@ != option.value@),
{
    let changed = !crate::text::str_eq(selected.as_str(), option.value.as_str());
    *selected = option.value.clone();
    *search = String::new();
    changed
}

/// The components of a colour written in hexadecimal (alpha 255 when only
/// red, green and blue are written).
#[derive(Clone, Copy, Debug, PartialEq, Eq, Structural)]
pub struct HexColor {
    pub r: u8,
    pub g: u8,
    pub b: u8,
    pub a: u8,
}

/// The value of a hexadecimal digit byte (either case).
pub open spec fn hex_digit_value(c: u8) -> Option<u8> {
    if 0x30 <= c && c <= 0x39 {
        Some((c - 0x30) as u8)
    } else if 0x61 <= c && c <= 0x66 {
        Some((c - 0x61 + 10) as u8)
    } else if 0x41 <= c && c <= 0x46 {
        Some((c - 0x41 + 10) as u8)
    } else {
        None
    }
}

/// Law: the hexadecimal digits `0`-`9`, `a`-`f` and `A`-`F` have the values
/// 0 to 15 in that order, whatever their case; no other byte is a digit.
pub proof fn lemma_hex_digit_values(c: u8)
    ensures
        forall|i: int| 0 <= i < 16 ==> hex_digit_value(#[trigger] "0123456789abcdef"@[i] as u8) == Some(i as u8),
        forall|i: int| 10 <= i < 16 ==> hex_digit_value(#[trigger] "0123456789ABCDEF"@[i] as u8) == Some(i as u8),
        hex_digit_value(c) is Some <==> (exists|i: int| 0 <= i < 16 && c == #[trigger] "0123456789abcdef"@[i] as u8)
            || (exists|i: int| 10 <= i < 16 && c == #[trigger] "0123456789ABCDEF"@[i] as u8),
{
    reveal_strlit("0123456789abcdef");
    reveal_strlit("0123456789ABCDEF");
    assert("0123456789abcdef"@ =~= seq!['0', '1', '2', '3', '4', '5', '6', '7', '8', '9', 'a', 'b', 'c', 'd', 'e', 'f']);
    assert("0123456789ABCDEF"@ =~= seq!['0', '1', '2', '3', '4', '5', '6', '7', '8', '9', 'A', 'B', 'C', 'D', 'E', 'F']);
    if hex_digit_value(c) is Some {
        if 0x30 <= c && c <= 0x39 {
            let i = (c - 0x30) as int;
            assert(c == "0123456789abcdef"@[i] as u8);
        } else if 0x61 <= c && c <= 0x66 {
            let i = (c - 0x61 + 10) as int;
            assert(c == "0123456789abcdef"@[i] as u8);
        } else {
            let i = (c - 0x41 + 10) as int;
            assert(c == "0123456789ABCDEF"@[i] as u8);
        }
    }
}

/// What `u8::from_str_radix(s, 16)` gives for a two-byte text: a `+` sign
/// and one digit, or two digits.
pub open spec fn hex_pair_value(c0: u8, c1: u8) -> Option<u8> {
    if c0 == 0x2b {
        hex_digit_value(c1)
    } else {
        match (hex_digit_value(c0), hex_digit_value(c1)) {
            (Some(h), Some(l)) => Some((h * 16 + l) as u8),
            _ => None,
        }
    }
}

/// The bytes of the colour text: trimmed, one leading `#` removed.
pub open spec fn hex_body(hex: Seq<char>) -> Seq<u8> {
    let t = trim_seq(hex);
    utf8_bytes(if t.len() > 0 && t[0] == '#' { t.drop_first() } else { t })
}

/// A UTF-8 continuation byte: no character starts there.
pub open spec fn is_continuation(c: u8) -> bool {
    0x80 <= c && c <= 0xbf
}

/// The colour text would be cut inside a character when read two bytes at
/// a time: a byte boundary that is reached falls inside a character.
pub open spec fn hex_color_cuts_char(hex: Seq<char>) -> bool {
    let b = hex_body(hex);
    &&& (b.len() == 6 || b.len() == 8)
    &&& {
        ||| is_continuation(b[2])
        ||| (hex_pair_value(b[0], b[1]) is Some && is_continuation(b[4]))
        ||| (b.len() == 8 && hex_pair_value(b[0], b[1]) is Some && hex_pair_value(b[2], b[3]) is Some
            && is_continuation(b[6]))
    }
}

/// The colour a hex text stands for: `RRGGBB` or `RRGGBBAA` (each pair as
/// `u8::from_str_radix` reads it), after trimming and an optional `#`.
pub open spec fn hex_color_spec(hex: Seq<char>) -> Option<HexColor> {
    let b = hex_body(hex);
    if b.len() == 6 || b.len() == 8 {
        match (hex_pair_value(b[0], b[1]), hex_pair_value(b[2], b[3]), hex_pair_value(b[4], b[5])) {
            (Some(r), Some(g), Some(bl)) => if b.len() == 6 {
                Some(HexColor { r, g, b: bl, a: 255 })
            } else {
                match hex_pair_value(b[6], b[7]) {
                    Some(a) => Some(HexColor { r, g, b: bl, a }),
                    None => None,
                }
            },
            _ => None,
        }
    } else {
        None
    }
}

fn hex_digit(c: u8) -> (r: Option<u8>)
    ensures
        r == hex_digit_value(c),
{
    if 0x30 <= c && c <= 0x39 {
        Some(c - 0x30)
    } else if 0x61 <= c && c <= 0x66 {
        Some(c - 0x61 + 10)
    } else if 0x41 <= c && c <= 0x46 {
        Some(c - 0x41 + 10)
    } else {
        None
    }
}

fn hex_pair(c0: u8, c1: u8) -> (r: Option<u8>)
    ensures
        r == hex_pair_value(c0, c1),
{
    if c0 == 0x2b {
        hex_digit(c1)
    } else {
        match (hex_digit(c0), hex_digit(c1)) {
            (Some(h), Some(l)) => Some(h * 16 + l),
            _ => None,
        }
    }
}

/// Reads a colour written as `#RRGGBB` or `#RRGGBBAA` (the `#` optional,
/// surrounding white space ignored); see [`hex_color_spec`].
pub fn parse_hex_color(hex: &str) -> (r: Option<HexColor>)
    requires
        !hex_color_cuts_char(hex@),
    ensures
        r == hex_color_spec(hex@),
{
    let raw = chars_of(hex);
    let t = trim(raw.as_slice());
    let mut body: Vec<char> = Vec::new();
    let start: usize = if t.len() > 0 && t[0] == '#' { 1 } else { 0 };
    let mut k: usize = start;
    while k < t.len()
        invariant
            start <= k <= t@.len(),
            body@ == t@.subrange(start as int, k as int),
        decreases t@.len() - k,
    {
        body.push(t[k]);
        k = k + 1;
        assert(body@ =~= t@.subrange(start as int, k as int));
    }
    proof {
        if start == 1 {
            assert(body@ =~= t@.drop_first());
        } else {
            assert(body@ =~= t@);
        }
    }
    let s = string_from_chars(body.as_slice());
    let b = s.as_str().as_bytes();
    assert(b@ == hex_body(hex@));
    if b.len() != 6 && b.len() != 8 {
        return None;
    }
    let r = match hex_pair(b[0], b[1]) {
        Some(v) => v,
        None => return None,
    };
    let g = match hex_pair(b[2], b[3]) {
        Some(v) => v,
        None => return None,
    };
    let bl = match hex_pair(b[4], b[5]) {
        Some(v) => v,
        None => return None,
    };
    if b.len() == 6 {
        return Some(HexColor { r, g, b: bl, a: 255 });
    }
    match hex_pair(b[6], b[7]) {
        Some(a) => Some(HexColor { r, g, b: bl, a }),
        None => None,
    }
}

} // verus!
