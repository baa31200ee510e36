//! Character-level string operations with exact specifications.
//!
//! Strings are viewed as `Seq<char>`. The operations mirror the behaviour of
//! the `str` methods the rest of the crate relies on (`contains`,
//! `starts_with`, `replace`, `trim`, ASCII case mapping), each proved against
//! a direct specification. Unicode lower-casing, whose tables take pages, is
//! delegated to std and named.

use vstd::prelude::*;

verus! {

// ---------------------------------------------------------------------------
// Specifications
// ---------------------------------------------------------------------------

/// `p` occurs in `s` starting at index `i`.
pub open spec fn occurs_at(s: Seq<char>, p: Seq<char>, i: int) -> bool {
    0 <= i && i + p.len() <= s.len() && s.subrange(i, i + p.len()) == p
}

/// `p` is a substring of `s` (the empty sequence is a substring of everything).
pub open spec fn contains_seq(s: Seq<char>, p: Seq<char>) -> bool {
    exists|i: int| occurs_at(s, p, i)
}

/// `s` begins with `p`.
pub open spec fn starts_with_seq(s: Seq<char>, p: Seq<char>) -> bool {
    p.len() <= s.len() && s.subrange(0, p.len() as int) == p
}

/// Left-to-right, non-overlapping replacement of every occurrence of the
/// non-empty pattern `pat` by `rep` (the semantics of `str::replace`).
pub open spec fn replace_seq(s: Seq<char>, pat: Seq<char>, rep: Seq<char>) -> Seq<char>
    decreases s.len(),
{
    if pat.len() == 0 || s.len() < pat.len() {
        s
    } else if s.subrange(0, pat.len() as int) == pat {
        rep + replace_seq(s.subrange(pat.len() as int, s.len() as int), pat, rep)
    } else {
        seq![s[0]] + replace_seq(s.subrange(1, s.len() as int), pat, rep)
    }
}

/// Every occurrence of the character `from` replaced by `to`.
pub open spec fn replace_char_seq(s: Seq<char>, from: char, to: char) -> Seq<char> {
    s.map_values(|c: char| if c == from { to } else { c })
}

/// The Unicode `White_Space` property, which `char::is_whitespace` reports.
pub open spec fn is_whitespace(c: char) -> bool {
    ||| ('\u{9}' <= c && c <= '\u{d}')
    ||| c == ' '
    ||| c == '\u{85}'
    ||| c == '\u{a0}'
    ||| c == '\u{1680}'
    ||| ('\u{2000}' <= c && c <= '\u{200a}')
    ||| c == '\u{2028}'
    ||| c == '\u{2029}'
    ||| c == '\u{202f}'
    ||| c == '\u{205f}'
    ||| c == '\u{3000}'
}

/// `s` without its leading white space.
pub open spec fn trim_start_seq(s: Seq<char>) -> Seq<char>
    decreases s.len(),
{
    if s.len() > 0 && is_whitespace(s[0]) {
        trim_start_seq(s.subrange(1, s.len() as int))
    } else {
        s
    }
}

/// `s` without its trailing white space.
pub open spec fn trim_end_seq(s: Seq<char>) -> Seq<char>
    decreases s.len(),
{
    if s.len() > 0 && is_whitespace(s[s.len() - 1]) {
        trim_end_seq(s.subrange(0, s.len() - 1))
    } else {
        s
    }
}

/// `s` without leading and trailing white space (`str::trim`).
pub open spec fn trim_seq(s: Seq<char>) -> Seq<char> {
    trim_end_seq(trim_start_seq(s))
}

/// ASCII upper-case letters mapped to lower case, everything else kept.
pub open spec fn ascii_lower(c: char) -> char {
    if 'A' <= c && c <= 'Z' {
        ((c as u32) + 32) as char
    } else {
        c
    }
}

/// ASCII lower-case letters mapped to upper case, everything else kept.
pub open spec fn ascii_upper(c: char) -> char {
    if 'a' <= c && c <= 'z' {
        ((c as u32) - 32) as char
    } else {
        c
    }
}

/// `str::to_ascii_lowercase`.
pub open spec fn ascii_lower_seq(s: Seq<char>) -> Seq<char> {
    s.map_values(|c: char| ascii_lower(c))
}

/// The characters of `s` before the first occurrence of `sep`, or all of `s`
/// when `sep` does not occur (the first item of `str::split`).
pub open spec fn before_char(s: Seq<char>, sep: char) -> Seq<char>
    decreases s.len(),
{
    if s.len() == 0 {
        s
    } else if s[0] == sep {
        Seq::empty()
    } else {
        seq![s[0]] + before_char(s.subrange(1, s.len() as int), sep)
    }
}

/// The parts joined with `sep` between them (`[T]::join`).
pub open spec fn join_seqs(parts: Seq<Seq<char>>, sep: char) -> Seq<char>
    decreases parts.len(),
{
    if parts.len() == 0 {
        Seq::empty()
    } else if parts.len() == 1 {
        parts[0]
    } else {
        join_seqs(parts.drop_last(), sep) + seq![sep] + parts.last()
    }
}

/// The index of the first `sep` at or after `i`, or `s.len()`.
pub open spec fn piece_end(s: Seq<char>, i: int, sep: char) -> int
    decreases s.len() - i,
{
    if i >= s.len() || i < 0 {
        s.len() as int
    } else if s[i] == sep {
        i
    } else {
        piece_end(s, i + 1, sep)
    }
}

/// Where a piece ends: at or after its start, at a separator or the end.
pub proof fn lemma_piece_end_bounds(s: Seq<char>, i: int, sep: char)
    requires
        0 <= i <= s.len(),
    ensures
        i <= piece_end(s, i, sep) <= s.len(),
        piece_end(s, i, sep) < s.len() ==> s[piece_end(s, i, sep)] == sep,
        forall|k: int| i <= k < piece_end(s, i, sep) ==> s[k] != sep,
    decreases s.len() - i,
{
    if i < s.len() && s[i] != sep {
        lemma_piece_end_bounds(s, i + 1, sep);
    }
}

/// The pieces of `s` between the separators `sep`, from position `i` (a
/// piece start) on, each trimmed, the blank ones left out.
pub open spec fn nonblank_pieces(s: Seq<char>, i: int, sep: char) -> Seq<Seq<char>>
    decreases s.len() - i,
{
    if i < 0 || i > s.len() {
        Seq::empty()
    } else {
        let j = piece_end(s, i, sep);
        let t = trim_seq(s.subrange(i, j));
        let rest = if j < s.len() {
            proof {
                lemma_piece_end_bounds(s, i, sep);
            }
            nonblank_pieces(s, j + 1, sep)
        } else {
            Seq::empty()
        };
        if t.len() == 0 {
            rest
        } else {
            seq![t] + rest
        }
    }
}

/// A piece as [`nonblank_pieces`] yields it: not empty, trimmed, without
/// the separator.
pub open spec fn is_clean_piece(e: Seq<char>, sep: char) -> bool {
    &&& e.len() > 0
    &&& trim_seq(e) == e
    &&& forall|k: int| 0 <= k < e.len() ==> #[trigger] e[k] != sep
}

proof fn lemma_trim_start_absent(x: Seq<char>, c: char)
    requires
        forall|k: int| 0 <= k < x.len() ==> #[trigger] x[k] != c,
    ensures
        forall|k: int| 0 <= k < trim_start_seq(x).len() ==> #[trigger] trim_start_seq(x)[k] != c,
    decreases x.len(),
{
    if x.len() > 0 && is_whitespace(x[0]) {
        let t = x.subrange(1, x.len() as int);
        assert forall|k: int| 0 <= k < t.len() implies #[trigger] t[k] != c by {
            assert(t[k] == x[k + 1]);
        }
        lemma_trim_start_absent(t, c);
        assert(trim_start_seq(x) == trim_start_seq(t));
    } else {
        assert(trim_start_seq(x) == x);
    }
}

proof fn lemma_trim_end_absent(x: Seq<char>, c: char)
    requires
        forall|k: int| 0 <= k < x.len() ==> #[trigger] x[k] != c,
    ensures
        forall|k: int| 0 <= k < trim_end_seq(x).len() ==> #[trigger] trim_end_seq(x)[k] != c,
    decreases x.len(),
{
    if x.len() > 0 && is_whitespace(x[x.len() - 1]) {
        let t = x.subrange(0, x.len() - 1);
        assert forall|k: int| 0 <= k < t.len() implies #[trigger] t[k] != c by {
            assert(t[k] == x[k]);
        }
        lemma_trim_end_absent(t, c);
        assert(trim_end_seq(x) == trim_end_seq(t));
    } else {
        assert(trim_end_seq(x) == x);
    }
}

/// Every piece that [`nonblank_pieces`] yields is clean.
pub proof fn lemma_nonblank_pieces_clean(s: Seq<char>, i: int, sep: char)
    requires
        0 <= i <= s.len(),
    ensures
        forall|k: int| 0 <= k < nonblank_pieces(s, i, sep).len() ==> is_clean_piece(
            #[trigger] nonblank_pieces(s, i, sep)[k], sep),
    decreases s.len() - i,
{
    lemma_piece_end_bounds(s, i, sep);
    let j = piece_end(s, i, sep);
    let x = s.subrange(i, j);
    assert forall|k: int| 0 <= k < x.len() implies #[trigger] x[k] != sep by {
        assert(x[k] == s[i + k]);
    }
    lemma_trim_start_absent(x, sep);
    lemma_trim_end_absent(trim_start_seq(x), sep);
    lemma_trim_idempotent(x);
    if j < s.len() {
        lemma_nonblank_pieces_clean(s, j + 1, sep);
    }
    let t = trim_seq(x);
    let rest = if j < s.len() {
        nonblank_pieces(s, j + 1, sep)
    } else {
        Seq::empty()
    };
    if t.len() > 0 {
        assert forall|k: int| 0 <= k < (seq![t] + rest).len() implies is_clean_piece(#[trigger] (seq![t] + rest)[k], sep) by {
            if k > 0 {
                assert((seq![t] + rest)[k] == rest[k - 1]);
            }
        }
    }
}

proof fn lemma_piece_end_shift(p: Seq<char>, y: Seq<char>, k: int, sep: char)
    requires
        0 <= k <= y.len(),
    ensures
        piece_end(p + y, p.len() + k, sep) == p.len() + piece_end(y, k, sep),
    decreases y.len() - k,
{
    let z = p + y;
    if k < y.len() {
        assert(z[p.len() + k] == y[k]);
        if y[k] != sep {
            lemma_piece_end_shift(p, y, k + 1, sep);
        }
    }
}

proof fn lemma_pieces_shift(p: Seq<char>, y: Seq<char>, k: int, sep: char)
    requires
        0 <= k <= y.len(),
    ensures
        nonblank_pieces(p + y, p.len() + k, sep) == nonblank_pieces(y, k, sep),
    decreases y.len() - k,
{
    let z = p + y;
    lemma_piece_end_shift(p, y, k, sep);
    lemma_piece_end_bounds(y, k, sep);
    let j = piece_end(y, k, sep);
    assert(z.subrange(p.len() + k, p.len() + j) =~= y.subrange(k, j));
    if j < y.len() {
        lemma_pieces_shift(p, y, j + 1, sep);
    }
}

proof fn lemma_piece_end_prefix(x: Seq<char>, y: Seq<char>, i: int, sep: char)
    requires
        0 <= i <= x.len(),
        piece_end(x, i, sep) < x.len(),
    ensures
        piece_end(x + y, i, sep) == piece_end(x, i, sep),
    decreases x.len() - i,
{
    let z = x + y;
    assert(z[i] == x[i]);
    if x[i] != sep {
        lemma_piece_end_prefix(x, y, i + 1, sep);
    }
}

proof fn lemma_piece_end_to_sep(x: Seq<char>, y: Seq<char>, i: int, sep: char)
    requires
        0 <= i <= x.len(),
        piece_end(x, i, sep) == x.len(),
    ensures
        piece_end(x + seq![sep] + y, i, sep) == x.len(),
    decreases x.len() - i,
{
    let z = x + seq![sep] + y;
    if i < x.len() {
        assert(z[i] == x[i]);
        lemma_piece_end_to_sep(x, y, i + 1, sep);
    } else {
        assert(z[x.len() as int] == sep);
    }
}

proof fn lemma_pieces_concat(x: Seq<char>, y: Seq<char>, i: int, sep: char)
    requires
        0 <= i <= x.len(),
    ensures
        nonblank_pieces(x + seq![sep] + y, i, sep) == nonblank_pieces(x, i, sep) + nonblank_pieces(y, 0, sep),
    decreases x.len() - i,
{
    let z = x + seq![sep] + y;
    lemma_piece_end_bounds(x, i, sep);
    let j = piece_end(x, i, sep);
    let t = trim_seq(x.subrange(i, j));
    if j < x.len() {
        assert(z =~= x + (seq![sep] + y));
        lemma_piece_end_prefix(x, seq![sep] + y, i, sep);
        assert(z.subrange(i, j) =~= x.subrange(i, j));
        lemma_pieces_concat(x, y, j + 1, sep);
        let rx = nonblank_pieces(x, j + 1, sep);
        let ry = nonblank_pieces(y, 0, sep);
        if t.len() > 0 {
            assert(seq![t] + (rx + ry) =~= (seq![t] + rx) + ry);
        }
    } else {
        lemma_piece_end_to_sep(x, y, i, sep);
        assert(z.subrange(i, x.len() as int) =~= x.subrange(i, x.len() as int));
        assert(z =~= (x + seq![sep]) + y);
        lemma_pieces_shift(x + seq![sep], y, 0, sep);
        let ry = nonblank_pieces(y, 0, sep);
        if t.len() > 0 {
            assert(seq![t] + ry =~= (seq![t] + Seq::<Seq<char>>::empty()) + ry);
        } else {
            assert(ry =~= Seq::<Seq<char>>::empty() + ry);
        }
    }
}

proof fn lemma_pieces_of_clean_piece(e: Seq<char>, sep: char)
    requires
        is_clean_piece(e, sep),
    ensures
        nonblank_pieces(e, 0, sep) == seq![e],
{
    lemma_piece_end_bounds(e, 0, sep);
    assert(piece_end(e, 0, sep) == e.len());
    assert(e.subrange(0, e.len() as int) =~= e);
    assert(seq![e] + Seq::<Seq<char>>::empty() =~= seq![e]);
}

/// Clean pieces joined with their separator split back into those pieces.
pub proof fn lemma_pieces_of_join(lines: Seq<Seq<char>>, sep: char)
    requires
        forall|k: int| 0 <= k < lines.len() ==> is_clean_piece(#[trigger] lines[k], sep),
    ensures
        nonblank_pieces(join_seqs(lines, sep), 0, sep) == lines,
    decreases lines.len(),
{
    if lines.len() == 0 {
        let e = Seq::<char>::empty();
        assert(trim_start_seq(e) == e);
        assert(trim_end_seq(e) == e);
        assert(e.subrange(0, 0) =~= e);
        assert(piece_end(e, 0, sep) == 0);
    } else if lines.len() == 1 {
        lemma_pieces_of_clean_piece(lines[0], sep);
        assert(seq![lines[0]] =~= lines);
    } else {
        let m = lines.drop_last();
        assert forall|k: int| 0 <= k < m.len() implies is_clean_piece(#[trigger] m[k], sep) by {
            assert(m[k] == lines[k]);
        }
        lemma_pieces_of_join(m, sep);
        lemma_pieces_concat(join_seqs(m, sep), lines.last(), 0, sep);
        lemma_pieces_of_clean_piece(lines.last(), sep);
        assert(m + seq![lines.last()] =~= lines);
    }
}

/// The UTF-16 code units of a character: one unit below `0x10000`, else a
/// surrogate pair.
pub open spec fn utf16_units(c: char) -> Seq<u16> {
    let v = c as u32;
    if v < 0x10000 {
        seq![v as u16]
    } else {
        let w = v - 0x10000;
        seq![(0xd800 + w / 0x400) as u16, (0xdc00 + w % 0x400) as u16]
    }
}

/// The UTF-16 encoding of a text (what `str::encode_utf16` yields).
pub open spec fn utf16_encode(s: Seq<char>) -> Seq<u16>
    decreases s.len(),
{
    if s.len() == 0 {
        Seq::empty()
    } else {
        utf16_encode(s.drop_last()) + utf16_units(s.last())
    }
}

/// The text of UTF-16 units decoded lossily (`String::from_utf16_lossy`):
/// a unit outside the surrogate range is its character, a high surrogate
/// followed by a low one is the character they encode, and every other
/// surrogate is U+FFFD.
pub open spec fn utf16_lossy(u: Seq<u16>) -> Seq<char>
    decreases u.len(),
{
    if u.len() == 0 {
        Seq::empty()
    } else if u[0] < 0xd800 || u[0] > 0xdfff {
        seq![(u[0] as u32) as char] + utf16_lossy(u.subrange(1, u.len() as int))
    } else if u[0] <= 0xdbff && u.len() >= 2 && 0xdc00 <= u[1] && u[1] <= 0xdfff {
        seq![((0x10000 + (u[0] - 0xd800) * 0x400 + (u[1] - 0xdc00)) as u32) as char] + utf16_lossy(
            u.subrange(2, u.len() as int),
        )
    } else {
        seq!['\u{fffd}'] + utf16_lossy(u.subrange(1, u.len() as int))
    }
}

/// The views of a list of character vectors.
pub open spec fn line_views(v: Seq<Vec<char>>) -> Seq<Seq<char>> {
    v.map_values(|x: Vec<char>| x@)
}

/// The UTF-8 encoding of a text (what `str::as_bytes` yields).
pub open spec fn utf8_bytes(s: Seq<char>) -> Seq<u8> {
    vstd::utf8::encode_utf8(s)
}

/// What `str::to_lowercase` returns: the full Unicode lower-case mapping.
pub uninterp spec fn unicode_lowercase(s: Seq<char>) -> Seq<char>;

// ---------------------------------------------------------------------------
// Lemmas
// ---------------------------------------------------------------------------

proof fn lemma_replace_step(s: Seq<char>, pat: Seq<char>, rep: Seq<char>, i: int)
    requires
        pat.len() > 0,
        0 <= i <= s.len(),
    ensures
        i + pat.len() <= s.len() && s.subrange(i, i + pat.len()) == pat ==> replace_seq(
            s.subrange(i, s.len() as int),
            pat,
            rep,
        ) == rep + replace_seq(s.subrange(i + pat.len(), s.len() as int), pat, rep),
        i < s.len() && !(i + pat.len() <= s.len() && s.subrange(i, i + pat.len()) == pat)
            ==> replace_seq(s.subrange(i, s.len() as int), pat, rep) == seq![s[i]]
            + replace_seq(s.subrange(i + 1, s.len() as int), pat, rep),
        i + pat.len() > s.len() ==> replace_seq(s.subrange(i, s.len() as int), pat, rep)
            == s.subrange(i, s.len() as int),
{
    let t = s.subrange(i, s.len() as int);
    if i + pat.len() <= s.len() {
        assert(t.subrange(0, pat.len() as int) =~= s.subrange(i, i + pat.len()));
        assert(t.subrange(pat.len() as int, t.len() as int) =~= s.subrange(
            i + pat.len(),
            s.len() as int,
        ));
    }
    if i < s.len() {
        assert(t.subrange(1, t.len() as int) =~= s.subrange(i + 1, s.len() as int));
        assert(t[0] == s[i]);
    }
}

/// Replacing a pattern whose first character does not occur leaves the text
/// unchanged.
pub proof fn lemma_replace_absent(s: Seq<char>, pat: Seq<char>, rep: Seq<char>)
    requires
        pat.len() > 0,
        !s.contains(pat[0]),
    ensures
        replace_seq(s, pat, rep) == s,
    decreases s.len(),
{
    if s.len() >= pat.len() {
        if s.subrange(0, pat.len() as int) == pat {
            assert(s[0] == pat[0]);
        }
        let t = s.subrange(1, s.len() as int);
        assert forall|c: char| t.contains(c) implies s.contains(c) by {
            let k = choose|k: int| 0 <= k < t.len() && t[k] == c;
            assert(s[k + 1] == c);
        }
        lemma_replace_absent(t, pat, rep);
        assert(seq![s[0]] + t =~= s);
    }
}

proof fn lemma_trim_start_skip(s: Seq<char>, i: int)
    requires
        0 <= i <= s.len(),
        forall|k: int| 0 <= k < i ==> is_whitespace(#[trigger] s[k]),
    ensures
        trim_start_seq(s) == trim_start_seq(s.subrange(i, s.len() as int)),
    decreases i,
{
    if i > 0 {
        let t = s.subrange(1, s.len() as int);
        assert forall|k: int| 0 <= k < i - 1 implies is_whitespace(#[trigger] t[k]) by {
            assert(t[k] == s[k + 1]);
        }
        lemma_trim_start_skip(t, i - 1);
        assert(t.subrange(i - 1, t.len() as int) =~= s.subrange(i, s.len() as int));
    } else {
        assert(s.subrange(0, s.len() as int) =~= s);
    }
}

proof fn lemma_trim_end_skip(s: Seq<char>, j: int)
    requires
        0 <= j <= s.len(),
        forall|k: int| j <= k < s.len() ==> is_whitespace(#[trigger] s[k]),
    ensures
        trim_end_seq(s) == trim_end_seq(s.subrange(0, j)),
    decreases s.len() - j,
{
    if j < s.len() {
        let t = s.subrange(0, s.len() - 1);
        assert(is_whitespace(s[s.len() - 1]));
        assert forall|k: int| j <= k < t.len() implies is_whitespace(#[trigger] t[k]) by {
            assert(t[k] == s[k]);
        }
        lemma_trim_end_skip(t, j);
        assert(t.subrange(0, j) =~= s.subrange(0, j));
    } else {
        assert(s.subrange(0, j) =~= s);
    }
}

proof fn lemma_before_char_step(s: Seq<char>, sep: char, i: int)
    requires
        0 <= i < s.len(),
        s[i] != sep,
    ensures
        before_char(s.subrange(i, s.len() as int), sep) == seq![s[i]] + before_char(
            s.subrange(i + 1, s.len() as int),
            sep,
        ),
{
    let t = s.subrange(i, s.len() as int);
    assert(t.subrange(1, t.len() as int) =~= s.subrange(i + 1, s.len() as int));
}

proof fn lemma_trim_start_fixed(s: Seq<char>)
    ensures
        trim_start_seq(s).len() > 0 ==> !is_whitespace(trim_start_seq(s)[0]),
        trim_start_seq(trim_start_seq(s)) == trim_start_seq(s),
    decreases s.len(),
{
    if s.len() > 0 && is_whitespace(s[0]) {
        lemma_trim_start_fixed(s.subrange(1, s.len() as int));
    }
}

proof fn lemma_trim_end_keeps_start(s: Seq<char>)
    requires
        s.len() > 0 ==> !is_whitespace(s[0]),
    ensures
        trim_end_seq(s).len() > 0 ==> !is_whitespace(trim_end_seq(s)[0]),
        trim_end_seq(s).len() > 0 ==> !is_whitespace(trim_end_seq(s)[trim_end_seq(s).len() - 1]),
        trim_end_seq(trim_end_seq(s)) == trim_end_seq(s),
    decreases s.len(),
{
    if s.len() > 0 && is_whitespace(s[s.len() - 1]) {
        let t = s.subrange(0, s.len() - 1);
        if t.len() > 0 {
            assert(t[0] == s[0]);
        }
        lemma_trim_end_keeps_start(t);
    }
}

/// Trimming twice is trimming once.
pub proof fn lemma_trim_idempotent(s: Seq<char>)
    ensures
        trim_seq(trim_seq(s)) == trim_seq(s),
{
    lemma_trim_start_fixed(s);
    let a = trim_start_seq(s);
    lemma_trim_end_keeps_start(a);
    let b = trim_end_seq(a);
    assert(trim_start_seq(b) == b);
}

// ---------------------------------------------------------------------------
// Executable operations
// ---------------------------------------------------------------------------

/// Copies the characters of `s` into a vector.
pub fn chars_of(s: &str) -> (v: Vec<char>)
    ensures
        v@ == s@,
{
    let mut v: Vec<char> = Vec::new();
    for c in it: s.chars()
        invariant
            v@ == it.seq().take(it.index() as int),
    {
        v.push(c);
    }
    v
}

/// `String::push`.
#[verifier::external_body]
fn string_push(s: &mut String, c: char)
    ensures
        final(s)@ == old(s)@.push(c),
{
    s.push(c);
}

/// `str::to_lowercase`: Unicode lower-case mapping, named by
/// [`unicode_lowercase`]; nothing more about the mapping is claimed.
#[verifier::external_body]
pub(crate) fn to_lowercase(s: &str) -> (r: String)
    ensures
        r@ == unicode_lowercase(s@),
{
    s.to_lowercase()
}

/// `str::encode_utf16`, collected.
pub fn encode_utf16(s: &str) -> (r: Vec<u16>)
    ensures
        r@ == utf16_encode(s@),
{
    let cs = chars_of(s);
    let mut out: Vec<u16> = Vec::new();
    let mut i: usize = 0;
    while i < cs.len()
        invariant
            i <= cs@.len(),
            cs@ == s@,
            out@ == utf16_encode(cs@.subrange(0, i as int)),
        decreases cs@.len() - i,
    {
        let c = cs[i];
        proof {
            vstd::utf8::char_is_scalar(c);
        }
        let v = c as u32;
        let ghost before = out@;
        if v < 0x10000 {
            out.push(v as u16);
        } else {
            let w = v - 0x10000;
            out.push((0xd800 + w / 0x400) as u16);
            out.push((0xdc00 + w % 0x400) as u16);
        }
        proof {
            let p = cs@.subrange(0, i + 1);
            assert(p.drop_last() =~= cs@.subrange(0, i as int));
            assert(p.last() == c);
            assert(out@ =~= before + utf16_units(c));
        }
        i = i + 1;
    }
    assert(cs@.subrange(0, cs@.len() as int) =~= cs@);
    out
}

/// `char::from_u32`: the character with this code point, if it is a
/// Unicode scalar value (at most `0x10FFFF` and not a surrogate), as std
/// documents.
#[verifier::external_body]
fn char_from_u32(v: u32) -> (r: Option<char>)
    ensures
        r is Some <==> (v <= 0x10ffff && !(0xd800 <= v && v <= 0xdfff)),
        r matches Some(c) ==> c as u32 == v,
{
    char::from_u32(v)
}

/// Decodes UTF-16 units lossily (see [`utf16_lossy`]).
pub fn decode_utf16_lossy(units: &[u16]) -> (r: Vec<char>)
    ensures
        r@ == utf16_lossy(units@),
{
    let n = units.len();
    let mut out: Vec<char> = Vec::new();
    let mut i: usize = 0;
    assert(units@.subrange(0, n as int) =~= units@);
    while i < n
        invariant
            n == units@.len(),
            i <= n,
            out@ + utf16_lossy(units@.subrange(i as int, n as int)) == utf16_lossy(units@),
        decreases n - i,
    {
        let ghost rest = units@.subrange(i as int, n as int);
        let ghost o0 = out@;
        let a = units[i];
        assert(rest[0] == a);
        if a < 0xd800 || a > 0xdfff {
            let c = match char_from_u32(a as u32) {
                Some(c) => c,
                None => '\u{fffd}',
            };
            proof {
                vstd::utf8::char_u32_cast(c, a as u32);
                assert(rest.subrange(1, rest.len() as int) =~= units@.subrange(i + 1, n as int));
            }
            out.push(c);
            assert(out@ + utf16_lossy(units@.subrange(i + 1, n as int)) =~= o0 + utf16_lossy(rest));
            i = i + 1;
        } else if a <= 0xdbff && i + 1 < n && 0xdc00 <= units[i + 1] && units[i + 1] <= 0xdfff {
            let b = units[i + 1];
            assert(rest[1] == b);
            let v: u32 = 0x10000 + ((a as u32) - 0xd800) * 0x400 + ((b as u32) - 0xdc00);
            let c = match char_from_u32(v) {
                Some(c) => c,
                None => '\u{fffd}',
            };
            proof {
                vstd::utf8::char_u32_cast(c, v);
                assert(rest.subrange(2, rest.len() as int) =~= units@.subrange(i + 2, n as int));
            }
            out.push(c);
            assert(out@ + utf16_lossy(units@.subrange(i + 2, n as int)) =~= o0 + utf16_lossy(rest));
            i = i + 2;
        } else {
            proof {
                assert(rest.subrange(1, rest.len() as int) =~= units@.subrange(i + 1, n as int));
            }
            out.push('\u{fffd}');
            assert(out@ + utf16_lossy(units@.subrange(i + 1, n as int)) =~= o0 + utf16_lossy(rest));
            i = i + 1;
        }
    }
    assert(units@.subrange(n as int, n as int) =~= Seq::<u16>::empty());
    assert(out@ + Seq::<char>::empty() =~= out@);
    out
}

/// Builds a `String` holding exactly the characters `v`.
pub fn string_from_chars(v: &[char]) -> (s: String)
    ensures
        s@ == v@,
{
    let mut s = String::new();
    let mut i: usize = 0;
    while i < v.len()
        invariant
            i <= v.len(),
            s@ == v@.subrange(0, i as int),
        decreases v.len() - i,
    {
        string_push(&mut s, v[i]);
        i = i + 1;
        assert(s@ =~= v@.subrange(0, i as int));
    }
    assert(v@.subrange(0, v.len() as int) =~= v@);
    s
}

/// Whether `p` occurs in `s` at index `i`.
pub fn occurs_at_exec(s: &[char], p: &[char], i: usize) -> (b: bool)
    ensures
        b == occurs_at(s@, p@, i as int),
{
    if i > s.len() || p.len() > s.len() - i {
        return false;
    }
    let mut k: usize = 0;
    while k < p.len()
        invariant
            i + p.len() <= s.len(),
            k <= p.len(),
            forall|m: int| 0 <= m < k ==> s@[i + m] == p@[m],
        decreases p.len() - k,
    {
        if s[i + k] != p[k] {
            assert(s@.subrange(i as int, i + p.len())[k as int] != p@[k as int]);
            return false;
        }
        k = k + 1;
    }
    assert(s@.subrange(i as int, i + p.len()) =~= p@);
    true
}

/// Whether two character slices are equal.
pub fn chars_eq(a: &[char], b: &[char]) -> (r: bool)
    ensures
        r == (a@ == b@),
{
    if a.len() != b.len() {
        return false;
    }
    let r = occurs_at_exec(a, b, 0);
    if r {
        assert(a@.subrange(0, b@.len() as int) =~= a@);
    } else {
        assert(a@.subrange(0, b@.len() as int) =~= a@);
    }
    r
}

/// Whether two strings hold the same characters.
pub fn str_eq(a: &str, b: &str) -> (r: bool)
    ensures
        r == (a@ == b@),
{
    let av = chars_of(a);
    let bv = chars_of(b);
    chars_eq(av.as_slice(), bv.as_slice())
}

/// Whether `s` begins with `p`.
pub fn starts_with(s: &[char], p: &[char]) -> (r: bool)
    ensures
        r == starts_with_seq(s@, p@),
{
    occurs_at_exec(s, p, 0)
}

/// Whether `p` is a substring of `s`.
pub fn contains(s: &[char], p: &[char]) -> (r: bool)
    ensures
        r == contains_seq(s@, p@),
{
    if p.len() > s.len() {
        assert forall|i: int| !occurs_at(s@, p@, i) by {}
        return false;
    }
    if p.len() == 0 {
        assert(s@.subrange(0, 0) =~= p@);
        assert(occurs_at(s@, p@, 0));
        return true;
    }
    let mut i: usize = 0;
    while i <= s.len() - p.len()
        invariant
            0 < p.len() <= s.len(),
            i <= s.len() - p.len() + 1,
            forall|j: int| 0 <= j < i ==> !occurs_at(s@, p@, j),
        decreases s.len() - p.len() + 1 - i,
    {
        if occurs_at_exec(s, p, i) {
            return true;
        }
        i = i + 1;
    }
    assert forall|j: int| !occurs_at(s@, p@, j) by {
        if 0 <= j < i {
        }
    }
    false
}

/// `str::replace` with a non-empty pattern.
pub fn replace_all(s: &[char], pat: &[char], rep: &[char]) -> (r: Vec<char>)
    requires
        pat.len() > 0,
    ensures
        r@ == replace_seq(s@, pat@, rep@),
{
    let mut out: Vec<char> = Vec::new();
    let mut i: usize = 0;
    assert(s@.subrange(0, s.len() as int) =~= s@);
    assert(out@ + replace_seq(s@, pat@, rep@) =~= replace_seq(s@, pat@, rep@));
    while i < s.len()
        invariant
            pat.len() > 0,
            i <= s.len(),
            out@ + replace_seq(s@.subrange(i as int, s.len() as int), pat@, rep@) == replace_seq(
                s@,
                pat@,
                rep@,
            ),
        decreases s.len() - i,
    {
        proof {
            lemma_replace_step(s@, pat@, rep@, i as int);
        }
        if occurs_at_exec(s, pat, i) {
            let mut k: usize = 0;
            let ghost out0 = out@;
            while k < rep.len()
                invariant
                    k <= rep.len(),
                    out@ == out0 + rep@.subrange(0, k as int),
                decreases rep.len() - k,
            {
                out.push(rep[k]);
                k = k + 1;
                assert(out@ =~= out0 + rep@.subrange(0, k as int));
            }
            assert(rep@.subrange(0, rep.len() as int) =~= rep@);
            assert(out@ + replace_seq(s@.subrange(i + pat.len(), s.len() as int), pat@, rep@)
                =~= out0 + (rep@ + replace_seq(
                s@.subrange(i + pat.len(), s.len() as int),
                pat@,
                rep@,
            )));
            i = i + pat.len();
        } else {
            let ghost out0 = out@;
            out.push(s[i]);
            assert(out@ + replace_seq(s@.subrange(i + 1, s.len() as int), pat@, rep@) =~= out0 + (
            seq![s@[i as int]] + replace_seq(s@.subrange(i + 1, s.len() as int), pat@, rep@)));
            i = i + 1;
        }
    }
    proof {
        lemma_replace_step(s@, pat@, rep@, i as int);
        assert(s@.subrange(i as int, s.len() as int) =~= Seq::<char>::empty());
        assert(out@ + Seq::<char>::empty() =~= out@);
    }
    out
}

/// Every `from` character replaced by `to`.
pub fn replace_char(s: &[char], from: char, to: char) -> (r: Vec<char>)
    ensures
        r@ == replace_char_seq(s@, from, to),
{
    let mut out: Vec<char> = Vec::new();
    let mut i: usize = 0;
    while i < s.len()
        invariant
            i <= s.len(),
            out@ == replace_char_seq(s@.subrange(0, i as int), from, to),
        decreases s.len() - i,
    {
        let c = s[i];
        if c == from {
            out.push(to);
        } else {
            out.push(c);
        }
        i = i + 1;
        assert(out@ =~= replace_char_seq(s@.subrange(0, i as int), from, to));
    }
    assert(s@.subrange(0, s.len() as int) =~= s@);
    out
}

/// Whether `c` has the Unicode `White_Space` property.
pub fn is_whitespace_char(c: char) -> (b: bool)
    ensures
        b == is_whitespace(c),
{
    ('\u{9}' <= c && c <= '\u{d}') || c == ' ' || c == '\u{85}' || c == '\u{a0}' || c
        == '\u{1680}' || ('\u{2000}' <= c && c <= '\u{200a}') || c == '\u{2028}' || c
        == '\u{2029}' || c == '\u{202f}' || c == '\u{205f}' || c == '\u{3000}'
}

/// `str::trim`: the characters of `s` without leading and trailing white space.
pub fn trim(s: &[char]) -> (r: Vec<char>)
    ensures
        r@ == trim_seq(s@),
{
    let mut lo: usize = 0;
    while lo < s.len() && is_whitespace_char(s[lo])
        invariant
            lo <= s.len(),
            forall|k: int| 0 <= k < lo ==> is_whitespace(#[trigger] s@[k]),
        decreases s.len() - lo,
    {
        lo = lo + 1;
    }
    proof {
        lemma_trim_start_skip(s@, lo as int);
    }
    let ghost t = s@.subrange(lo as int, s.len() as int);
    assert(trim_start_seq(t) == t);
    let mut hi: usize = s.len();
    while hi > lo && is_whitespace_char(s[hi - 1])
        invariant
            lo <= hi <= s.len(),
            forall|k: int| hi <= k < s.len() ==> is_whitespace(#[trigger] s@[k]),
        decreases hi,
    {
        hi = hi - 1;
    }
    proof {
        assert forall|k: int| hi - lo <= k < t.len() implies is_whitespace(#[trigger] t[k]) by {
            assert(t[k] == s@[k + lo]);
        }
        lemma_trim_end_skip(t, hi - lo);
        let u = t.subrange(0, hi - lo);
        if u.len() > 0 {
            assert(u[u.len() - 1] == s@[hi - 1]);
        }
        assert(trim_end_seq(u) == u);
        assert(u =~= s@.subrange(lo as int, hi as int));
    }
    let mut out: Vec<char> = Vec::new();
    let mut i: usize = lo;
    while i < hi
        invariant
            lo <= i <= hi,
            hi <= s.len(),
            out@ == s@.subrange(lo as int, i as int),
        decreases hi - i,
    {
        out.push(s[i]);
        i = i + 1;
        assert(out@ =~= s@.subrange(lo as int, i as int));
    }
    out
}

/// ASCII lower-casing of one character.
pub fn ascii_lower_char(c: char) -> (r: char)
    ensures
        r == ascii_lower(c),
{
    if 'A' <= c && c <= 'Z' {
        let b = c as u8;
        let l = b + 32;
        assert(l == (c as u32) + 32);
        l as char
    } else {
        c
    }
}

/// ASCII upper-casing of one character.
pub fn ascii_upper_char(c: char) -> (r: char)
    ensures
        r == ascii_upper(c),
{
    if 'a' <= c && c <= 'z' {
        let b = c as u8;
        let u = b - 32;
        assert(u == (c as u32) - 32);
        u as char
    } else {
        c
    }
}

/// `str::to_ascii_lowercase` on characters.
pub fn to_ascii_lower(s: &[char]) -> (r: Vec<char>)
    ensures
        r@ == ascii_lower_seq(s@),
{
    let mut out: Vec<char> = Vec::new();
    let mut i: usize = 0;
    while i < s.len()
        invariant
            i <= s.len(),
            out@ == ascii_lower_seq(s@.subrange(0, i as int)),
        decreases s.len() - i,
    {
        out.push(ascii_lower_char(s[i]));
        i = i + 1;
        assert(out@ =~= ascii_lower_seq(s@.subrange(0, i as int)));
    }
    assert(s@.subrange(0, s.len() as int) =~= s@);
    out
}

/// The characters before the first `sep` (all of `s` when there is none).
pub fn prefix_before(s: &[char], sep: char) -> (r: Vec<char>)
    ensures
        r@ == before_char(s@, sep),
{
    let mut out: Vec<char> = Vec::new();
    let mut i: usize = 0;
    assert(s@.subrange(0, s.len() as int) =~= s@);
    assert(out@ + before_char(s@, sep) =~= before_char(s@, sep));
    while i < s.len() && s[i] != sep
        invariant
            i <= s.len(),
            out@ == s@.subrange(0, i as int),
            out@ + before_char(s@.subrange(i as int, s.len() as int), sep) == before_char(s@, sep),
        decreases s.len() - i,
    {
        proof {
            lemma_before_char_step(s@, sep, i as int);
        }
        let ghost o = out@;
        out.push(s[i]);
        i = i + 1;
        assert(out@ =~= s@.subrange(0, i as int));
        assert(o + (seq![s@[i - 1]] + before_char(s@.subrange(i as int, s.len() as int), sep))
            =~= out@ + before_char(s@.subrange(i as int, s.len() as int), sep));
    }
    assert(before_char(s@.subrange(i as int, s.len() as int), sep) =~= Seq::<char>::empty());
    assert(out@ + Seq::<char>::empty() =~= out@);
    out
}

fn copy_range(s: &[char], lo: usize, hi: usize) -> (r: Vec<char>)
    requires
        lo <= hi <= s.len(),
    ensures
        r@ == s@.subrange(lo as int, hi as int),
{
    let mut out: Vec<char> = Vec::new();
    let mut k: usize = lo;
    while k < hi
        invariant
            lo <= k <= hi,
            hi <= s.len(),
            out@ == s@.subrange(lo as int, k as int),
        decreases hi - k,
    {
        out.push(s[k]);
        k = k + 1;
        assert(out@ =~= s@.subrange(lo as int, k as int));
    }
    out
}

/// The pieces of `s` between the separators `sep`, each trimmed, the blank
/// ones left out (what `s.split(sep).map(str::trim).filter(|p| !p.is_empty())`
/// yields; with `'\n'`, the same as `s.lines()` in place of the split).
pub fn split_nonblank(s: &[char], sep: char) -> (r: Vec<Vec<char>>)
    ensures
        line_views(r@) == nonblank_pieces(s@, 0, sep),
{
    let n = s.len();
    let mut out: Vec<Vec<char>> = Vec::new();
    let mut i: usize = 0;
    assert(line_views(out@) =~= Seq::<Seq<char>>::empty());
    loop
        invariant_except_break
            n == s@.len(),
            i <= n,
            nonblank_pieces(s@, 0, sep) == line_views(out@) + nonblank_pieces(s@, i as int, sep),
        ensures
            line_views(out@) == nonblank_pieces(s@, 0, sep),
        decreases n - i,
    {
        let mut j: usize = i;
        while j < n && s[j] != sep
            invariant
                n == s@.len(),
                i <= j <= n,
                piece_end(s@, i as int, sep) == piece_end(s@, j as int, sep),
            decreases n - j,
        {
            j = j + 1;
        }
        proof {
            lemma_piece_end_bounds(s@, i as int, sep);
        }
        let line = copy_range(s, i, j);
        let t = trim(line.as_slice());
        let ghost before = line_views(out@);
        if t.len() > 0 {
            out.push(t);
            assert(line_views(out@) =~= before.push(trim_seq(s@.subrange(i as int, j as int))));
        }
        proof {
            let rest = if j < n {
                nonblank_pieces(s@, j + 1, sep)
            } else {
                Seq::empty()
            };
            let tt = trim_seq(s@.subrange(i as int, j as int));
            if tt.len() > 0 {
                assert(before.push(tt) + rest =~= before + (seq![tt] + rest));
            }
            assert(nonblank_pieces(s@, 0, sep) == line_views(out@) + rest);
        }
        if j >= n {
            assert(line_views(out@) + Seq::<Seq<char>>::empty() =~= line_views(out@));
            break;
        }
        i = j + 1;
    }
    out
}

} // verus!
