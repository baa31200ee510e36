//! The actions settings panel: the command allow-list text and the pattern
//! tester.

use crate::actions::matcher::{action_matches, lemma_compiled_matches, ActionMatcher};
use crate::actions::Action;
use crate::text::{
    chars_of, join_seqs, lemma_nonblank_pieces_clean, lemma_pieces_of_join, line_views,
    nonblank_pieces, split_nonblank, string_from_chars,
};
use vstd::prelude::*;

verus! {

/// The panel's slot among the collapsible settings groups.
pub const PANEL_INDEX: usize = 8;

/// The allow-list as stored: each line trimmed, blank lines dropped, joined
/// with line breaks.
pub open spec fn normalized_allowlist(text: Seq<char>) -> Seq<char> {
    join_seqs(nonblank_pieces(text, 0, '\n'), '\n')
}

/// Law: normalising a stored allow-list again leaves it unchanged.
pub proof fn lemma_normalize_allowlist_idempotent(text: Seq<char>)
    ensures
        normalized_allowlist(normalized_allowlist(text)) == normalized_allowlist(text),
{
    lemma_nonblank_pieces_clean(text, 0, '\n');
    lemma_pieces_of_join(nonblank_pieces(text, 0, '\n'), '\n');
}

/// Normalises the command allow-list as the panel stores it (see
/// [`normalized_allowlist`]).
pub fn normalize_allowlist(text: &str) -> (r: String)
    ensures
        r@ == normalized_allowlist(text@),
{
    let s = chars_of(text);
    let lines = split_nonblank(s.as_slice(), '\n');
    let ghost lv = line_views(lines@);
    let mut out: Vec<char> = Vec::new();
    let mut i: usize = 0;
    while i < lines.len()
        invariant
            i <= lines@.len(),
            lv == line_views(lines@),
            out@ == join_seqs(lv.subrange(0, i as int), '\n'),
        decreases lines@.len() - i,
    {
        let ghost o0 = out@;
        if i > 0 {
            out.push('\n');
        }
        let ghost o1 = out@;
        let line = &lines[i];
        let mut k: usize = 0;
        while k < line.len()
            invariant
                k <= line@.len(),
                out@ == o1 + line@.subrange(0, k as int),
            decreases line@.len() - k,
        {
            out.push(line[k]);
            k = k + 1;
            assert(out@ =~= o1 + line@.subrange(0, k as int));
        }
        proof {
            assert(line@.subrange(0, line@.len() as int) =~= line@);
            let p = lv.subrange(0, i + 1);
            assert(p.drop_last() =~= lv.subrange(0, i as int));
            assert(p.last() == line@);
            if i == 0 {
                assert(out@ =~= line@);
            } else {
                assert(out@ =~= o0 + seq!['\n'] + line@);
            }
        }
        i = i + 1;
    }
    assert(lv.subrange(0, lv.len() as int) =~= lv);
    string_from_chars(out.as_slice())
}

/// How many of the actions the pattern tester reports for `text`: none for
/// an empty text, else the enabled actions whose pattern matches it.
pub open spec fn tester_match_count(actions: Seq<Action>, text: Seq<char>) -> nat
    decreases actions.len(),
{
    if text.len() == 0 || actions.len() == 0 {
        0
    } else {
        let a = actions.last();
        tester_match_count(actions.drop_last(), text) + (if a.enabled && action_matches(a, text) {
            1nat
        } else {
            0nat
        })
    }
}

/// The pattern tester: counts the enabled actions whose pattern matches the
/// test text, each checked on its own (see [`tester_match_count`]).
pub fn pattern_test_match_count(actions: &Vec<Action>, text: &str) -> (r: usize)
    ensures
        r == tester_match_count(actions@, text@),
{
    if chars_of(text).len() == 0 {
        return 0;
    }
    let mut count: usize = 0;
    let mut i: usize = 0;
    while i < actions.len()
        invariant
            text@.len() > 0,
            i <= actions@.len(),
            count == tester_match_count(actions@.take(i as int), text@),
            count <= i,
        decreases actions@.len() - i,
    {
        let action = actions[i].clone();
        proof {
            assert(actions@.take(i + 1).drop_last() =~= actions@.take(i as int));
        }
        if !action.enabled {
            i = i + 1;
            continue;
        }
        let m = ActionMatcher::new(vec![action]);
        proof {
            reveal(Seq::filter);
            let one = seq![actions@[i as int]];
            assert(one.drop_last() =~= Seq::<Action>::empty());
            assert(one.filter(|a: Action| a.enabled) =~= one);
            lemma_compiled_matches(m.compiled@[0], actions@[i as int], text@);
        }
        if m.find_first_match(text).is_some() {
            count = count + 1;
        }
        i = i + 1;
    }
    assert(actions@.take(actions@.len() as int) =~= actions@);
    count
}

} // verus!
