//! Pattern matcher for actions: compiles regex/glob patterns once and matches
//! clipboard text against them in the actions' order.

use crate::actions::patterns::{
    builder_add, builder_build, globset_builds, globset_is_match, glob_parses, new_builder,
    regex_compiles, regex_is_match, set_globs, set_is_match, GlobPattern, RegexPattern,
};
use crate::actions::{lemma_filter_push, Action};
use crate::text::{chars_of, contains_seq, string_from_chars, trim, trim_seq};
use globset::GlobSet;
use vstd::prelude::*;

verus! {

/// A compiled action with its pre-built pattern matcher.
pub struct CompiledAction {
    /// The action this was compiled from.
    pub action: Action,
    /// Compiled regex (for regex-style patterns).
    pub regex: Option<RegexPattern>,
    /// Compiled glob set (for glob-style patterns containing `*` or `?`).
    pub glob: Option<GlobSet>,
}

/// Matcher that pre-compiles all action patterns.
pub struct ActionMatcher {
    pub compiled: Vec<CompiledAction>,
}

/// Source of the enabled actions, decoupling the matcher from storage.
pub trait ActionSource {
    fn load_enabled_actions(&self) -> Vec<Action>;
}

/// A pattern is glob-style when it is not anchored like a regex (`^...` or
/// `...$`) and contains `*` or `?`.
pub open spec fn is_glob_pattern_spec(p: Seq<char>) -> bool {
    if (p.len() > 0 && p[0] == '^') || (p.len() > 0 && p[p.len() - 1] == '$') {
        false
    } else {
        p.contains('*') || p.contains('?')
    }
}

/// The pattern text matched against for an action: its trimmed pattern.
pub open spec fn trimmed_pattern(a: Action) -> Seq<char> {
    trim_seq(a.pattern@)
}

/// The regex source used when an action's regex does not compile: a pattern
/// intended to match everything.
pub open spec fn fallback_regex() -> Seq<char> {
    "^.*$"@
}

impl CompiledAction {
    /// `self` is the compilation of action `a`: an empty pattern gets no
    /// matcher; a glob-style pattern gets a one-glob set when the glob parses
    /// and the set builds (no matcher otherwise); any other pattern gets its
    /// regex, or the match-all fallback regex when it does not compile.
    pub open spec fn compiled_from(self, a: Action) -> bool {
        let p = trimmed_pattern(a);
        &&& self.action == a
        &&& if p.len() == 0 {
            self.regex is None && self.glob is None
        } else if is_glob_pattern_spec(p) {
            &&& self.regex is None
            &&& if glob_parses(p) && globset_builds(seq![p]) {
                self.glob matches Some(g) && set_globs(g) == seq![p]
            } else {
                self.glob is None
            }
        } else {
            &&& self.glob is None
            &&& self.regex matches Some(r)
            &&& r.source() == (if regex_compiles(p) {
                p
            } else {
                fallback_regex()
            })
        }
    }

    /// Whether this compiled action's pattern matches `text`: through its
    /// regex, else through its glob set; with neither it never matches.
    pub open spec fn matches(self, text: Seq<char>) -> bool {
        match self.regex {
            Some(r) => regex_is_match(r.source(), text),
            None => match self.glob {
                Some(g) => globset_is_match(set_globs(g), text),
                None => false,
            },
        }
    }

    /// Executable form of [`CompiledAction::matches`].
    pub fn is_match(&self, text: &str) -> (b: bool)
        ensures
            b == self.matches(text@),
    {
        match &self.regex {
            Some(re) => re.is_match(text),
            None => match &self.glob {
                Some(gs) => set_is_match(gs, text),
                None => false,
            },
        }
    }
}

/// Whether action `a`'s pattern matches `text` once compiled: never for an
/// empty pattern; for a glob-style one, through its one-glob set when that
/// builds; otherwise through its regex, or the match-all fallback when the
/// regex does not compile.
pub open spec fn action_matches(a: Action, text: Seq<char>) -> bool {
    let p = trimmed_pattern(a);
    if p.len() == 0 {
        false
    } else if is_glob_pattern_spec(p) {
        glob_parses(p) && globset_builds(seq![p]) && globset_is_match(seq![p], text)
    } else if regex_compiles(p) {
        regex_is_match(p, text)
    } else {
        regex_is_match(fallback_regex(), text)
    }
}

/// Whatever compilation an action gets, it matches exactly the texts that
/// [`action_matches`] names.
pub proof fn lemma_compiled_matches(c: CompiledAction, a: Action, text: Seq<char>)
    requires
        c.compiled_from(a),
    ensures
        c.matches(text) == action_matches(a, text),
{
}

/// The enabled actions of a list, in order.
pub open spec fn enabled_actions(actions: Seq<Action>) -> Seq<Action> {
    actions.filter(|a: Action| a.enabled)
}

/// Whether a pattern is glob-style (see [`is_glob_pattern_spec`]).
pub fn is_glob_pattern(pattern: &[char]) -> (b: bool)
    ensures
        b == is_glob_pattern_spec(pattern@),
{
    let n = pattern.len();
    if (n > 0 && pattern[0] == '^') || (n > 0 && pattern[n - 1] == '$') {
        return false;
    }
    let mut i: usize = 0;
    while i < n
        invariant
            n == pattern.len(),
            i <= n,
            !((n > 0 && pattern@[0] == '^') || (n > 0 && pattern@[n - 1] == '$')),
            forall|k: int| 0 <= k < i ==> pattern@[k] != '*' && pattern@[k] != '?',
        decreases n - i,
    {
        if pattern[i] == '*' || pattern[i] == '?' {
            proof {
                if pattern@[i as int] == '*' {
                    assert(pattern@.contains('*'));
                } else {
                    assert(pattern@.contains('?'));
                }
            }
            return true;
        }
        i = i + 1;
    }
    false
}

/// Compiles a single action (see [`CompiledAction::compiled_from`]).
pub fn compile_action(action: Action) -> (c: CompiledAction)
    ensures
        c.compiled_from(action),
{
    let raw = chars_of(action.pattern.as_str());
    let trimmed = trim(raw.as_slice());
    if trimmed.len() == 0 {
        return CompiledAction { action, regex: None, glob: None };
    }
    let pattern = string_from_chars(trimmed.as_slice());
    if is_glob_pattern(trimmed.as_slice()) {
        match GlobPattern::parse(pattern.as_str()) {
            Some(glob) => {
                let mut builder = new_builder();
                builder_add(&mut builder, glob);
                assert(crate::actions::patterns::builder_globs(builder) =~= seq![pattern@]);
                match builder_build(&builder) {
                    Some(set) => CompiledAction { action, regex: None, glob: Some(set) },
                    None => CompiledAction { action, regex: None, glob: None },
                }
            },
            None => CompiledAction { action, regex: None, glob: None },
        }
    } else {
        match RegexPattern::parse(pattern.as_str()) {
            Some(re) => CompiledAction { action, regex: Some(re), glob: None },
            None => {
                let fallback = RegexPattern::parse("^.*$");
                match fallback {
                    Some(re) => CompiledAction { action, regex: Some(re), glob: None },
                    None => {
                        assert(false);
                        CompiledAction { action, regex: None, glob: None }
                    },
                }
            },
        }
    }
}

/// `c` is chosen by a search that requires the auto-trigger flag when
/// `need_auto`, the primary-selection flag when `need_primary`, and in any
/// case a pattern match of `text`.
pub open spec fn selected(c: CompiledAction, need_auto: bool, need_primary: bool, text: Seq<char>) -> bool {
    &&& (need_auto ==> c.action.auto_trigger)
    &&& (need_primary ==> c.action.auto_trigger_primary)
    &&& c.matches(text)
}

/// The predicate "matches `text`" on compiled actions.
pub open spec fn matches_pred(text: Seq<char>) -> spec_fn(CompiledAction) -> bool {
    |c: CompiledAction| c.matches(text)
}

impl ActionMatcher {
    /// `self` holds, in order, the compilations of the enabled actions of
    /// `actions`.
    pub open spec fn compiled_from_actions(self, actions: Seq<Action>) -> bool {
        let en = enabled_actions(actions);
        &&& self.compiled@.len() == en.len()
        &&& forall|i: int| 0 <= i < en.len() ==> (#[trigger] self.compiled@[i]).compiled_from(en[i])
    }

    /// The compiled actions matching `text`, in order.
    pub open spec fn matching(self, text: Seq<char>) -> Seq<CompiledAction> {
        self.compiled@.filter(matches_pred(text))
    }

    /// Index `i` holds the first compiled action chosen by the search with the
    /// given flags.
    pub open spec fn is_first_selected(self, need_auto: bool, need_primary: bool, text: Seq<char>, i: int) -> bool {
        &&& 0 <= i < self.compiled@.len()
        &&& selected(self.compiled@[i], need_auto, need_primary, text)
        &&& forall|j: int| 0 <= j < i ==> !selected(#[trigger] self.compiled@[j], need_auto, need_primary, text)
    }

    /// The search with the given flags finds `r`: the first chosen action, or
    /// nothing when no action is chosen.
    pub open spec fn finds(self, need_auto: bool, need_primary: bool, text: Seq<char>, r: Option<CompiledAction>) -> bool {
        match r {
            Some(c) => exists|i: int| #[trigger] self.is_first_selected(need_auto, need_primary, text, i) && c == self.compiled@[i],
            None => forall|i: int| 0 <= i < self.compiled@.len() ==> !selected(#[trigger] self.compiled@[i], need_auto, need_primary, text),
        }
    }

    /// Create a matcher from a list of actions. Only enabled actions are
    /// compiled, in their list order.
    pub fn new(actions: Vec<Action>) -> (m: Self)
        ensures
            m.compiled_from_actions(actions@),
    {
        let mut compiled: Vec<CompiledAction> = Vec::new();
        let mut i: usize = 0;
        let ghost p = |a: Action| a.enabled;
        assert(actions@.take(0).filter(p) =~= Seq::<Action>::empty()) by {
            reveal(Seq::filter);
        }
        while i < actions.len()
            invariant
                i <= actions.len(),
                p == (|a: Action| a.enabled),
                compiled@.len() == actions@.take(i as int).filter(p).len(),
                forall|j: int| 0 <= j < compiled@.len() ==> (#[trigger] compiled@[j]).compiled_from(actions@.take(i as int).filter(p)[j]),
            decreases actions.len() - i,
        {
            let a = actions[i].clone();
            proof {
                assert(actions@.take(i + 1) =~= actions@.take(i as int).push(actions@[i as int]));
                lemma_filter_push(actions@.take(i as int), actions@[i as int], p);
            }
            if a.enabled {
                compiled.push(compile_action(a));
            }
            i = i + 1;
        }
        assert(actions@.take(actions.len() as int) =~= actions@);
        ActionMatcher { compiled }
    }

    /// Create a matcher from an `ActionSource` (e.g., storage): the matcher
    /// of whatever actions the source hands out.
    pub fn from_source<S: ActionSource>(source: &S) -> (m: Self)
        ensures
            exists|v: Vec<Action>| call_ensures(S::load_enabled_actions, (source,), v) && m.compiled_from_actions(v@),
    {
        let actions = source.load_enabled_actions();
        let m = Self::new(actions);
        m
    }

    /// Find all actions whose patterns match the given text, in order.
    pub fn find_matching(&self, text: &str) -> (r: Vec<&CompiledAction>)
        ensures
            r@.len() == self.matching(text@).len(),
            forall|i: int| 0 <= i < r@.len() ==> *(#[trigger] r@[i]) == self.matching(text@)[i],
    {
        let mut out: Vec<&CompiledAction> = Vec::new();
        let mut i: usize = 0;
        let ghost p = matches_pred(text@);
        assert(self.compiled@.take(0).filter(p) =~= Seq::<CompiledAction>::empty()) by {
            reveal(Seq::filter);
        }
        while i < self.compiled.len()
            invariant
                i <= self.compiled@.len(),
                p == matches_pred(text@),
                out@.len() == self.compiled@.take(i as int).filter(p).len(),
                forall|j: int| 0 <= j < out@.len() ==> *(#[trigger] out@[j]) == self.compiled@.take(i as int).filter(p)[j],
            decreases self.compiled@.len() - i,
        {
            let c = &self.compiled[i];
            proof {
                assert(self.compiled@.take(i + 1) =~= self.compiled@.take(i as int).push(self.compiled@[i as int]));
                lemma_filter_push(self.compiled@.take(i as int), self.compiled@[i as int], p);
            }
            if c.is_match(text) {
                out.push(c);
            }
            i = i + 1;
        }
        assert(self.compiled@.take(self.compiled@.len() as int) =~= self.compiled@);
        out
    }

    fn find_first_selected(&self, text: &str, need_auto: bool, need_primary: bool) -> (r: Option<&CompiledAction>)
        ensures
            self.finds(need_auto, need_primary, text@, match r { Some(c) => Some(*c), None => None }),
    {
        let mut i: usize = 0;
        while i < self.compiled.len()
            invariant
                i <= self.compiled@.len(),
                forall|j: int| 0 <= j < i ==> !selected(#[trigger] self.compiled@[j], need_auto, need_primary, text@),
            decreases self.compiled@.len() - i,
        {
            let c = &self.compiled[i];
            let flags_ok = (!need_auto || c.action.auto_trigger) && (!need_primary || c.action.auto_trigger_primary);
            if flags_ok && c.is_match(text) {
                assert(self.is_first_selected(need_auto, need_primary, text@, i as int));
                return Some(c);
            }
            i = i + 1;
        }
        None
    }

    /// Find the first (highest-priority) matching action.
    pub fn find_first_match(&self, text: &str) -> (r: Option<&CompiledAction>)
        ensures
            self.finds(false, false, text@, match r { Some(c) => Some(*c), None => None }),
    {
        self.find_first_selected(text, false, false)
    }

    /// Find the first matching action that has `auto_trigger` enabled.
    pub fn find_first_auto_trigger(&self, text: &str) -> (r: Option<&CompiledAction>)
        ensures
            self.finds(true, false, text@, match r { Some(c) => Some(*c), None => None }),
    {
        self.find_first_selected(text, true, false)
    }

    /// Find the first matching action that has `auto_trigger_primary` enabled.
    pub fn find_first_auto_trigger_primary(&self, text: &str) -> (r: Option<&CompiledAction>)
        ensures
            self.finds(false, true, text@, match r { Some(c) => Some(*c), None => None }),
    {
        self.find_first_selected(text, false, true)
    }
}

proof fn lemma_filter_none<A>(s: Seq<A>, p: spec_fn(A) -> bool)
    requires
        forall|j: int| 0 <= j < s.len() ==> !p(#[trigger] s[j]),
    ensures
        s.filter(p).len() == 0,
    decreases s.len(),
{
    reveal(Seq::filter);
    if s.len() > 0 {
        lemma_filter_none(s.drop_last(), p);
    }
}

/// The predicate "chosen by the search with these flags" on compiled actions.
pub open spec fn selected_pred(need_auto: bool, need_primary: bool, text: Seq<char>) -> spec_fn(CompiledAction) -> bool {
    |c: CompiledAction| selected(c, need_auto, need_primary, text)
}

proof fn lemma_first_selected_heads(m: ActionMatcher, need_auto: bool, need_primary: bool, text: Seq<char>, r: Option<CompiledAction>)
    requires
        m.finds(need_auto, need_primary, text, r),
    ensures
        match r {
            Some(c) => m.compiled@.filter(selected_pred(need_auto, need_primary, text)).len() > 0
                && m.compiled@.filter(selected_pred(need_auto, need_primary, text))[0] == c,
            None => m.compiled@.filter(selected_pred(need_auto, need_primary, text)).len() == 0,
        },
{
    let s = m.compiled@;
    let p = selected_pred(need_auto, need_primary, text);
    match r {
        Some(c) => {
            let i = choose|i: int| #[trigger] m.is_first_selected(need_auto, need_primary, text, i) && c == s[i];
            let pre = s.take(i);
            let post = s.skip(i + 1);
            assert(s =~= pre + (seq![c] + post));
            assert forall|j: int| 0 <= j < pre.len() implies !p(#[trigger] pre[j]) by {
                assert(pre[j] == s[j]);
                assert(!selected(s[j], need_auto, need_primary, text));
            }
            lemma_filter_none(pre, p);
            lemma_filter_push(Seq::<CompiledAction>::empty(), c, p);
            assert(Seq::<CompiledAction>::empty().filter(p) =~= Seq::<CompiledAction>::empty()) by {
                reveal(Seq::filter);
            }
            assert(Seq::<CompiledAction>::empty().push(c) =~= seq![c]);
            Seq::filter_distributes_over_add(pre, seq![c] + post, p);
            Seq::filter_distributes_over_add(seq![c], post, p);
            assert(pre.filter(p) =~= Seq::<CompiledAction>::empty());
            assert(s.filter(p) =~= seq![c] + post.filter(p));
        },
        None => {
            assert forall|j: int| 0 <= j < s.len() implies !p(#[trigger] s[j]) by {
                assert(!selected(s[j], need_auto, need_primary, text));
            }
            lemma_filter_none(s, p);
        },
    }
}

proof fn lemma_filter_filter(s: Seq<CompiledAction>, p: spec_fn(CompiledAction) -> bool, q: spec_fn(CompiledAction) -> bool)
    ensures
        s.filter(p).filter(q) == s.filter(|x: CompiledAction| p(x) && q(x)),
    decreases s.len(),
{
    let pq = |x: CompiledAction| p(x) && q(x);
    if s.len() == 0 {
        reveal(Seq::filter);
        assert(s.filter(p) =~= Seq::<CompiledAction>::empty());
        assert(s.filter(p).filter(q) =~= Seq::<CompiledAction>::empty());
        assert(s.filter(pq) =~= Seq::<CompiledAction>::empty());
    } else {
        let t = s.drop_last();
        let x = s.last();
        lemma_filter_filter(t, p, q);
        assert(s =~= t.push(x));
        lemma_filter_push(t, x, p);
        lemma_filter_push(t, x, pq);
        lemma_filter_push(t.filter(p), x, q);
    }
}

/// Law: the first matching action is the head of the list of all matching
/// actions, and there is none exactly when that list is empty.
pub proof fn lemma_first_match_heads_matching(m: ActionMatcher, text: Seq<char>, r: Option<CompiledAction>)
    requires
        m.finds(false, false, text, r),
    ensures
        match r {
            Some(c) => m.matching(text).len() > 0 && m.matching(text)[0] == c,
            None => m.matching(text).len() == 0,
        },
{
    lemma_first_selected_heads(m, false, false, text, r);
    assert(selected_pred(false, false, text) =~= matches_pred(text));
}

/// Law: the first auto-triggered action is the first action with
/// `auto_trigger` set in the list of all matching actions, and there is none
/// exactly when no matching action has it set.
pub proof fn lemma_auto_trigger_is_first_auto_match(m: ActionMatcher, text: Seq<char>, r: Option<CompiledAction>)
    requires
        m.finds(true, false, text, r),
    ensures
        ({
            let f = m.matching(text).filter(|c: CompiledAction| c.action.auto_trigger);
            match r {
                Some(c) => f.len() > 0 && f[0] == c,
                None => f.len() == 0,
            }
        }),
{
    let q = |c: CompiledAction| c.action.auto_trigger;
    lemma_first_selected_heads(m, true, false, text, r);
    lemma_filter_filter(m.compiled@, matches_pred(text), q);
    assert((|x: CompiledAction| matches_pred(text)(x) && q(x)) =~= selected_pred(true, false, text));
}

/// Law: the first action triggered by a primary selection is the first
/// action with `auto_trigger_primary` set in the list of all matching
/// actions, and there is none exactly when no matching action has it set.
pub proof fn lemma_primary_trigger_is_first_primary_match(m: ActionMatcher, text: Seq<char>, r: Option<CompiledAction>)
    requires
        m.finds(false, true, text, r),
    ensures
        ({
            let f = m.matching(text).filter(|c: CompiledAction| c.action.auto_trigger_primary);
            match r {
                Some(c) => f.len() > 0 && f[0] == c,
                None => f.len() == 0,
            }
        }),
{
    let q = |c: CompiledAction| c.action.auto_trigger_primary;
    lemma_first_selected_heads(m, false, true, text, r);
    lemma_filter_filter(m.compiled@, matches_pred(text), q);
    assert((|x: CompiledAction| matches_pred(text)(x) && q(x)) =~= selected_pred(false, true, text));
}

/// Law: a matcher compiles only enabled actions.
pub proof fn lemma_compiled_actions_are_enabled(m: ActionMatcher, actions: Seq<Action>, i: int)
    requires
        m.compiled_from_actions(actions),
        0 <= i < m.compiled@.len(),
    ensures
        m.compiled@[i].action.enabled,
{
    let p = |a: Action| a.enabled;
    assert(m.compiled@[i].compiled_from(enabled_actions(actions)[i]));
    actions.lemma_filter_pred(p, i);
}

/// Law: an action whose trimmed pattern is empty never matches.
pub proof fn lemma_empty_pattern_never_matches(c: CompiledAction, a: Action, text: Seq<char>)
    requires
        c.compiled_from(a),
        trimmed_pattern(a).len() == 0,
    ensures
        !c.matches(text),
{
}

/// Law: the automatic-trigger searches only find matching actions carrying
/// the corresponding flag.
pub proof fn lemma_auto_searches_respect_flags(m: ActionMatcher, text: Seq<char>, auto: Option<CompiledAction>, primary: Option<CompiledAction>)
    requires
        m.finds(true, false, text, auto),
        m.finds(false, true, text, primary),
    ensures
        auto matches Some(c) ==> c.action.auto_trigger && c.matches(text),
        primary matches Some(c) ==> c.action.auto_trigger_primary && c.matches(text),
{
}

/// Law: a pattern is glob-style exactly when it neither starts with `^` nor
/// ends with `$` and holds a `*` or `?` at some position, the first and the
/// last included; an anchored pattern is never glob-style.
pub proof fn lemma_glob_style_iff_wildcard(p: Seq<char>)
    ensures
        is_glob_pattern_spec(p) <==> {
            &&& !(p.len() > 0 && p[0] == '^')
            &&& !(p.len() > 0 && p[p.len() - 1] == '$')
            &&& exists|k: int| 0 <= k < p.len() && (#[trigger] p[k] == '*' || p[k] == '?')
        },
        p.len() > 0 && p[0] != '^' && (p[p.len() - 1] == '*' || p[p.len() - 1] == '?')
            ==> is_glob_pattern_spec(p),
{
    if p.len() > 0 && p[0] != '^' && (p[p.len() - 1] == '*' || p[p.len() - 1] == '?') {
        assert(p[p.len() - 1] == '*' ==> p.contains('*'));
        assert(p[p.len() - 1] == '?' ==> p.contains('?'));
    }
    if exists|k: int| 0 <= k < p.len() && (#[trigger] p[k] == '*' || p[k] == '?') {
        let k = choose|k: int| 0 <= k < p.len() && (#[trigger] p[k] == '*' || p[k] == '?');
        assert(p[k] == '*' ==> p.contains('*'));
        assert(p[k] == '?' ==> p.contains('?'));
    }
}

} // verus!
