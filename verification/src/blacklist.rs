//! WM_CLASS glob matching for application exclusion.
//!
//! User-provided glob patterns (e.g. `keepassxc`, `*password*`) are compiled
//! once into a glob set so that each clipboard capture is checked against the
//! class name of the focused window in one pass.

use crate::actions::lemma_filter_push;
use crate::actions::patterns::{
    builder_add, builder_build, builder_globs, empty_set, globset_builds, globset_is_match,
    glob_parses, new_builder, set_globs, set_is_match, GlobPattern,
};
use globset::GlobSet;
use vstd::prelude::*;

verus! {

/// Operating mode for the window exclusion/allowlist system.
///
/// - `Blacklist` (default): exclude matching windows from capture.
/// - `Whitelist`: only capture from matching windows.
#[derive(Debug, Clone, Copy, PartialEq, Eq)]
pub enum ExclusionMode {
    Blacklist,
    Whitelist,
}

impl Default for ExclusionMode {
    fn default() -> (m: Self)
        ensures
            m == ExclusionMode::Blacklist,
    {
        ExclusionMode::Blacklist
    }
}

/// The texts of the patterns that parse as globs, in order.
pub open spec fn parsed_globs(patterns: Seq<String>) -> Seq<Seq<char>> {
    patterns.map_values(|p: String| p@).filter(|g: Seq<char>| glob_parses(g))
}

/// The globs a blacklist built from `patterns` holds: none for an empty list;
/// otherwise the patterns that parse, unless the set of them does not build,
/// in which case none.
pub open spec fn compiled_globs(patterns: Seq<String>) -> Seq<Seq<char>> {
    if patterns.len() == 0 {
        Seq::empty()
    } else if globset_builds(parsed_globs(patterns)) {
        parsed_globs(patterns)
    } else {
        Seq::empty()
    }
}

/// Compiled blacklist of WM_CLASS patterns.
pub struct AppBlacklist {
    patterns: Vec<String>,
    compiled: GlobSet,
}

impl AppBlacklist {
    /// The patterns the blacklist was built from.
    pub closed spec fn patterns(&self) -> Seq<String> {
        self.patterns@
    }

    /// The globs the blacklist matches with.
    pub closed spec fn globs(&self) -> Seq<Seq<char>> {
        set_globs(self.compiled)
    }

    /// Whether the blacklist excludes a window of class `wm_class`: never for
    /// an empty class, otherwise when the compiled globs match it.
    pub open spec fn excludes(&self, wm_class: Seq<char>) -> bool {
        wm_class.len() > 0 && globset_is_match(self.globs(), wm_class)
    }

    /// Compiles a set of glob patterns; patterns that do not parse are
    /// skipped. When no pattern parses (in particular for an empty list) the
    /// blacklist excludes nothing.
    pub fn new(patterns: Vec<String>) -> (b: Self)
        ensures
            b.patterns() == patterns@,
            b.globs() == compiled_globs(patterns@),
            parsed_globs(patterns@).len() == 0 ==> forall|wm: Seq<char>| !b.excludes(wm),
    {
        if patterns.len() == 0 {
            return AppBlacklist { patterns, compiled: empty_set() };
        }
        let mut builder = new_builder();
        let ghost view = |p: String| p@;
        let ghost parses = |g: Seq<char>| glob_parses(g);
        assert(patterns@.take(0).map_values(view).filter(parses) =~= Seq::<Seq<char>>::empty()) by {
            reveal(Seq::filter);
            assert(patterns@.take(0).map_values(view) =~= Seq::<Seq<char>>::empty());
        }
        let mut i: usize = 0;
        while i < patterns.len()
            invariant
                i <= patterns@.len(),
                view == (|p: String| p@),
                parses == (|g: Seq<char>| glob_parses(g)),
                builder_globs(builder) == patterns@.take(i as int).map_values(view).filter(parses),
            decreases patterns@.len() - i,
        {
            proof {
                assert(patterns@.take(i + 1).map_values(view) =~= patterns@.take(i as int).map_values(
                    view,
                ).push(patterns@[i as int]@));
                lemma_filter_push(
                    patterns@.take(i as int).map_values(view),
                    patterns@[i as int]@,
                    parses,
                );
            }
            match GlobPattern::parse(patterns[i].as_str()) {
                Some(glob) => builder_add(&mut builder, glob),
                None => {},
            }
            i = i + 1;
        }
        assert(patterns@.take(patterns@.len() as int) =~= patterns@);
        let compiled = match builder_build(&builder) {
            Some(set) => set,
            None => empty_set(),
        };
        AppBlacklist { patterns, compiled }
    }

    /// Identical to [`AppBlacklist::new`].
    pub fn from_vec(patterns: Vec<String>) -> (b: Self)
        ensures
            b.patterns() == patterns@,
            b.globs() == compiled_globs(patterns@),
            parsed_globs(patterns@).len() == 0 ==> forall|wm: Seq<char>| !b.excludes(wm),
    {
        Self::new(patterns)
    }

    /// Returns `true` when `wm_class` matches any compiled pattern; an empty
    /// class never matches.
    pub fn is_match(&self, wm_class: &str) -> (b: bool)
        ensures
            b == self.excludes(wm_class@),
    {
        if wm_class.is_empty() {
            return false;
        }
        set_is_match(&self.compiled, wm_class)
    }
}

} // verus!
