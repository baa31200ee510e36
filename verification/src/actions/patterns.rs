//! Compiled regular expressions and glob sets, as provided by the `regex` and
//! `globset` crates.
//!
//! Everything in this file is trusted: the matching engines are the outside
//! crates' own, and their results are named rather than re-specified.
//! A [`RegexPattern`] or [`GlobPattern`] pairs the compiled object with the
//! text it was compiled from; both fields are private and the only
//! constructors are the `parse` functions below, so the pairing holds for every
//! value of these types.

use globset::{Glob, GlobSet, GlobSetBuilder};
use regex::Regex;
use vstd::prelude::*;

verus! {

#[verifier::external_type_specification]
#[verifier::external_body]
pub struct ExRegex(Regex);

#[verifier::external_type_specification]
#[verifier::external_body]
pub struct ExGlob(Glob);

#[verifier::external_type_specification]
#[verifier::external_body]
pub struct ExGlobSet(GlobSet);

#[verifier::external_type_specification]
#[verifier::external_body]
pub struct ExGlobSetBuilder(GlobSetBuilder);

/// Whether `Regex::new` accepts the pattern.
pub uninterp spec fn regex_compiles(pattern: Seq<char>) -> bool;

/// What `Regex::is_match` returns for a regex compiled from `pattern` on
/// `haystack`.
pub uninterp spec fn regex_is_match(pattern: Seq<char>, haystack: Seq<char>) -> bool;

/// Whether `Glob::new` accepts the glob.
pub uninterp spec fn glob_parses(glob: Seq<char>) -> bool;

/// The glob texts held by a `GlobSetBuilder`, in the order they were added.
pub uninterp spec fn builder_globs(builder: GlobSetBuilder) -> Seq<Seq<char>>;

/// The glob texts a `GlobSet` was built from, in order.
pub uninterp spec fn set_globs(set: GlobSet) -> Seq<Seq<char>>;

/// Whether `GlobSetBuilder::build` succeeds for these globs.
pub uninterp spec fn globset_builds(globs: Seq<Seq<char>>) -> bool;

/// What `GlobSet::is_match` returns for a set built from `globs` on `path`.
pub uninterp spec fn globset_is_match(globs: Seq<Seq<char>>, path: Seq<char>) -> bool;

/// A regular expression together with the pattern it was compiled from.
pub struct RegexPattern {
    source: String,
    regex: Regex,
}

impl RegexPattern {
    /// The pattern text this regex was compiled from.
    pub closed spec fn source(&self) -> Seq<char> {
        self.source@
    }

    /// `Regex::new`. Claims: it succeeds exactly when `regex_compiles` holds
    /// of the pattern, and always for the pattern `^.*$` (a well-formed regex
    /// in the crate's documented syntax); the result remembers the pattern.
    #[verifier::external_body]
    pub(crate) fn parse(pattern: &str) -> (r: Option<RegexPattern>)
        ensures
            r is Some <==> regex_compiles(pattern@),
            pattern@ == "^.*$"@ ==> r is Some,
            r matches Some(p) ==> p.source() == pattern@,
    {
        match Regex::new(pattern) {
            Ok(regex) => Some(RegexPattern { source: pattern.to_string(), regex }),
            Err(_) => None,
        }
    }

    /// `Regex::is_match`. Claims only that the answer is the named
    /// `regex_is_match` of the compiled pattern and the haystack.
    #[verifier::external_body]
    pub(crate) fn is_match(&self, haystack: &str) -> (b: bool)
        ensures
            b == regex_is_match(self.source(), haystack@),
    {
        self.regex.is_match(haystack)
    }
}

/// A glob together with the text it was parsed from.
pub struct GlobPattern {
    source: String,
    glob: Glob,
}

impl GlobPattern {
    /// The glob text this glob was parsed from.
    pub closed spec fn source(&self) -> Seq<char> {
        self.source@
    }

    /// `Glob::new`. Claims: it succeeds exactly when `glob_parses` holds of
    /// the text; the result remembers the text.
    #[verifier::external_body]
    pub(crate) fn parse(glob: &str) -> (r: Option<GlobPattern>)
        ensures
            r is Some <==> glob_parses(glob@),
            r matches Some(p) ==> p.source() == glob@,
    {
        match Glob::new(glob) {
            Ok(compiled) => Some(GlobPattern { source: glob.to_string(), glob: compiled }),
            Err(_) => None,
        }
    }
}

/// `GlobSetBuilder::new`: a builder holding no globs.
#[verifier::external_body]
pub(crate) fn new_builder() -> (b: GlobSetBuilder)
    ensures
        builder_globs(b) == Seq::<Seq<char>>::empty(),
{
    GlobSetBuilder::new()
}

/// `GlobSetBuilder::add`: appends the glob to the end of the builder's
/// list of globs.
#[verifier::external_body]
pub(crate) fn builder_add(builder: &mut GlobSetBuilder, glob: GlobPattern)
    ensures
        builder_globs(*final(builder)) == builder_globs(*old(builder)).push(glob.source()),
{
    builder.add(glob.glob);
}

/// `GlobSetBuilder::build`. Claims: it succeeds exactly when `globset_builds`
/// holds of the builder's globs, and the set then holds those globs; a
/// builder of no globs yields the empty set, which matches nothing.
#[verifier::external_body]
pub(crate) fn builder_build(builder: &GlobSetBuilder) -> (r: Option<GlobSet>)
    ensures
        r is Some <==> globset_builds(builder_globs(*builder)),
        r matches Some(s) ==> set_globs(s) == builder_globs(*builder),
        builder_globs(*builder).len() == 0 ==> r is Some,
        r matches Some(s) ==> (builder_globs(*builder).len() == 0 ==> forall|path: Seq<char>|
            !globset_is_match(set_globs(s), path)),
{
    builder.build().ok()
}

/// `GlobSet::empty`: a set of no globs, which matches nothing.
#[verifier::external_body]
pub(crate) fn empty_set() -> (s: GlobSet)
    ensures
        set_globs(s) == Seq::<Seq<char>>::empty(),
        forall|path: Seq<char>| !globset_is_match(set_globs(s), path),
{
    GlobSet::empty()
}

/// `GlobSet::is_match`. Claims only that the answer is the named
/// `globset_is_match` of the set's globs and the path.
#[verifier::external_body]
pub(crate) fn set_is_match(set: &GlobSet, path: &str) -> (b: bool)
    ensures
        b == globset_is_match(set_globs(*set), path@),
{
    set.is_match(path)
}

} // verus!
