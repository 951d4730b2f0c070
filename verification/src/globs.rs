//! Glob sets over repository-relative paths, backed by the `globset` crate.
//!
//! A `GlobSetBuilder` is a collection of glob patterns; the contracts speak
//! of it through the patterns it holds. A `GlobSet` keeps no pattern text,
//! only what it matches; the contracts speak of it through the set of paths
//! it matches.
use vstd::prelude::*;

use crate::error::CodeGrabberError;
use crate::text::string_views;

verus! {

#[verifier::external_type_specification]
#[verifier::external_body]
pub struct ExGlobSet(globset::GlobSet);

#[verifier::external_type_specification]
#[verifier::external_body]
pub struct ExGlobSetBuilder(globset::GlobSetBuilder);

#[verifier::external_type_specification]
#[verifier::external_body]
pub struct ExGlobError(globset::Error);

/// The patterns added to a builder, in order.
pub uninterp spec fn builder_patterns(b: globset::GlobSetBuilder) -> Seq<Seq<char>>;

/// The paths a glob set matches (what `GlobSet::is_match` answers true for).
pub uninterp spec fn globset_matches(s: globset::GlobSet) -> Set<Seq<char>>;

/// Whether `globset::Glob::new` accepts the pattern.
pub uninterp spec fn glob_pattern_is_valid(pattern: Seq<char>) -> bool;

/// Whether `GlobSetBuilder::build` succeeds for a builder holding these patterns.
pub uninterp spec fn globset_builds(patterns: Seq<Seq<char>>) -> bool;

/// The paths matched by the set that `GlobSetBuilder::build` makes from these
/// patterns.
pub uninterp spec fn patterns_match(patterns: Seq<Seq<char>>) -> Set<Seq<char>>;

/// `GlobSetBuilder::new`: a builder that holds no pattern.
#[verifier::external_body]
fn new_builder() -> (b: globset::GlobSetBuilder)
    ensures
        builder_patterns(b) == Seq::<Seq<char>>::empty(),
{
    globset::GlobSetBuilder::new()
}

/// `Glob::new(pattern)` followed, when it succeeds, by `GlobSetBuilder::add`.
/// Claims: the parse succeeds exactly for the valid patterns (a property of the
/// pattern text alone), a successful parse appends the pattern to the builder,
/// and a failed one leaves the builder as it was.
#[verifier::external_body]
fn add_pattern(b: &mut globset::GlobSetBuilder, pattern: &str) -> (r: Result<(), globset::Error>)
    ensures
        r is Ok <==> glob_pattern_is_valid(pattern@),
        r is Ok ==> builder_patterns(*final(b)) == builder_patterns(*old(b)).push(pattern@),
        r is Err ==> builder_patterns(*final(b)) == builder_patterns(*old(b)),
{
    match globset::Glob::new(pattern) {
        Ok(glob) => {
            b.add(glob);
            Ok(())
        }
        Err(err) => Err(err),
    }
}

/// `GlobSetBuilder::build`. Claims: whether it succeeds, and what the set it
/// builds matches, depend on the added patterns alone.
#[verifier::external_body]
fn build_set(b: &globset::GlobSetBuilder) -> (r: Result<globset::GlobSet, globset::Error>)
    ensures
        r is Ok <==> globset_builds(builder_patterns(*b)),
        r matches Ok(s) ==> globset_matches(s) == patterns_match(builder_patterns(*b)),
{
    b.build()
}

/// `GlobSet::is_match` on a path given as text. Claims: the answer depends only
/// on the set and the path. (On Windows, `globset` also reads `\` as a
/// separator; the library hands it `/`-separated paths.)
#[verifier::external_body]
pub(crate) fn set_is_match(s: &globset::GlobSet, path: &str) -> (r: bool)
    ensures
        r == globset_matches(*s).contains(path@),
{
    s.is_match(path)
}

/// The `Display` text of a `globset::Error`; nothing is claimed of it.
#[verifier::external_body]
fn glob_error_message(e: &globset::Error) -> String {
    e.to_string()
}

/// All patterns accepted by `Glob::new`.
pub open spec fn all_patterns_valid(patterns: Seq<Seq<char>>) -> bool {
    forall|i: int| 0 <= i < patterns.len() ==> glob_pattern_is_valid(#[trigger] patterns[i])
}

/// Compiles the patterns into one glob set. It fails, with a glob error,
/// exactly when a pattern does not parse or the set cannot be built.
pub fn build_globset(patterns: &Vec<String>) -> (r: Result<globset::GlobSet, CodeGrabberError>)
    ensures
        r is Ok <==> all_patterns_valid(string_views(patterns@)) && globset_builds(
            string_views(patterns@),
        ),
        r matches Ok(s) ==> globset_matches(s) == patterns_match(string_views(patterns@)),
        r matches Err(e) ==> e is Glob,
{
    let mut builder = new_builder();
    let mut i: usize = 0;
    while i < patterns.len()
        invariant
            i <= patterns.len(),
            builder_patterns(builder) == string_views(patterns@).take(i as int),
            all_patterns_valid(string_views(patterns@).take(i as int)),
        decreases patterns.len() - i,
    {
        match add_pattern(&mut builder, patterns[i].as_str()) {
            Ok(()) => {},
            Err(err) => {
                assert(string_views(patterns@)[i as int] == patterns@[i as int]@);
                assert(!all_patterns_valid(string_views(patterns@)));
                return Err(CodeGrabberError::Glob(glob_error_message(&err)));
            },
        }
        assert(string_views(patterns@).take(i + 1) =~= string_views(patterns@).take(i as int).push(
            patterns@[i as int]@,
        ));
        i += 1;
    }
    assert(string_views(patterns@).take(patterns.len() as int) =~= string_views(patterns@));
    match build_set(&builder) {
        Ok(set) => Ok(set),
        Err(err) => Err(CodeGrabberError::Glob(glob_error_message(&err))),
    }
}

} // verus!
