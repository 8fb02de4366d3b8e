//! The trusted boundary around the `matchit` path trie.
//!
//! The trie is the one outside capability this crate builds on: it stores
//! route patterns (literal segments, `:name` parameters, `*tail` catch-alls)
//! and resolves a concrete path to the registered value with raw parameter
//! captures, or to one of two trailing-slash near-misses, or to a miss.
//! Which pattern a path matches is the trie's own judgement and is not
//! re-specified here: it is named, as a function of the registered pattern
//! map and the path, and everything above is verified against that name.

use vstd::prelude::*;

use crate::request::params::kv_views;

verus! {

#[verifier::external_type_specification]
#[verifier::external_body]
#[verifier::reject_recursive_types(T)]
pub struct ExMatchitRouter<T>(matchit::Router<T>);

/// The most named parameters one pattern may hold: the trie normalises
/// parameter names to single letters and refuses to go past the alphabet.
pub const MAX_PATTERN_PARAMS: usize = 25;

/// How many of the first `n` characters are the `:` that opens a named
/// parameter segment.
pub open spec fn colon_count(s: Seq<char>, n: int) -> int
    decreases n,
{
    if n <= 0 {
        0
    } else {
        colon_count(s, n - 1) + if s[n - 1] == ':' {
            1int
        } else {
            0int
        }
    }
}

/// An upper bound on the named parameters of a pattern: each one opens
/// with its own `:` character.
pub open spec fn named_params(s: Seq<char>) -> int {
    colon_count(s, s.len() as int)
}

/// Counts the `:` characters of a pattern.
#[verifier::loop_isolation(false)]
pub fn count_named_params(pattern: &str) -> (r: usize)
    ensures
        r == named_params(pattern@),
{
    let n = pattern.unicode_len();
    let mut count: usize = 0;
    for i in 0..n
        invariant
            count <= i,
            count == colon_count(pattern@, i as int),
    {
        if pattern.get_char(i) == ':' {
            count = count + 1;
        }
    }
    count
}

/// The pattern-to-value map a trie holds.
pub uninterp spec fn registered_routes(t: matchit::Router<usize>) -> Map<Seq<char>, usize>;

/// Whether the trie accepts one more pattern over an already registered
/// map: refusals (a conflicting pattern, a malformed parameter) depend on
/// the registered patterns and the new pattern alone.
pub uninterp spec fn insert_accepted(m: Map<Seq<char>, usize>, pattern: Seq<char>) -> bool;

/// What resolving a path against a registered pattern map yields. The
/// matching rules themselves are the trie's.
pub uninterp spec fn route_match(m: Map<Seq<char>, usize>, path: Seq<char>) -> PatternMatch;

/// The four outcomes of a path lookup, in specification form, in the
/// priority the trie evaluates them: a match with raw captures beats a
/// trailing-slash near-miss beats a miss.
pub ghost enum PatternMatch {
    Found { pattern: Seq<char>, value: usize, raw_params: Seq<(Seq<char>, Seq<char>)> },
    ExtraTrailingSlash,
    MissingTrailingSlash,
    NotFound,
}

/// The four outcomes of a path lookup, as executable data.
pub enum TrieLookup {
    Found { value: usize, raw_params: Vec<(String, String)> },
    ExtraTrailingSlash,
    MissingTrailingSlash,
    NotFound,
}

/// How an executable lookup outcome realises a specification-level match.
pub open spec fn lookup_abstracts(r: TrieLookup, m: PatternMatch) -> bool {
    match m {
        PatternMatch::Found { pattern: _, value, raw_params } => r matches TrieLookup::Found {
            value: v,
            raw_params: p,
        } && v == value && kv_views(p@) == raw_params,
        PatternMatch::ExtraTrailingSlash => r is ExtraTrailingSlash,
        PatternMatch::MissingTrailingSlash => r is MissingTrailingSlash,
        PatternMatch::NotFound => r is NotFound,
    }
}

/// Whether a pattern map holds nothing.
pub open spec fn no_routes(m: Map<Seq<char>, usize>) -> bool {
    m =~= Map::empty()
}

/// Relies on `matchit::Router::new`: a trie with no registered patterns.
#[verifier::external_body]
pub(crate) fn trie_new() -> (trie: matchit::Router<usize>)
    ensures
        no_routes(registered_routes(trie)),
{
    matchit::Router::new()
}

/// Relies on `matchit::Router::insert`: on success the pattern is
/// registered with the value; on refusal the error's display text is handed
/// back, and the trie's pattern map is then unconstrained — a trie that
/// refused an insertion is discarded, never registered into further.
/// Whether a pattern is accepted depends only on what is already
/// registered. The trie normalises each named parameter to one letter of
/// the alphabet and aborts on a pattern with more named parameters than
/// letters; such patterns are excluded here and refused by the builder
/// before any insertion.
#[verifier::external_body]
pub(crate) fn trie_insert(t: &mut matchit::Router<usize>, pattern: &str, value: usize) -> (r:
    Result<(), String>)
    requires
        named_params(pattern@) <= MAX_PATTERN_PARAMS as int,
    ensures
        r is Ok <==> insert_accepted(registered_routes(*old(t)), pattern@),
        r is Ok ==> registered_routes(*final(t)) == registered_routes(*old(t)).insert(
            pattern@,
            value,
        ),
{
    match t.insert(pattern, value) {
        Ok(()) => Ok(()),
        Err(e) => Err(e.to_string()),
    }
}

/// Relies on `matchit::Router::at`: resolves a concrete path with exactly
/// four outcomes — the value registered under the best-matching pattern,
/// with its raw captures, one of the two trailing-slash near-misses, or a
/// miss. A match names a registered pattern and hands out exactly the
/// value registered under it.
#[verifier::external_body]
pub(crate) fn trie_at(t: &matchit::Router<usize>, path: &str) -> (r: TrieLookup)
    ensures
        lookup_abstracts(r, route_match(registered_routes(*t), path@)),
        r matches TrieLookup::Found { value, .. } ==> (route_match(
            registered_routes(*t),
            path@,
        ) matches PatternMatch::Found { pattern, value: v, .. } && v == value
            && registered_routes(*t).dom().contains(pattern) && registered_routes(*t)[pattern]
            == value),
{
    match t.at(path) {
        Ok(found) => TrieLookup::Found {
            value: *found.value,
            raw_params: found.params.iter().map(
                |(k, v): (&str, &str)| (k.to_string(), v.to_string()),
            ).collect(),
        },
        Err(matchit::MatchError::ExtraTrailingSlash) => TrieLookup::ExtraTrailingSlash,
        Err(matchit::MatchError::MissingTrailingSlash) => TrieLookup::MissingTrailingSlash,
        Err(matchit::MatchError::NotFound) => TrieLookup::NotFound,
    }
}

} // verus!
