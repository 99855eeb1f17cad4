//! Regular-expression search, done by the `regex` crate.
//!
//! Matching itself is not verified. What a search finds is given a name,
//! [`leftmost_match`], and everything the library does with a match is stated
//! in terms of that name.

use regex::Regex;
use vstd::prelude::*;

verus! {

#[verifier::external_type_specification]
#[verifier::external_body]
pub struct ExRegex(Regex);

/// The text of the leftmost-first match that the regular expression `pattern`
/// finds in `haystack`: `None` where nothing matches, or where `pattern` is
/// not an expression that the `regex` crate accepts.
pub uninterp spec fn leftmost_match(pattern: Seq<char>, haystack: Seq<char>) -> Option<Seq<char>>;

/// A regular expression, compiled once, together with the text it was
/// compiled from.
///
/// The only way to make one is [`Pattern::compile`], so the engine always
/// belongs to the source text beside it. The engine is absent when the
/// source is not a valid expression; such a pattern matches nothing.
pub(crate) struct Pattern {
    source: String,
    engine: Option<Regex>,
}

impl Pattern {
    /// The expression this pattern was compiled from.
    pub(crate) closed spec fn source(&self) -> Seq<char> {
        self.source@
    }

    /// Compiles `source` with `Regex::new`, keeping the source text.
    ///
    /// Trusted: the pattern remembers the text it came from.
    #[verifier::external_body]
    pub(crate) fn compile(source: &str) -> (p: Pattern)
        ensures
            p.source() == source@,
    {
        Pattern { source: source.to_owned(), engine: Regex::new(source).ok() }
    }

    /// Searches `haystack` with `Regex::find` and hands back the matched text.
    ///
    /// Trusted: the result is what [`leftmost_match`] names for this pattern's
    /// source and `haystack`.
    #[verifier::external_body]
    pub(crate) fn find<'h>(&self, haystack: &'h str) -> (m: Option<&'h str>)
        ensures
            match m {
                Some(text) => leftmost_match(self.source(), haystack@) == Some(text@),
                None => leftmost_match(self.source(), haystack@) is None,
            },
    {
        match &self.engine {
            Some(engine) => engine.find(haystack).map(|found| found.as_str()),
            None => None,
        }
    }
}

} // verus!
