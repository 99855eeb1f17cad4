//! Version ordering, as the `version_compare` crate defines it.
//!
//! The comparison itself is not verified; its answer is given a name,
//! [`version_precedes`], and reconciliation is stated in terms of that name.
//!
//! For orientation, this is how `version_compare` orders two strings. Each is
//! split at every character that is not alphanumeric, and empty parts are
//! dropped. The parts are compared pairwise from the left: two numbers as
//! numbers, two words as lower-case text, and a number against a word as
//! equal. When one string runs out of parts, a remaining `0` in the other
//! changes nothing, any other remaining number makes the longer string the
//! greater, and a remaining word makes it the smaller. So missing trailing
//! segments count as zero: `1.2` and `1.2.0` are equal, and neither is an
//! update of the other. A string with words but no number does not parse,
//! and orders before every string that does.

use version_compare::Version;
use vstd::prelude::*;

verus! {

/// Whether the version string `a` orders strictly before the version string
/// `b` under `version_compare`: both are parsed with `Version::from` and the
/// results compared with `<`. A string that does not parse orders before
/// every string that does.
pub uninterp spec fn version_precedes(a: Seq<char>, b: Seq<char>) -> bool;

/// Parses both strings with `Version::from` and compares the results with
/// `<`.
///
/// Trusted: the answer depends on the two strings alone, and is the one
/// [`version_precedes`] names. Nothing else is claimed about the ordering.
#[verifier::external_body]
pub(crate) fn precedes(a: &str, b: &str) -> (r: bool)
    ensures
        r == version_precedes(a@, b@),
{
    Version::from(a) < Version::from(b)
}

/// Whether the ordering is a strict partial order on `versions`: no version
/// of the set precedes itself, and precedence is transitive among them.
///
/// The ordering comes from outside and is not a strict order on all strings:
/// where a number meets a word, the two count as equal, whatever they are.
pub open spec fn orders_strictly(versions: Set<Seq<char>>) -> bool {
    &&& forall|a: Seq<char>| versions.contains(a) ==> !#[trigger] version_precedes(a, a)
    &&& forall|a: Seq<char>, b: Seq<char>, c: Seq<char>|
        #![trigger version_precedes(a, b), version_precedes(b, c)]
        versions.contains(a) && versions.contains(b) && versions.contains(c) && version_precedes(
            a,
            b,
        ) && version_precedes(b, c) ==> version_precedes(a, c)
}

} // verus!
