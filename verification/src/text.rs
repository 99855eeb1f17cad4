//! Character-level text utilities.
//!
//! Text is modelled as `Seq<char>`, the view of `str`. All positions and
//! lengths in this module count characters, not bytes.

use vstd::prelude::*;
use vstd::slice::slice_subrange;

verus! {

/// Whether `c` has the Unicode `White_Space` property, as
/// `char::is_whitespace` reports it.
pub uninterp spec fn is_whitespace(c: char) -> bool;

/// `char::is_whitespace`. Nothing is claimed about which characters count as
/// whitespace; the answer is only given the name [`is_whitespace`].
pub assume_specification[ char::is_whitespace ](c: char) -> (r: bool)
    ensures
        r == is_whitespace(c),
;

/// `String::push` appends one character to the end of the string.
pub assume_specification[ String::push ](s: &mut String, ch: char)
    ensures
        final(s)@ == old(s)@.push(ch),
;

/// The ASCII lower-case form of `c`: `A..=Z` map to `a..=z`, every other
/// character is unchanged.
pub open spec fn lower_char(c: char) -> char {
    if 'A' <= c && c <= 'Z' {
        ((c as u8) + 32) as char
    } else {
        c
    }
}

/// `s` with every character replaced by its ASCII lower-case form.
pub open spec fn lowercase(s: Seq<char>) -> Seq<char> {
    Seq::new(s.len(), |i: int| lower_char(s[i]))
}

/// `s` itself, or its ASCII lower-case form when `fold` is set.
pub open spec fn folded(s: Seq<char>, fold: bool) -> Seq<char> {
    if fold {
        lowercase(s)
    } else {
        s
    }
}

/// Whether `needle` occurs in `hay` starting at position `i`.
pub open spec fn occurs_at(hay: Seq<char>, needle: Seq<char>, i: int) -> bool {
    &&& 0 <= i
    &&& i + needle.len() <= hay.len()
    &&& hay.subrange(i, i + needle.len()) == needle
}

/// Whether `needle` occurs somewhere in `hay` as a contiguous run.
pub open spec fn contains(hay: Seq<char>, needle: Seq<char>) -> bool {
    exists|i: int| occurs_at(hay, needle, i)
}

/// The position of the first occurrence of `c` in `s`, if there is one.
pub open spec fn position_of(s: Seq<char>, c: char) -> Option<int>
    decreases s.len(),
{
    if s.len() == 0 {
        None
    } else if s[0] == c {
        Some(0)
    } else {
        match position_of(s.skip(1), c) {
            Some(i) => Some(i + 1),
            None => None,
        }
    }
}

/// `s` without its leading whitespace.
pub open spec fn trim_start(s: Seq<char>) -> Seq<char>
    decreases s.len(),
{
    if s.len() > 0 && is_whitespace(s[0]) {
        trim_start(s.skip(1))
    } else {
        s
    }
}

/// `s` without its trailing whitespace.
pub open spec fn trim_end(s: Seq<char>) -> Seq<char>
    decreases s.len(),
{
    if s.len() > 0 && is_whitespace(s.last()) {
        trim_end(s.drop_last())
    } else {
        s
    }
}

/// `s` without leading and trailing whitespace.
pub open spec fn trim(s: Seq<char>) -> Seq<char> {
    trim_end(trim_start(s))
}

/// `s` without its first `front` and last `back` characters; empty when `s`
/// is too short to lose that many.
pub open spec fn strip_ends(s: Seq<char>, front: nat, back: nat) -> Seq<char> {
    if front + back <= s.len() {
        s.subrange(front as int, s.len() - back)
    } else {
        Seq::empty()
    }
}

/// `line` without one trailing carriage return, if it has one.
pub open spec fn strip_carriage_return(line: Seq<char>) -> Seq<char> {
    if line.len() > 0 && line.last() == '\r' {
        line.drop_last()
    } else {
        line
    }
}

/// The lines of `text`.
///
/// A line ends at a line feed, or at the end of the text. The line feed is
/// not part of the line, and neither is a carriage return directly before it.
/// A final line feed does not start another, empty line; the empty text has no
/// lines at all.
///
/// The bound on `i` below always holds (see [`lemma_position_of`]); it is
/// written out so that the recursion is seen to end.
pub open spec fn lines(text: Seq<char>) -> Seq<Seq<char>>
    decreases text.len(),
{
    if text.len() == 0 {
        Seq::empty()
    } else {
        match position_of(text, '\n') {
            None => seq![text],
            Some(i) => if 0 <= i < text.len() {
                seq![strip_carriage_return(text.take(i))] + lines(text.skip(i + 1))
            } else {
                seq![text]
            },
        }
    }
}

/// The pieces of `text` that the character ranges `spans` cut out, in order.
pub open spec fn pieces(text: Seq<char>, spans: Seq<(usize, usize)>) -> Seq<Seq<char>> {
    Seq::new(spans.len(), |k: int| text.subrange(spans[k].0 as int, spans[k].1 as int))
}

/// Whether every range of `spans` lies inside a text of `len` characters.
pub open spec fn spans_within(spans: Seq<(usize, usize)>, len: nat) -> bool {
    forall|k: int| 0 <= k < spans.len() ==> (#[trigger] spans[k]).0 <= spans[k].1 <= len
}

/// What `position_of` finds is the first occurrence, and it finds one
/// whenever there is any.
pub proof fn lemma_position_of(s: Seq<char>, c: char)
    ensures
        match position_of(s, c) {
            Some(i) => {
                &&& 0 <= i < s.len()
                &&& s[i] == c
                &&& forall|j: int| 0 <= j < i ==> s[j] != c
            },
            None => forall|j: int| 0 <= j < s.len() ==> s[j] != c,
        },
    decreases s.len(),
{
    if s.len() > 0 && s[0] != c {
        lemma_position_of(s.skip(1), c);
        match position_of(s.skip(1), c) {
            Some(i) => {
                assert forall|j: int| 0 <= j < i + 1 implies s[j] != c by {
                    if j > 0 {
                        assert(s.skip(1)[j - 1] == s[j]);
                    }
                }
            },
            None => {
                assert forall|j: int| 0 <= j < s.len() implies s[j] != c by {
                    if j > 0 {
                        assert(s.skip(1)[j - 1] == s[j]);
                    }
                }
            },
        }
    }
}

/// Copies the characters of `s` into a vector.
pub fn to_chars(s: &str) -> (out: Vec<char>)
    ensures
        out@ == s@,
{
    broadcast use vstd::string::group_string_axioms;

    let mut out: Vec<char> = Vec::new();
    let it = s.chars();
    for c in iter: it
        invariant
            iter.seq() == s@,
            out@ == s@.take(iter.index()),
    {
        out.push(c);
    }
    out
}

/// Builds a string from the characters of `chars`.
pub fn text_of(chars: &[char]) -> (out: String)
    ensures
        out@ == chars@,
{
    let mut out = String::new();
    let n = chars.len();
    let mut i: usize = 0;
    while i < n
        invariant
            i <= n,
            n == chars@.len(),
            out@ == chars@.take(i as int),
        decreases n - i,
    {
        out.push(chars[i]);
        proof {
            assert(chars@.take(i as int).push(chars@[i as int]) =~= chars@.take(i + 1));
        }
        i += 1;
    }
    proof {
        assert(chars@.take(n as int) =~= chars@);
    }
    out
}

/// The ASCII lower-case form of `c`.
pub fn ascii_lower(c: char) -> (r: char)
    ensures
        r == lower_char(c),
{
    if 'A' <= c && c <= 'Z' {
        ((c as u8) + 32) as char
    } else {
        c
    }
}

/// Whether `needle` occurs in `hay` at position `i`, comparing `hay` in ASCII
/// lower case when `fold` is set.
fn matches_at(hay: &[char], needle: &[char], i: usize, fold: bool) -> (r: bool)
    requires
        i + needle@.len() <= hay@.len(),
    ensures
        r == occurs_at(folded(hay@, fold), needle@, i as int),
{
    let ghost h = folded(hay@, fold);
    let n = needle.len();
    let m = hay.len();
    let mut j: usize = 0;
    while j < n
        invariant
            j <= n,
            n == needle@.len(),
            m == hay@.len(),
            i + n <= m,
            h == folded(hay@, fold),
            h.len() == hay@.len(),
            forall|k: int| 0 <= k < j ==> h[i + k] == needle@[k],
        decreases n - j,
    {
        let c = if fold {
            ascii_lower(hay[i + j])
        } else {
            hay[i + j]
        };
        if c != needle[j] {
            proof {
                assert(h.subrange(i as int, i + n)[j as int] == h[i + j]);
            }
            return false;
        }
        j += 1;
    }
    proof {
        assert(h.subrange(i as int, i + n) =~= needle@);
    }
    true
}

/// Whether `needle` occurs in `hay`, comparing `hay` in ASCII lower case when
/// `fold` is set.
fn search(hay: &[char], needle: &[char], fold: bool) -> (r: bool)
    ensures
        r == contains(folded(hay@, fold), needle@),
{
    let ghost h = folded(hay@, fold);
    let n = needle.len();
    let m = hay.len();
    if n > m {
        return false;
    }
    let last = m - n;
    let mut i: usize = 0;
    loop
        invariant
            i <= last,
            last == m - n,
            m == hay@.len(),
            n == needle@.len(),
            h == folded(hay@, fold),
            h.len() == hay@.len(),
            forall|k: int| 0 <= k < i ==> !occurs_at(h, needle@, k),
        decreases last - i,
    {
        if matches_at(hay, needle, i, fold) {
            return true;
        }
        if i == last {
            return false;
        }
        i += 1;
    }
}

/// Whether `needle` occurs somewhere in `hay`.
pub fn contains_text(hay: &[char], needle: &[char]) -> (r: bool)
    ensures
        r == contains(hay@, needle@),
{
    search(hay, needle, false)
}

/// Whether `needle` occurs somewhere in the ASCII lower-case form of `hay`.
pub fn contains_lowercased(hay: &[char], needle: &[char]) -> (r: bool)
    ensures
        r == contains(lowercase(hay@), needle@),
{
    search(hay, needle, true)
}

/// Whether `a` and `b` hold the same characters.
pub fn same_text(a: &[char], b: &[char]) -> (r: bool)
    ensures
        r == (a@ == b@),
{
    if a.len() != b.len() {
        return false;
    }
    let r = matches_at(a, b, 0, false);
    proof {
        assert(a@.subrange(0, a@.len() as int) =~= a@);
    }
    r
}

/// The position of the first occurrence of `c` in `s`.
pub fn find_char(s: &[char], c: char) -> (r: Option<usize>)
    ensures
        match r {
            Some(i) => position_of(s@, c) == Some(i as int),
            None => position_of(s@, c) is None,
        },
{
    let n = s.len();
    let mut i: usize = 0;
    while i < n
        invariant
            i <= n,
            n == s@.len(),
            forall|j: int| 0 <= j < i ==> s@[j] != c,
        decreases n - i,
    {
        if s[i] == c {
            proof {
                lemma_position_of(s@, c);
            }
            return Some(i);
        }
        i += 1;
    }
    proof {
        lemma_position_of(s@, c);
    }
    None
}

/// The range of `s` that is left when leading and trailing whitespace goes.
pub fn trim_bounds(s: &[char]) -> (r: (usize, usize))
    ensures
        r.0 <= r.1 <= s@.len(),
        s@.subrange(r.0 as int, r.1 as int) == trim(s@),
{
    let n = s.len();
    let mut lo: usize = 0;
    proof {
        assert(s@.skip(0) =~= s@);
    }
    while lo < n && s[lo].is_whitespace()
        invariant
            lo <= n,
            n == s@.len(),
            trim_start(s@) == trim_start(s@.skip(lo as int)),
        decreases n - lo,
    {
        proof {
            assert(s@.skip(lo as int).skip(1) =~= s@.skip(lo + 1));
        }
        lo += 1;
    }
    proof {
        assert(trim_start(s@) == s@.skip(lo as int));
        assert(s@.skip(lo as int) =~= s@.subrange(lo as int, n as int));
    }
    let mut hi: usize = n;
    while hi > lo && s[hi - 1].is_whitespace()
        invariant
            lo <= hi <= n,
            n == s@.len(),
            trim(s@) == trim_end(s@.subrange(lo as int, hi as int)),
            lo < n ==> !is_whitespace(s@[lo as int]),
        decreases hi - lo,
    {
        proof {
            assert(s@.subrange(lo as int, hi as int).drop_last() =~= s@.subrange(
                lo as int,
                hi - 1,
            ));
        }
        hi -= 1;
    }
    (lo, hi)
}

/// The character ranges of the lines of `text`, in order.
pub fn line_spans(text: &[char]) -> (spans: Vec<(usize, usize)>)
    ensures
        spans_within(spans@, text@.len()),
        pieces(text@, spans@) == lines(text@),
{
    let n = text.len();
    let mut spans: Vec<(usize, usize)> = Vec::new();
    let mut start: usize = 0;
    proof {
        assert(text@.skip(0) =~= text@);
        assert(pieces(text@, spans@) =~= Seq::<Seq<char>>::empty());
    }
    while start < n
        invariant
            start <= n,
            n == text@.len(),
            spans_within(spans@, text@.len()),
            lines(text@) == pieces(text@, spans@) + lines(text@.skip(start as int)),
        decreases n - start,
    {
        let rest = slice_subrange(text, start, n);
        let ghost tail = text@.skip(start as int);
        let ghost before = pieces(text@, spans@);
        proof {
            assert(rest@ =~= tail);
            lemma_position_of(tail, '\n');
        }
        match find_char(rest, '\n') {
            None => {
                spans.push((start, n));
                proof {
                    assert(text@.subrange(start as int, n as int) =~= tail);
                    assert(text@.skip(n as int) =~= Seq::<char>::empty());
                    assert(pieces(text@, spans@) =~= before + seq![tail]);
                    assert(lines(tail) =~= seq![tail] + lines(text@.skip(n as int)));
                }
                start = n;
            },
            Some(i) => {
                let stop = start + i;
                let end = if i > 0 && text[stop - 1] == '\r' {
                    stop - 1
                } else {
                    stop
                };
                spans.push((start, end));
                proof {
                    let raw = tail.take(i as int);
                    assert(raw =~= text@.subrange(start as int, stop as int));
                    assert(strip_carriage_return(raw) =~= text@.subrange(
                        start as int,
                        end as int,
                    ));
                    assert(tail.skip(i + 1) =~= text@.skip(stop + 1));
                    assert(pieces(text@, spans@) =~= before + seq![strip_carriage_return(raw)]);
                    assert(before + lines(tail) =~= pieces(text@, spans@) + lines(
                        text@.skip(stop + 1),
                    ));
                }
                start = stop + 1;
            },
        }
    }
    proof {
        assert(text@.skip(n as int) =~= Seq::<char>::empty());
        assert(pieces(text@, spans@) + Seq::<Seq<char>>::empty() =~= pieces(text@, spans@));
    }
    spans
}

/// `s` without its first `front` and last `back` characters, or the empty
/// text when `s` is too short.
pub fn without_ends(s: &[char], front: usize, back: usize) -> (r: &[char])
    ensures
        r@ == strip_ends(s@, front as nat, back as nat),
{
    let n = s.len();
    if front <= n && back <= n - front {
        slice_subrange(s, front, n - back)
    } else {
        slice_subrange(s, 0, 0)
    }
}

/// `s` without leading and trailing whitespace.
pub fn trimmed(s: &[char]) -> (r: &[char])
    ensures
        r@ == trim(s@),
{
    let (lo, hi) = trim_bounds(s);
    slice_subrange(s, lo, hi)
}

} // verus!
