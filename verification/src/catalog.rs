//! Extraction of catalog entries from the text of the catalog page.
//!
//! The page is read line by line. Which lines are entries depends on the
//! [`MatchStrategy`]; the version of an entry comes from its own line, and its
//! link from the first line at or after it that carries one. That forward
//! search is not bounded by the entry's block: it runs to the end of the
//! page, so an entry without a link of its own takes the next link below it.

use crate::model::{
    catalog_view, installed_view, CatalogEntry, InstalledApplication, LocalFoundApp,
    MatchStrategy, OnlineFoundApp,
};
use crate::pattern::{leftmost_match, Pattern};
use crate::text::{
    contains, contains_lowercased, contains_text, line_spans, lines, lowercase, occurs_at, pieces,
    spans_within, strip_ends, text_of, to_chars, trim, trimmed, without_ends,
};
use vstd::prelude::*;
use vstd::slice::slice_subrange;

verus! {

/// The product-family marker, in lower case. A line is an entry line when its
/// ASCII lower-case form contains it.
pub const FAMILY_MARKER: &'static str = "adobe";

/// Bold markup around a product name.
pub const NAME_PATTERN: &'static str = r#"<b>Adobe .*<wbr>"#;

/// A version in parentheses, `(v...)`.
pub const BRACKETED_VERSION_PATTERN: &'static str = r"\(v.*?\)";

/// A bare version, `v...` followed by a space.
pub const BARE_VERSION_PATTERN: &'static str = r"v[.\d]* ";

/// What a line must contain to be searched for a link.
pub const LINK_MARKER: &'static str = "href=\"magnet:?";

/// A link attribute with its target.
pub const LINK_PATTERN: &'static str = r#"href="magnet:\?xt.*?""#;

/// Markup that can trail a bracketed version.
pub const MARKUP_ARTIFACT: &'static str = "<wbr>";

/// The name inside a match of [`NAME_PATTERN`]: the match without its opening
/// tag (3 characters) and its trailing tag (5 characters).
pub open spec fn name_in(matched: Seq<char>) -> Seq<char> {
    strip_ends(matched, 3, 5)
}

/// The version inside a match of [`BRACKETED_VERSION_PATTERN`]: the match
/// without `(v` and `)`, and, where what is left contains the markup
/// artifact, without as many final characters as the artifact has.
pub open spec fn bracketed_version_in(matched: Seq<char>) -> Seq<char> {
    let inner = strip_ends(matched, 2, 1);
    if contains(inner, MARKUP_ARTIFACT@) {
        inner.take(inner.len() - MARKUP_ARTIFACT@.len())
    } else {
        inner
    }
}

/// The version inside a match of [`BARE_VERSION_PATTERN`]: the match without
/// its first and last character, trimmed.
pub open spec fn bare_version_in(matched: Seq<char>) -> Seq<char> {
    trim(strip_ends(matched, 1, 1))
}

/// The target inside a match of [`LINK_PATTERN`]: the match without `href="`
/// and the closing quote.
pub open spec fn link_in(matched: Seq<char>) -> Seq<char> {
    strip_ends(matched, 6, 1)
}

/// Whether `line` mentions the product family, in any ASCII letter case.
pub open spec fn is_entry_line(line: Seq<char>) -> bool {
    contains(lowercase(line), FAMILY_MARKER@)
}

/// The entry name that the markup of `line` gives; empty without markup.
pub open spec fn name_of_line(line: Seq<char>) -> Seq<char> {
    match leftmost_match(NAME_PATTERN@, line) {
        Some(matched) => name_in(matched),
        None => Seq::empty(),
    }
}

/// The version that `line` gives: the bracketed form if the line has one,
/// else the bare form, else nothing.
pub open spec fn version_of_line(line: Seq<char>) -> Seq<char> {
    match leftmost_match(BRACKETED_VERSION_PATTERN@, line) {
        Some(matched) => bracketed_version_in(matched),
        None => match leftmost_match(BARE_VERSION_PATTERN@, line) {
            Some(matched) => bare_version_in(matched),
            None => Seq::empty(),
        },
    }
}

/// The link that `line` carries, if it has the link marker and the link
/// pattern matches.
pub open spec fn link_of_line(line: Seq<char>) -> Option<Seq<char>> {
    if contains(line, LINK_MARKER@) {
        match leftmost_match(LINK_PATTERN@, line) {
            Some(matched) => Some(link_in(matched)),
            None => None,
        }
    } else {
        None
    }
}

/// The first link on line `from` or any later line; empty if there is none.
pub open spec fn first_link(page: Seq<Seq<char>>, from: int) -> Seq<char>
    decreases page.len() - from,
{
    if from < 0 || from >= page.len() {
        Seq::empty()
    } else {
        match link_of_line(page[from]) {
            Some(link) => link,
            None => first_link(page, from + 1),
        }
    }
}

/// The entry that line `k` gives under the name `name`.
pub open spec fn entry_at(page: Seq<Seq<char>>, k: int, name: Seq<char>) -> CatalogEntry {
    CatalogEntry { name, version: version_of_line(page[k]), magnet: first_link(page, k) }
}

/// The entries that line `k` gives for the names `names[from..]`: one for each
/// name that the line contains, in the order of the names.
pub open spec fn named_entries(
    page: Seq<Seq<char>>,
    k: int,
    names: Seq<Seq<char>>,
    from: int,
) -> Seq<CatalogEntry>
    decreases names.len() - from,
{
    if from < 0 || from >= names.len() {
        Seq::empty()
    } else if contains(page[k], names[from]) {
        seq![entry_at(page, k, names[from])] + named_entries(page, k, names, from + 1)
    } else {
        named_entries(page, k, names, from + 1)
    }
}

/// The entries that line `k` gives.
pub open spec fn line_entries(
    page: Seq<Seq<char>>,
    k: int,
    strategy: MatchStrategy,
    names: Seq<Seq<char>>,
) -> Seq<CatalogEntry> {
    match strategy {
        MatchStrategy::FamilyMarker => if is_entry_line(page[k]) {
            seq![entry_at(page, k, name_of_line(page[k]))]
        } else {
            Seq::empty()
        },
        MatchStrategy::InstalledNames => named_entries(page, k, names, 0),
    }
}

/// The entries that the lines `page[from..]` give, in page order.
pub open spec fn entries_from(
    page: Seq<Seq<char>>,
    from: int,
    strategy: MatchStrategy,
    names: Seq<Seq<char>>,
) -> Seq<CatalogEntry>
    decreases page.len() - from,
{
    if from < 0 || from >= page.len() {
        Seq::empty()
    } else {
        line_entries(page, from, strategy, names) + entries_from(page, from + 1, strategy, names)
    }
}

/// The names of `installed`, in order.
pub open spec fn installed_names(installed: Seq<InstalledApplication>) -> Seq<Seq<char>> {
    Seq::new(installed.len(), |i: int| installed[i].name)
}

/// The catalog that a page text holds.
pub open spec fn catalog_of(
    page_text: Seq<char>,
    strategy: MatchStrategy,
    names: Seq<Seq<char>>,
) -> Seq<CatalogEntry> {
    entries_from(lines(page_text), 0, strategy, names)
}

/// Extraction is repeatable: two extractions from the same page text, under
/// the same strategy and for the same installed names, give the same number
/// of entries, with the same name, version and link at every position.
pub proof fn lemma_extraction_is_repeatable(
    first: Seq<OnlineFoundApp>,
    second: Seq<OnlineFoundApp>,
    page_text: Seq<char>,
    strategy: MatchStrategy,
    names: Seq<Seq<char>>,
)
    requires
        catalog_view(first) == catalog_of(page_text, strategy, names),
        catalog_view(second) == catalog_of(page_text, strategy, names),
    ensures
        first.len() == second.len(),
        forall|i: int|
            0 <= i < first.len() ==> {
                &&& (#[trigger] first[i]).name@ == second[i].name@
                &&& first[i].version@ == second[i].version@
                &&& first[i].magnet@ == second[i].magnet@
            },
{
    assert(catalog_view(first).len() == first.len());
    assert(catalog_view(second).len() == second.len());
    assert forall|i: int| 0 <= i < first.len() implies {
        &&& (#[trigger] first[i]).name@ == second[i].name@
        &&& first[i].version@ == second[i].version@
        &&& first[i].magnet@ == second[i].magnet@
    } by {
        assert(catalog_view(first)[i] == first[i]@);
        assert(catalog_view(second)[i] == second[i]@);
    }
}

/// An entry's version comes from its own line and from no other: whatever
/// the other lines of the page hold, the entries of line `k` carry the
/// version of line `k`.
pub proof fn lemma_version_is_the_lines_own(
    page: Seq<Seq<char>>,
    k: int,
    strategy: MatchStrategy,
    names: Seq<Seq<char>>,
)
    requires
        0 <= k < page.len(),
    ensures
        forall|i: int|
            0 <= i < line_entries(page, k, strategy, names).len() ==> (#[trigger] line_entries(
                page,
                k,
                strategy,
                names,
            )[i]).version == version_of_line(page[k]),
{
    match strategy {
        MatchStrategy::FamilyMarker => {},
        MatchStrategy::InstalledNames => {
            lemma_named_entries_version(page, k, names, 0);
        },
    }
}

proof fn lemma_named_entries_version(
    page: Seq<Seq<char>>,
    k: int,
    names: Seq<Seq<char>>,
    from: int,
)
    requires
        0 <= k < page.len(),
        0 <= from <= names.len(),
    ensures
        forall|i: int|
            0 <= i < named_entries(page, k, names, from).len() ==> (#[trigger] named_entries(
                page,
                k,
                names,
                from,
            )[i]).version == version_of_line(page[k]),
    decreases names.len() - from,
{
    if from < names.len() {
        lemma_named_entries_version(page, k, names, from + 1);
        let here = named_entries(page, k, names, from);
        let rest = named_entries(page, k, names, from + 1);
        assert forall|i: int| 0 <= i < here.len() implies (#[trigger] here[i]).version
            == version_of_line(page[k]) by {
            if contains(page[k], names[from]) {
                if i > 0 {
                    assert(here[i] == rest[i - 1]);
                }
            } else {
                assert(here[i] == rest[i]);
            }
        }
    }
}

/// The entry name inside what [`NAME_PATTERN`] matched on a line; empty when
/// it matched nothing.
pub fn catalog_name(found: Option<&str>) -> (name: String)
    ensures
        name@ == match found {
            Some(matched) => name_in(matched@),
            None => Seq::empty(),
        },
{
    match found {
        Some(matched) => {
            let chars = to_chars(matched);
            text_of(without_ends(chars.as_slice(), 3, 5))
        },
        None => String::new(),
    }
}

/// The version inside what [`BRACKETED_VERSION_PATTERN`] matched.
pub fn bracketed_version(matched: &str) -> (version: String)
    ensures
        version@ == bracketed_version_in(matched@),
{
    let chars = to_chars(matched);
    let inner = without_ends(chars.as_slice(), 2, 1);
    let artifact = to_chars(MARKUP_ARTIFACT);
    if contains_text(inner, artifact.as_slice()) {
        proof {
            let i = choose|i: int| occurs_at(inner@, artifact@, i);
            assert(artifact@.len() <= inner@.len());
        }
        text_of(slice_subrange(inner, 0, inner.len() - artifact.len()))
    } else {
        text_of(inner)
    }
}

/// The version inside what [`BARE_VERSION_PATTERN`] matched.
pub fn bare_version(matched: &str) -> (version: String)
    ensures
        version@ == bare_version_in(matched@),
{
    let chars = to_chars(matched);
    text_of(trimmed(without_ends(chars.as_slice(), 1, 1)))
}

/// The link target inside what [`LINK_PATTERN`] matched.
pub fn link_target(matched: &str) -> (link: String)
    ensures
        link@ == link_in(matched@),
{
    let chars = to_chars(matched);
    text_of(without_ends(chars.as_slice(), 6, 1))
}

/// The compiled patterns and markers that extraction works with.
struct Rules {
    name: Pattern,
    bracketed: Pattern,
    bare: Pattern,
    link: Pattern,
    family_marker: Vec<char>,
    link_marker: Vec<char>,
}

impl Rules {
    spec fn wf(&self) -> bool {
        &&& self.name.source() == NAME_PATTERN@
        &&& self.bracketed.source() == BRACKETED_VERSION_PATTERN@
        &&& self.bare.source() == BARE_VERSION_PATTERN@
        &&& self.link.source() == LINK_PATTERN@
        &&& self.family_marker@ == FAMILY_MARKER@
        &&& self.link_marker@ == LINK_MARKER@
    }

    fn new() -> (rules: Rules)
        ensures
            rules.wf(),
    {
        Rules {
            name: Pattern::compile(NAME_PATTERN),
            bracketed: Pattern::compile(BRACKETED_VERSION_PATTERN),
            bare: Pattern::compile(BARE_VERSION_PATTERN),
            link: Pattern::compile(LINK_PATTERN),
            family_marker: to_chars(FAMILY_MARKER),
            link_marker: to_chars(LINK_MARKER),
        }
    }

    /// The version that `line` gives.
    fn version(&self, line: &str) -> (version: String)
        requires
            self.wf(),
        ensures
            version@ == version_of_line(line@),
    {
        match self.bracketed.find(line) {
            Some(matched) => bracketed_version(matched),
            None => match self.bare.find(line) {
                Some(matched) => bare_version(matched),
                None => String::new(),
            },
        }
    }

    /// The first link on line `from` of the page or below it.
    fn link_from(&self, chars: &Vec<char>, spans: &Vec<(usize, usize)>, from: usize) -> (link:
        String)
        requires
            self.wf(),
            spans_within(spans@, chars@.len()),
        ensures
            link@ == first_link(pieces(chars@, spans@), from as int),
    {
        let ghost page = pieces(chars@, spans@);
        let n = spans.len();
        let mut k = from;
        while k < n
            invariant
                self.wf(),
                spans_within(spans@, chars@.len()),
                n == spans@.len(),
                page == pieces(chars@, spans@),
                first_link(page, from as int) == first_link(page, k as int),
            decreases n - k,
        {
            let (a, b) = spans[k];
            let line_chars = slice_subrange(chars.as_slice(), a, b);
            assert(line_chars@ == page[k as int]);
            if contains_text(line_chars, self.link_marker.as_slice()) {
                let line = text_of(line_chars);
                match self.link.find(line.as_str()) {
                    Some(matched) => {
                        return link_target(matched);
                    },
                    None => {},
                }
            }
            k += 1;
        }
        String::new()
    }

    /// The entry that line `k` of the page gives under the name `name`, where
    /// `line` is the text of that line.
    fn entry(
        &self,
        chars: &Vec<char>,
        spans: &Vec<(usize, usize)>,
        k: usize,
        line: &str,
        name: String,
    ) -> (entry: OnlineFoundApp)
        requires
            self.wf(),
            spans_within(spans@, chars@.len()),
            k < spans@.len(),
            line@ == pieces(chars@, spans@)[k as int],
        ensures
            entry@ == entry_at(pieces(chars@, spans@), k as int, name@),
    {
        let version = self.version(line);
        let magnet = self.link_from(chars, spans, k);
        OnlineFoundApp { version, name, magnet }
    }
}

/// The characters of each installed name, in order.
fn name_texts(app_list: &Vec<LocalFoundApp>) -> (names: Vec<Vec<char>>)
    ensures
        names@.len() == app_list@.len(),
        forall|i: int| 0 <= i < names@.len() ==> (#[trigger] names@[i])@ == app_list@[i].name@,
{
    let mut names: Vec<Vec<char>> = Vec::new();
    let n = app_list.len();
    let mut i: usize = 0;
    while i < n
        invariant
            i <= n,
            n == app_list@.len(),
            names@.len() == i,
            forall|j: int| 0 <= j < i ==> (#[trigger] names@[j])@ == app_list@[j].name@,
        decreases n - i,
    {
        names.push(to_chars(app_list[i].name.as_str()));
        i += 1;
    }
    names
}

/// Extracts the catalog entries from the text of the catalog page.
///
/// Under [`MatchStrategy::FamilyMarker`] every line that mentions the product
/// family gives one entry, named from the page markup. Under
/// [`MatchStrategy::InstalledNames`] every line gives one entry for each name
/// in `app_list` that it contains, named after that application. Entries come
/// out in page order; nothing is merged or dropped.
pub fn find_online_programs(
    app_list: &Vec<LocalFoundApp>,
    page_text: &str,
    strategy: MatchStrategy,
) -> (entries: Vec<OnlineFoundApp>)
    ensures
        catalog_view(entries@) == catalog_of(
            page_text@,
            strategy,
            installed_names(installed_view(app_list@)),
        ),
{
    let rules = Rules::new();
    let chars = to_chars(page_text);
    let spans = line_spans(chars.as_slice());
    let names = name_texts(app_list);
    let ghost page = lines(page_text@);
    let ghost wanted = installed_names(installed_view(app_list@));
    let mut entries: Vec<OnlineFoundApp> = Vec::new();
    let n = spans.len();
    let mut k: usize = 0;
    proof {
        assert(catalog_view(entries@) =~= Seq::<CatalogEntry>::empty());
    }
    while k < n
        invariant
            k <= n,
            n == spans@.len(),
            rules.wf(),
            chars@ == page_text@,
            spans_within(spans@, chars@.len()),
            page == pieces(chars@, spans@),
            page.len() == n,
            wanted == installed_names(installed_view(app_list@)),
            names@.len() == app_list@.len(),
            forall|i: int| 0 <= i < names@.len() ==> (#[trigger] names@[i])@ == app_list@[i].name@,
            entries_from(page, 0, strategy, wanted) == catalog_view(entries@) + entries_from(
                page,
                k as int,
                strategy,
                wanted,
            ),
        decreases n - k,
    {
        let ghost before = catalog_view(entries@);
        let (a, b) = spans[k];
        let line_chars = slice_subrange(chars.as_slice(), a, b);
        assert(line_chars@ == page[k as int]);
        match strategy {
            MatchStrategy::FamilyMarker => {
                if contains_lowercased(line_chars, rules.family_marker.as_slice()) {
                    let line = text_of(line_chars);
                    let name = catalog_name(rules.name.find(line.as_str()));
                    let entry = rules.entry(&chars, &spans, k, line.as_str(), name);
                    entries.push(entry);
                    proof {
                        assert(catalog_view(entries@) =~= before + line_entries(
                            page,
                            k as int,
                            strategy,
                            wanted,
                        ));
                    }
                } else {
                    proof {
                        assert(before =~= before + line_entries(page, k as int, strategy, wanted));
                    }
                }
            },
            MatchStrategy::InstalledNames => {
                let m = names.len();
                let mut j: usize = 0;
                proof {
                    assert(before =~= before + Seq::<CatalogEntry>::empty());
                }
                while j < m
                    invariant
                        j <= m,
                        m == names@.len(),
                        k < n,
                        n == spans@.len(),
                        rules.wf(),
                        chars@ == page_text@,
                        spans_within(spans@, chars@.len()),
                        page == pieces(chars@, spans@),
                        line_chars@ == page[k as int],
                        wanted == installed_names(installed_view(app_list@)),
                        names@.len() == app_list@.len(),
                        forall|i: int|
                            0 <= i < names@.len() ==> (#[trigger] names@[i])@
                                == app_list@[i].name@,
                        before + named_entries(page, k as int, wanted, 0) == catalog_view(entries@)
                            + named_entries(page, k as int, wanted, j as int),
                    decreases m - j,
                {
                    let ghost so_far = catalog_view(entries@);
                    assert(wanted[j as int] == names@[j as int]@);
                    if contains_text(line_chars, names[j].as_slice()) {
                        let line = text_of(line_chars);
                        let name = app_list[j].name.clone();
                        let entry = rules.entry(&chars, &spans, k, line.as_str(), name);
                        entries.push(entry);
                        proof {
                            let one = seq![entry_at(page, k as int, wanted[j as int])];
                            assert(catalog_view(entries@) =~= so_far + one);
                            assert(so_far + (one + named_entries(page, k as int, wanted, j + 1))
                                =~= (so_far + one) + named_entries(page, k as int, wanted, j + 1));
                        }
                    }
                    j += 1;
                }
                proof {
                    assert(catalog_view(entries@) + Seq::<CatalogEntry>::empty()
                        =~= catalog_view(entries@));
                }
            },
        }
        proof {
            let here = line_entries(page, k as int, strategy, wanted);
            let rest = entries_from(page, k + 1, strategy, wanted);
            assert(catalog_view(entries@) == before + here);
            assert(before + (here + rest) =~= (before + here) + rest);
        }
        k += 1;
    }
    proof {
        assert(catalog_view(entries@) + Seq::<CatalogEntry>::empty() =~= catalog_view(entries@));
    }
    entries
}

} // verus!
