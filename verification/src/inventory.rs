//! The local inventory: installed applications and their versions.
//!
//! Walking the file system is left to the caller, who hands over one
//! [`ScannedDirectory`] for each immediate child directory of the root: its
//! name, and the text of the manifest found beneath it, if any. Which
//! directories count as applications, what they are called and which version
//! a manifest states is decided here.

use crate::model::{installed_view, InstalledApplication, LocalFoundApp};
use crate::pattern::{leftmost_match, Pattern};
use crate::text::{
    find_char, line_spans, lines, pieces, position_of, same_text, spans_within, strip_ends,
    text_of, to_chars, trim, trimmed, without_ends,
};
use vstd::prelude::*;
use vstd::slice::slice_subrange;

verus! {

/// The digit that opens an edition year in a directory name. A directory
/// without it is not an application.
pub const EDITION_MARKER: char = '2';

/// The file name of the manifest that states an application's version.
pub const MANIFEST_FILE_NAME: &'static str = "application.xml";

/// The identifier inside a manifest line that brackets the version.
pub const INSTALLED_VERSION_PATTERN: &'static str = r#""\{\w*-\d*\.\d.*?-64-"#;

/// One immediate child directory of the scanned root, as the caller found it.
pub struct ScannedDirectory {
    /// The directory's own name, without its path.
    pub name: String,
    /// The text of the manifest found anywhere beneath the directory; `None`
    /// when there is no manifest or it could not be read.
    pub manifest: Option<String>,
}

/// The view of a [`ScannedDirectory`].
pub struct DirectoryListing {
    pub name: Seq<char>,
    pub manifest: Option<Seq<char>>,
}

impl View for ScannedDirectory {
    type V = DirectoryListing;

    open spec fn view(&self) -> DirectoryListing {
        DirectoryListing {
            name: self.name@,
            manifest: match self.manifest {
                Some(text) => Some(text@),
                None => None,
            },
        }
    }
}

/// The views of a list of scanned directories, in order.
pub open spec fn listing_view(directories: Seq<ScannedDirectory>) -> Seq<DirectoryListing> {
    Seq::new(directories.len(), |i: int| directories[i]@)
}

/// The application name that a directory name stands for: what comes before
/// the first edition marker, trimmed. A name without the marker stands for
/// no application.
pub open spec fn application_name_of(directory_name: Seq<char>) -> Option<Seq<char>> {
    match position_of(directory_name, EDITION_MARKER) {
        Some(i) => Some(trim(directory_name.take(i))),
        None => None,
    }
}

/// The version inside a match of [`INSTALLED_VERSION_PATTERN`]: the match
/// without its first 7 and last 4 characters.
pub open spec fn installed_version_in(matched: Seq<char>) -> Seq<char> {
    strip_ends(matched, 7, 4)
}

/// The version that the first matching line among `manifest[from..]` states;
/// empty when no line matches.
pub open spec fn version_in_lines(manifest: Seq<Seq<char>>, from: int) -> Seq<char>
    decreases manifest.len() - from,
{
    if from < 0 || from >= manifest.len() {
        Seq::empty()
    } else {
        match leftmost_match(INSTALLED_VERSION_PATTERN@, manifest[from]) {
            Some(matched) => installed_version_in(matched),
            None => version_in_lines(manifest, from + 1),
        }
    }
}

/// The version that a manifest text states.
pub open spec fn manifest_version_of(manifest: Seq<char>) -> Seq<char> {
    version_in_lines(lines(manifest), 0)
}

/// The version of a directory: what its manifest states, or empty without a
/// manifest.
pub open spec fn version_of(directory: DirectoryListing) -> Seq<char> {
    match directory.manifest {
        Some(text) => manifest_version_of(text),
        None => Seq::empty(),
    }
}

/// The applications that `directories[from..]` hold, in order: one for each
/// directory whose name stands for an application, with no update matched
/// yet.
pub open spec fn applications_from(directories: Seq<DirectoryListing>, from: int) -> Seq<
    InstalledApplication,
>
    decreases directories.len() - from,
{
    if from < 0 || from >= directories.len() {
        Seq::empty()
    } else {
        let rest = applications_from(directories, from + 1);
        match application_name_of(directories[from].name) {
            Some(name) => seq![
                InstalledApplication {
                    name,
                    version: version_of(directories[from]),
                    newest_online: None,
                },
            ] + rest,
            None => rest,
        }
    }
}

/// A directory name stands for an application exactly when it contains the
/// edition marker.
pub proof fn lemma_unmarked_name_is_no_application(directory_name: Seq<char>)
    ensures
        application_name_of(directory_name) is None <==> !directory_name.contains(EDITION_MARKER),
{
    crate::text::lemma_position_of(directory_name, EDITION_MARKER);
}

/// Directories without the edition marker leave no trace in the inventory:
/// every application of the inventory comes from a directory whose name
/// contains the marker, and carries that directory's name and version.
pub proof fn lemma_inventory_holds_only_marked(directories: Seq<DirectoryListing>, from: int)
    requires
        0 <= from <= directories.len(),
    ensures
        forall|i: int|
            0 <= i < applications_from(directories, from).len() ==> exists|j: int|
                {
                    &&& from <= j < directories.len()
                    &&& (#[trigger] directories[j]).name.contains(EDITION_MARKER)
                    &&& application_name_of(directories[j].name) == Some(
                        (#[trigger] applications_from(directories, from)[i]).name,
                    )
                    &&& applications_from(directories, from)[i].version == version_of(
                        directories[j],
                    )
                },
    decreases directories.len() - from,
{
    if from < directories.len() {
        lemma_inventory_holds_only_marked(directories, from + 1);
        lemma_unmarked_name_is_no_application(directories[from].name);
        let here = applications_from(directories, from);
        let rest = applications_from(directories, from + 1);
        assert forall|i: int| 0 <= i < here.len() implies exists|j: int|
            {
                &&& from <= j < directories.len()
                &&& (#[trigger] directories[j]).name.contains(EDITION_MARKER)
                &&& application_name_of(directories[j].name) == Some((#[trigger] here[i]).name)
                &&& here[i].version == version_of(directories[j])
            } by {
            if application_name_of(directories[from].name) is None {
                assert(here[i] == rest[i]);
            } else if i > 0 {
                assert(here[i] == rest[i - 1]);
            } else {
                assert(directories[from].name.contains(EDITION_MARKER));
            }
        }
    }
}

/// A manifest none of whose lines matches the version pattern states the
/// empty version.
pub proof fn lemma_manifest_without_version(manifest: Seq<char>)
    requires
        forall|k: int|
            0 <= k < lines(manifest).len() ==> leftmost_match(
                INSTALLED_VERSION_PATTERN@,
                #[trigger] lines(manifest)[k],
            ) is None,
    ensures
        manifest_version_of(manifest) == Seq::<char>::empty(),
{
    lemma_no_matching_line(lines(manifest), 0);
}

proof fn lemma_no_matching_line(manifest: Seq<Seq<char>>, from: int)
    requires
        0 <= from <= manifest.len(),
        forall|k: int|
            0 <= k < manifest.len() ==> leftmost_match(
                INSTALLED_VERSION_PATTERN@,
                #[trigger] manifest[k],
            ) is None,
    ensures
        version_in_lines(manifest, from) == Seq::<char>::empty(),
    decreases manifest.len() - from,
{
    if from < manifest.len() {
        lemma_no_matching_line(manifest, from + 1);
    }
}

/// Whether `file_name` is the manifest's file name.
pub fn is_manifest_file(file_name: &str) -> (r: bool)
    ensures
        r == (file_name@ == MANIFEST_FILE_NAME@),
{
    let given = to_chars(file_name);
    let wanted = to_chars(MANIFEST_FILE_NAME);
    same_text(given.as_slice(), wanted.as_slice())
}

/// The application name that `directory_name` stands for, or `None` when the
/// directory is not an application.
pub fn application_name(directory_name: &str) -> (name: Option<String>)
    ensures
        match name {
            Some(text) => application_name_of(directory_name@) == Some(text@),
            None => application_name_of(directory_name@) is None,
        },
{
    let chars = to_chars(directory_name);
    match find_char(chars.as_slice(), EDITION_MARKER) {
        Some(i) => {
            proof {
                crate::text::lemma_position_of(chars@, EDITION_MARKER);
            }
            Some(text_of(trimmed(slice_subrange(chars.as_slice(), 0, i))))
        },
        None => None,
    }
}

/// The version inside what [`INSTALLED_VERSION_PATTERN`] matched on a
/// manifest line.
pub fn installed_version(matched: &str) -> (version: String)
    ensures
        version@ == installed_version_in(matched@),
{
    let chars = to_chars(matched);
    text_of(without_ends(chars.as_slice(), 7, 4))
}

/// The version that the manifest text states: the first line on which the
/// version pattern matches decides. Empty when no line matches.
pub fn manifest_version(manifest: &str) -> (version: String)
    ensures
        version@ == manifest_version_of(manifest@),
{
    let pattern = Pattern::compile(INSTALLED_VERSION_PATTERN);
    let chars = to_chars(manifest);
    let spans = line_spans(chars.as_slice());
    let ghost page = lines(manifest@);
    let n = spans.len();
    let mut k: usize = 0;
    while k < n
        invariant
            k <= n,
            n == spans@.len(),
            pattern.source() == INSTALLED_VERSION_PATTERN@,
            spans_within(spans@, chars@.len()),
            page == pieces(chars@, spans@),
            page == lines(manifest@),
            version_in_lines(page, 0) == version_in_lines(page, k as int),
        decreases n - k,
    {
        let (a, b) = spans[k];
        let line = text_of(slice_subrange(chars.as_slice(), a, b));
        assert(line@ == page[k as int]);
        match pattern.find(line.as_str()) {
            Some(matched) => {
                return installed_version(matched);
            },
            None => {},
        }
        k += 1;
    }
    String::new()
}

/// Builds the inventory from the scanned directories.
///
/// A directory whose name lacks the edition marker is dropped. Every other
/// directory gives one application, in the order of `directories`, with the
/// version its manifest states (empty without a manifest, or when no line of
/// it matches) and no update matched yet.
pub fn find_local_programs(directories: &Vec<ScannedDirectory>) -> (apps: Vec<LocalFoundApp>)
    ensures
        installed_view(apps@) == applications_from(listing_view(directories@), 0),
{
    let ghost listing = listing_view(directories@);
    let mut apps: Vec<LocalFoundApp> = Vec::new();
    let n = directories.len();
    let mut i: usize = 0;
    proof {
        assert(installed_view(apps@) =~= Seq::<InstalledApplication>::empty());
    }
    while i < n
        invariant
            i <= n,
            n == directories@.len(),
            listing == listing_view(directories@),
            applications_from(listing, 0) == installed_view(apps@) + applications_from(
                listing,
                i as int,
            ),
        decreases n - i,
    {
        let ghost before = installed_view(apps@);
        let directory = &directories[i];
        assert(listing[i as int] == directory@);
        match application_name(directory.name.as_str()) {
            Some(name) => {
                let version = match &directory.manifest {
                    Some(text) => manifest_version(text.as_str()),
                    None => String::new(),
                };
                apps.push(LocalFoundApp { version, name, newest_online: None });
                proof {
                    let app = apps@[apps@.len() - 1]@;
                    let rest = applications_from(listing, i + 1);
                    assert(installed_view(apps@) =~= before + seq![app]);
                    assert(before + (seq![app] + rest) =~= (before + seq![app]) + rest);
                }
            },
            None => {},
        }
        i += 1;
    }
    proof {
        assert(installed_view(apps@) + Seq::<InstalledApplication>::empty() =~= installed_view(
            apps@,
        ));
    }
    apps
}

} // verus!
