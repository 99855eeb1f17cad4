//! Reconciliation: attaching to each installed application the best newer
//! catalog entry.
//!
//! The catalog is scanned once per application, left to right. The first
//! entry that matches by name and whose version exceeds the installed one is
//! recorded; after that an entry replaces the recorded one only if it matches
//! and exceeds the *recorded* version. Equal versions never replace.

use crate::model::{
    catalog_view, CatalogEntry, InstalledApplication, LocalFoundApp, MatchStrategy,
    OnlineFoundApp,
};
use crate::text::{contains, contains_text, same_text, to_chars};
use crate::version::{orders_strictly, precedes, version_precedes};
use vstd::prelude::*;

verus! {

/// Whether a catalog entry called `entry_name` is a listing of the installed
/// application called `installed_name`.
pub open spec fn names_match(
    strategy: MatchStrategy,
    installed_name: Seq<char>,
    entry_name: Seq<char>,
) -> bool {
    match strategy {
        MatchStrategy::FamilyMarker => contains(entry_name, installed_name),
        MatchStrategy::InstalledNames => entry_name == installed_name,
    }
}

/// The version a candidate has to exceed: that of the entry recorded so far,
/// or the installed version while nothing is recorded.
pub open spec fn reference_version(installed_version: Seq<char>, best: Option<CatalogEntry>) -> Seq<
    char,
> {
    match best {
        Some(entry) => entry.version,
        None => installed_version,
    }
}

/// What is recorded after looking at `candidate`, given that `best` was
/// recorded before.
pub open spec fn chain_step(
    strategy: MatchStrategy,
    name: Seq<char>,
    installed_version: Seq<char>,
    best: Option<CatalogEntry>,
    candidate: CatalogEntry,
) -> Option<CatalogEntry> {
    if names_match(strategy, name, candidate.name) && version_precedes(
        reference_version(installed_version, best),
        candidate.version,
    ) {
        Some(candidate)
    } else {
        best
    }
}

/// What is recorded after scanning `catalog[from..]` left to right, given
/// that `best` was recorded before.
pub open spec fn best_candidate(
    strategy: MatchStrategy,
    name: Seq<char>,
    installed_version: Seq<char>,
    best: Option<CatalogEntry>,
    catalog: Seq<CatalogEntry>,
    from: int,
) -> Option<CatalogEntry>
    decreases catalog.len() - from,
{
    if from < 0 || from >= catalog.len() {
        best
    } else {
        best_candidate(
            strategy,
            name,
            installed_version,
            chain_step(strategy, name, installed_version, best, catalog[from]),
            catalog,
            from + 1,
        )
    }
}

/// An installed application after reconciliation with `catalog`: name and
/// version unchanged, the recorded update brought up to date.
pub open spec fn reconciled(
    strategy: MatchStrategy,
    app: InstalledApplication,
    catalog: Seq<CatalogEntry>,
) -> InstalledApplication {
    InstalledApplication {
        name: app.name,
        version: app.version,
        newest_online: best_candidate(
            strategy,
            app.name,
            app.version,
            app.newest_online,
            catalog,
            0,
        ),
    }
}

/// The versions that take part in the scan for one application: its own, and
/// those of the catalog entries that match it by name.
pub open spec fn versions_in_play(
    strategy: MatchStrategy,
    app: InstalledApplication,
    catalog: Seq<CatalogEntry>,
) -> Set<Seq<char>> {
    Set::new(
        |v: Seq<char>|
            v == app.version || exists|j: int|
                0 <= j < catalog.len() && names_match(strategy, app.name, catalog[j].name)
                    && (#[trigger] catalog[j]).version == v,
    )
}

/// Where a scan leaves off: what it records is what was recorded before, or
/// a later catalog entry that matches by name. A recorded entry is never
/// dropped, and a scan that starts with nothing ends with nothing exactly
/// when no matching entry exceeds the installed version.
pub proof fn lemma_scan_outcome(
    strategy: MatchStrategy,
    name: Seq<char>,
    installed_version: Seq<char>,
    best: Option<CatalogEntry>,
    catalog: Seq<CatalogEntry>,
    from: int,
)
    requires
        0 <= from <= catalog.len(),
    ensures
        ({
            let result = best_candidate(strategy, name, installed_version, best, catalog, from);
            &&& result == best || exists|j: int|
                from <= j < catalog.len() && result == Some(#[trigger] catalog[j]) && names_match(
                    strategy,
                    name,
                    catalog[j].name,
                )
            &&& best is Some ==> result is Some
            &&& best is None ==> (result is None <==> forall|j: int|
                from <= j < catalog.len() && names_match(strategy, name, catalog[j].name)
                    ==> !version_precedes(installed_version, (#[trigger] catalog[j]).version))
        }),
    decreases catalog.len() - from,
{
    if from < catalog.len() {
        let next = chain_step(strategy, name, installed_version, best, catalog[from]);
        lemma_scan_outcome(strategy, name, installed_version, next, catalog, from + 1);
    }
}

/// What a scan under a strict order achieves: the reference version only
/// ever rises, and no matching entry at or after `from` exceeds the final
/// reference.
proof fn lemma_scan_rises(
    strategy: MatchStrategy,
    name: Seq<char>,
    installed_version: Seq<char>,
    best: Option<CatalogEntry>,
    catalog: Seq<CatalogEntry>,
    from: int,
    domain: Set<Seq<char>>,
)
    requires
        0 <= from <= catalog.len(),
        orders_strictly(domain),
        domain.contains(reference_version(installed_version, best)),
        forall|j: int|
            0 <= j < catalog.len() && names_match(strategy, name, catalog[j].name)
                ==> domain.contains((#[trigger] catalog[j]).version),
    ensures
        ({
            let result = best_candidate(strategy, name, installed_version, best, catalog, from);
            let before = reference_version(installed_version, best);
            let after = reference_version(installed_version, result);
            &&& domain.contains(after)
            &&& result == best || version_precedes(before, after)
            &&& forall|j: int|
                from <= j < catalog.len() && names_match(strategy, name, catalog[j].name)
                    ==> !version_precedes(after, (#[trigger] catalog[j]).version)
        }),
    decreases catalog.len() - from,
{
    if from < catalog.len() {
        let candidate = catalog[from];
        let next = chain_step(strategy, name, installed_version, best, candidate);
        assert(domain.contains(reference_version(installed_version, next))) by {
            if next != best {
                assert(domain.contains(catalog[from].version));
            }
        }
        lemma_scan_rises(strategy, name, installed_version, next, catalog, from + 1, domain);
    }
}

/// Best-candidate chaining is monotonic wherever versions are strictly
/// ordered: if the versions in play for an application form a strict partial
/// order and nothing was recorded before, then the update recorded by
/// reconciliation exceeds the installed version, and no catalog entry that
/// matches the application exceeds the recorded update.
pub proof fn lemma_recorded_update_is_greatest(
    strategy: MatchStrategy,
    app: InstalledApplication,
    catalog: Seq<CatalogEntry>,
)
    requires
        app.newest_online is None,
        orders_strictly(versions_in_play(strategy, app, catalog)),
    ensures
        reconciled(strategy, app, catalog).newest_online matches Some(update) ==> {
            &&& version_precedes(app.version, update.version)
            &&& forall|j: int|
                0 <= j < catalog.len() && names_match(strategy, app.name, catalog[j].name)
                    ==> !version_precedes(update.version, (#[trigger] catalog[j]).version)
        },
{
    let domain = versions_in_play(strategy, app, catalog);
    assert(domain.contains(app.version));
    lemma_scan_rises(strategy, app.name, app.version, None, catalog, 0, domain);
}

/// The update that reconciliation records, starting from nothing, is one of
/// the catalog entries that match the application by name; and nothing is
/// recorded exactly when no matching entry exceeds the installed version.
pub proof fn lemma_recorded_update_is_matching_entry(
    strategy: MatchStrategy,
    app: InstalledApplication,
    catalog: Seq<CatalogEntry>,
)
    requires
        app.newest_online is None,
    ensures
        reconciled(strategy, app, catalog).newest_online matches Some(update) ==> exists|j: int|
            0 <= j < catalog.len() && update == #[trigger] catalog[j] && names_match(
                strategy,
                app.name,
                catalog[j].name,
            ),
        reconciled(strategy, app, catalog).newest_online is None <==> forall|j: int|
            0 <= j < catalog.len() && names_match(strategy, app.name, catalog[j].name)
                ==> !version_precedes(app.version, (#[trigger] catalog[j]).version),
{
    lemma_scan_outcome(strategy, app.name, app.version, None, catalog, 0);
}

/// The view of an optional catalog entry.
pub open spec fn recorded_view(best: Option<OnlineFoundApp>) -> Option<CatalogEntry> {
    match best {
        Some(entry) => Some(entry@),
        None => None,
    }
}

/// Records `candidate` in place of `best` if the comparison found it newer;
/// keeps `best` otherwise.
pub fn keep_newer(best: Option<OnlineFoundApp>, candidate: &OnlineFoundApp, newer: bool) -> (kept:
    Option<OnlineFoundApp>)
    ensures
        recorded_view(kept) == if newer {
            Some(candidate@)
        } else {
            recorded_view(best)
        },
{
    if newer {
        Some(candidate.clone())
    } else {
        best
    }
}

/// Whether the entry name matches the installed name under `strategy`.
fn entry_matches(strategy: MatchStrategy, installed_name: &[char], entry_name: &[char]) -> (r: bool)
    ensures
        r == names_match(strategy, installed_name@, entry_name@),
{
    match strategy {
        MatchStrategy::FamilyMarker => contains_text(entry_name, installed_name),
        MatchStrategy::InstalledNames => same_text(entry_name, installed_name),
    }
}

/// The characters of each entry name, in order.
fn entry_name_texts(online_apps: &Vec<OnlineFoundApp>) -> (names: Vec<Vec<char>>)
    ensures
        names@.len() == online_apps@.len(),
        forall|i: int| 0 <= i < names@.len() ==> (#[trigger] names@[i])@ == online_apps@[i].name@,
{
    let mut names: Vec<Vec<char>> = Vec::new();
    let n = online_apps.len();
    let mut i: usize = 0;
    while i < n
        invariant
            i <= n,
            n == online_apps@.len(),
            names@.len() == i,
            forall|j: int| 0 <= j < i ==> (#[trigger] names@[j])@ == online_apps@[j].name@,
        decreases n - i,
    {
        names.push(to_chars(online_apps[i].name.as_str()));
        i += 1;
    }
    names
}

/// The update to record for one application after scanning the whole catalog.
fn best_update(
    app: &LocalFoundApp,
    online_apps: &Vec<OnlineFoundApp>,
    entry_names: &Vec<Vec<char>>,
    strategy: MatchStrategy,
) -> (best: Option<OnlineFoundApp>)
    requires
        entry_names@.len() == online_apps@.len(),
        forall|i: int|
            0 <= i < entry_names@.len() ==> (#[trigger] entry_names@[i])@ == online_apps@[i].name@,
    ensures
        recorded_view(best) == reconciled(strategy, app@, catalog_view(online_apps@)).newest_online,
{
    let ghost catalog = catalog_view(online_apps@);
    let name = to_chars(app.name.as_str());
    let mut best: Option<OnlineFoundApp> = match &app.newest_online {
        Some(entry) => Some(entry.clone()),
        None => None,
    };
    let n = online_apps.len();
    let mut j: usize = 0;
    while j < n
        invariant
            j <= n,
            n == online_apps@.len(),
            catalog == catalog_view(online_apps@),
            name@ == app.name@,
            entry_names@.len() == online_apps@.len(),
            forall|i: int|
                0 <= i < entry_names@.len() ==> (#[trigger] entry_names@[i])@
                    == online_apps@[i].name@,
            best_candidate(strategy, app.name@, app.version@, app@.newest_online, catalog, 0)
                == best_candidate(
                strategy,
                app.name@,
                app.version@,
                recorded_view(best),
                catalog,
                j as int,
            ),
        decreases n - j,
    {
        let candidate = &online_apps[j];
        assert(catalog[j as int] == candidate@);
        if entry_matches(strategy, name.as_slice(), entry_names[j].as_slice()) {
            let newer = match &best {
                Some(entry) => precedes(entry.version.as_str(), candidate.version.as_str()),
                None => precedes(app.version.as_str(), candidate.version.as_str()),
            };
            best = keep_newer(best, candidate, newer);
        }
        j += 1;
    }
    best
}

/// Reconciles the installed applications with the catalog.
///
/// Every application keeps its name and version. Its recorded update becomes
/// what the left-to-right scan of `online_apps` leaves recorded, starting
/// from what was recorded before the call (normally nothing). The catalog is
/// not changed.
pub fn compare_versions(
    installed_apps: &mut Vec<LocalFoundApp>,
    online_apps: &Vec<OnlineFoundApp>,
    strategy: MatchStrategy,
)
    ensures
        final(installed_apps)@.len() == old(installed_apps)@.len(),
        forall|i: int|
            0 <= i < old(installed_apps)@.len() ==> (#[trigger] final(installed_apps)@[i])@
                == reconciled(strategy, old(installed_apps)@[i]@, catalog_view(online_apps@)),
{
    let entry_names = entry_name_texts(online_apps);
    let ghost catalog = catalog_view(online_apps@);
    let n = installed_apps.len();
    let mut i: usize = 0;
    while i < n
        invariant
            i <= n,
            n == installed_apps@.len(),
            n == old(installed_apps)@.len(),
            catalog == catalog_view(online_apps@),
            entry_names@.len() == online_apps@.len(),
            forall|k: int|
                0 <= k < entry_names@.len() ==> (#[trigger] entry_names@[k])@
                    == online_apps@[k].name@,
            forall|k: int|
                0 <= k < i ==> (#[trigger] installed_apps@[k])@ == reconciled(
                    strategy,
                    old(installed_apps)@[k]@,
                    catalog,
                ),
            forall|k: int| i <= k < n ==> installed_apps@[k] == old(installed_apps)@[k],
        decreases n - i,
    {
        let best = best_update(&installed_apps[i], online_apps, &entry_names, strategy);
        installed_apps[i].newest_online = best;
        i += 1;
    }
}

} // verus!
