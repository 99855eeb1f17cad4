//! The whole pipeline: inventory, catalog and reconciliation in one call.
//!
//! The two inputs come from outside: the directories found under the root,
//! and the text of the catalog page. Either may be missing, and those are the
//! only two failures there are. Everything finer (no manifest, no version, no
//! link) ends in an empty field, never in an error.

use crate::catalog::{catalog_of, find_online_programs, installed_names};
use crate::inventory::{applications_from, find_local_programs, listing_view, ScannedDirectory};
use crate::model::{
    catalog_view, installed_view, CatalogEntry, InstalledApplication, LocalFoundApp,
    MatchStrategy, OnlineFoundApp,
};
use crate::reconcile::{compare_versions, reconciled};
use vstd::prelude::*;

verus! {

/// Why no report could be made.
#[derive(Clone, Copy, Debug, PartialEq, Eq)]
pub enum UpdateError {
    /// The root directory could not be read.
    RootUnavailable,
    /// The text of the catalog page could not be obtained.
    CatalogUnavailable,
}

impl UpdateError {
    /// The message to show for this error.
    pub fn message(&self) -> (text: String)
        ensures
            text@ == match self {
                UpdateError::RootUnavailable => "could not access root path"@,
                UpdateError::CatalogUnavailable => "could not obtain catalog text"@,
            },
    {
        match self {
            UpdateError::RootUnavailable => "could not access root path".to_owned(),
            UpdateError::CatalogUnavailable => "could not obtain catalog text".to_owned(),
        }
    }
}

/// What the pipeline hands to the presentation layer.
pub struct UpdateReport {
    /// The installed applications, each with the update recorded for it.
    pub installed: Vec<LocalFoundApp>,
    /// Every entry found on the catalog page, in page order.
    pub catalog: Vec<OnlineFoundApp>,
}

/// Every application of `apps` reconciled with `catalog`, in order.
pub open spec fn reconcile_all(
    strategy: MatchStrategy,
    apps: Seq<InstalledApplication>,
    catalog: Seq<CatalogEntry>,
) -> Seq<InstalledApplication> {
    Seq::new(apps.len(), |i: int| reconciled(strategy, apps[i], catalog))
}

/// The inventory that `directories` give.
pub open spec fn inventory_of(directories: Seq<ScannedDirectory>) -> Seq<InstalledApplication> {
    applications_from(listing_view(directories), 0)
}

/// Runs the pipeline: builds the inventory from `directories`, extracts the
/// catalog from `page_text`, and reconciles the two.
///
/// `directories` is `None` when the root could not be read, `page_text` is
/// `None` when the page could not be obtained. A missing root is reported
/// first.
pub fn find_updates(
    directories: Option<&Vec<ScannedDirectory>>,
    page_text: Option<&str>,
    strategy: MatchStrategy,
) -> (report: Result<UpdateReport, UpdateError>)
    ensures
        match report {
            Ok(found) => {
                &&& directories matches Some(scanned)
                &&& page_text matches Some(text)
                &&& catalog_view(found.catalog@) == catalog_of(
                    text@,
                    strategy,
                    installed_names(inventory_of(scanned@)),
                )
                &&& installed_view(found.installed@) == reconcile_all(
                    strategy,
                    inventory_of(scanned@),
                    catalog_view(found.catalog@),
                )
            },
            Err(UpdateError::RootUnavailable) => directories is None,
            Err(UpdateError::CatalogUnavailable) => directories is Some && page_text is None,
        },
{
    let scanned = match directories {
        Some(scanned) => scanned,
        None => {
            return Err(UpdateError::RootUnavailable);
        },
    };
    let text = match page_text {
        Some(text) => text,
        None => {
            return Err(UpdateError::CatalogUnavailable);
        },
    };
    let mut installed = find_local_programs(scanned);
    let catalog = find_online_programs(&installed, text, strategy);
    let ghost inventory = installed_view(installed@);
    compare_versions(&mut installed, &catalog, strategy);
    proof {
        assert(installed_view(installed@) =~= reconcile_all(
            strategy,
            inventory,
            catalog_view(catalog@),
        ));
    }
    Ok(UpdateReport { installed, catalog })
}

} // verus!
