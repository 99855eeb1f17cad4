//! The two record types of the library and their mathematical views.

use vstd::prelude::*;

verus! {

/// How catalog lines are recognised and how names are matched.
///
/// The two strategies are never mixed: the one that finds the entries also
/// decides how their names are compared with installed names.
#[derive(Clone, Copy, Debug, PartialEq, Eq)]
pub enum MatchStrategy {
    /// A line is an entry when it mentions the product family; the entry's
    /// name comes from the page markup, and an installed application matches
    /// an entry whose name contains its own.
    FamilyMarker,
    /// A line yields one entry for each installed name it contains; the entry
    /// takes that installed name, and names match only when equal. Containment
    /// honours letter case, and the empty name is contained in every line.
    InstalledNames,
}

/// The view of one catalog entry: its three fields as character sequences.
pub struct CatalogEntry {
    pub name: Seq<char>,
    pub version: Seq<char>,
    pub magnet: Seq<char>,
}

/// The view of one installed application.
pub struct InstalledApplication {
    pub name: Seq<char>,
    pub version: Seq<char>,
    pub newest_online: Option<CatalogEntry>,
}

/// One listing scraped from the remote catalog page.
///
/// Entries are plain values. Two entries with the same name and different
/// versions or links are distinct entries; nothing removes duplicates.
pub struct OnlineFoundApp {
    /// Raw version token; empty when no version form matched.
    pub version: String,
    /// Name as extracted from the page, or as installed.
    pub name: String,
    /// Retrieval link; empty when none was found.
    pub magnet: String,
}

/// One locally detected application.
pub struct LocalFoundApp {
    /// Raw version token; empty when no manifest gave one.
    pub version: String,
    /// Name derived from the directory name, trimmed.
    pub name: String,
    /// The best newer catalog entry found so far, if any.
    pub newest_online: Option<OnlineFoundApp>,
}

impl View for OnlineFoundApp {
    type V = CatalogEntry;

    open spec fn view(&self) -> CatalogEntry {
        CatalogEntry { name: self.name@, version: self.version@, magnet: self.magnet@ }
    }
}

impl View for LocalFoundApp {
    type V = InstalledApplication;

    open spec fn view(&self) -> InstalledApplication {
        InstalledApplication {
            name: self.name@,
            version: self.version@,
            newest_online: match self.newest_online {
                Some(entry) => Some(entry@),
                None => None,
            },
        }
    }
}

impl Clone for OnlineFoundApp {
    fn clone(&self) -> (copy: OnlineFoundApp)
        ensures
            copy@ == self@,
    {
        OnlineFoundApp {
            version: self.version.clone(),
            name: self.name.clone(),
            magnet: self.magnet.clone(),
        }
    }
}

/// The views of a list of catalog entries, in order.
pub open spec fn catalog_view(entries: Seq<OnlineFoundApp>) -> Seq<CatalogEntry> {
    Seq::new(entries.len(), |i: int| entries[i]@)
}

/// The views of a list of installed applications, in order.
pub open spec fn installed_view(apps: Seq<LocalFoundApp>) -> Seq<InstalledApplication> {
    Seq::new(apps.len(), |i: int| apps[i]@)
}

} // verus!
