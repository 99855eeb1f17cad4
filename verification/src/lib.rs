//! Finds out which installed applications of a product family have a newer
//! version on offer in a remote catalog.
//!
//! The work is done in three steps, each a module of its own:
//!
//! * [`inventory`] decides which directories are applications and reads
//!   their versions from the manifest text;
//! * [`catalog`] extracts the entries (name, version, link) from the text of
//!   the catalog page;
//! * [`reconcile`] attaches to each installed application the best newer
//!   entry of the catalog.
//!
//! [`updates`] runs the three in order. The library never touches the file
//! system or the network: the caller hands it directory names, manifest text
//! and page text.

pub mod catalog;
pub mod inventory;
pub mod model;
pub mod pattern;
pub mod reconcile;
pub mod text;
pub mod updates;
pub mod version;

pub use crate::catalog::find_online_programs;
pub use crate::inventory::{find_local_programs, ScannedDirectory};
pub use crate::model::{LocalFoundApp, MatchStrategy, OnlineFoundApp};
pub use crate::reconcile::compare_versions;
pub use crate::updates::{find_updates, UpdateError, UpdateReport};
