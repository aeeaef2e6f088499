//! Core of a desktop file explorer: a single current-directory cursor,
//! verified directory listings, and the rules behind every navigation
//! and mutation command.
//!
//! The library owns all decisions: path resolution, the listing order
//! (directories first, then names ascending), the search filter, the
//! favorites table, and when the cursor may move.  The caller performs
//! the filesystem and persistence side effects and hands the raw
//! results in as plain values; every function here states in its
//! contract exactly what it returns and how the cursor changes.

pub mod engine;
pub mod favorites;
pub mod listing;
pub mod models;
pub mod order;
pub mod paths;
pub mod syspaths;
pub mod text;

pub use engine::{AppState, FsOutcome};
pub use favorites::{Favorite, FavoritesStore};
pub use listing::{FileMeta, ScanEntry};
pub use models::{AppError, ExplorerView, FileNode};
pub use syspaths::SystemPath;
