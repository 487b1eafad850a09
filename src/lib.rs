//! The logic of a desktop developer toolbox, verified.
//!
//! The centre is the recent-projects scan: the histories of VS Code and its
//! forks (`storage.json`) and of JetBrains IDEs (`recentProjects.xml`) are
//! read into one list without repeated (path, source) pairs, newest first,
//! and an editor is launched on a project by trying candidate executables
//! in turn. Around it: environment-variable snapshots, a bounded icon
//! cache, image `data:` URIs, the URL of a local file-search service and
//! the tray menu's texts. Everything that touches the file system, the
//! registry, processes or the network is left to the caller, which hands
//! the results in as plain values.

pub mod text;
pub mod number;
pub mod paths;
pub mod json;
pub mod uri;

pub mod project;
pub mod order;
pub mod editor_json;
pub mod jetbrains;
pub mod scan;
pub mod locate;
pub mod launcher;
pub mod launch;
pub mod laws;

pub mod keyed_sort;
pub mod env;
pub mod media;
pub mod search;
pub mod tray;
