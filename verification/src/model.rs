//! The normalized application record and the persisted inventory snapshot.

use vstd::prelude::*;

verus! {

/// One discoverable, launchable application, normalized from a
/// platform-specific source (a desktop-entry file or a registry subkey).
#[derive(Debug, Clone, PartialEq, Eq, Hash)]
pub struct AppList {
    /// Display name; the one field every record carries.
    pub name: String,
    /// Optional human-readable subtitle.
    pub description: Option<String>,
    /// Shell-invocable launch string; records without one are discarded
    /// before they are exposed.
    pub launch_command: Option<String>,
    /// Resolved icon file path, never a bare icon name once normalized;
    /// an empty string when no icon could be resolved.
    pub icon_path: Option<String>,
    /// Classification tag, e.g. "Application".
    pub type_file: Option<String>,
    /// Whether launching should attach a terminal emulator.
    pub terminal: Option<bool>,
}

/// The mathematical value of an `AppList`: each text field as a sequence
/// of characters.
pub struct AppListView {
    pub name: Seq<char>,
    pub description: Option<Seq<char>>,
    pub launch_command: Option<Seq<char>>,
    pub icon_path: Option<Seq<char>>,
    pub type_file: Option<Seq<char>>,
    pub terminal: Option<bool>,
}

impl View for AppList {
    type V = AppListView;

    open spec fn view(&self) -> AppListView {
        AppListView {
            name: self.name@,
            description: self.description.deep_view(),
            launch_command: self.launch_command.deep_view(),
            icon_path: self.icon_path.deep_view(),
            type_file: self.type_file.deep_view(),
            terminal: self.terminal,
        }
    }
}

impl DeepView for AppList {
    type V = AppListView;

    open spec fn deep_view(&self) -> AppListView {
        self.view()
    }
}

/// The persisted cache: a change fingerprint together with the record list
/// that was computed from exactly the source state the fingerprint summarizes.
#[derive(Debug, Clone)]
pub struct CacheFile {
    /// Order-independent summary of the source state.
    pub hash: u64,
    /// The records collected under that source state.
    pub apps: Vec<AppList>,
}

/// The mathematical value of a `CacheFile`.
pub struct CacheFileView {
    pub hash: u64,
    pub apps: Seq<AppListView>,
}

impl View for CacheFile {
    type V = CacheFileView;

    open spec fn view(&self) -> CacheFileView {
        CacheFileView { hash: self.hash, apps: self.apps.deep_view() }
    }
}

impl DeepView for CacheFile {
    type V = CacheFileView;

    open spec fn deep_view(&self) -> CacheFileView {
        self.view()
    }
}

} // verus!
