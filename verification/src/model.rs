//! The values that the operations hand back.

use vstd::prelude::*;

verus! {

/// The identifier of a document.
#[derive(Debug, Clone, PartialEq, Eq)]
pub struct DocId(pub String);

/// A document as it was read.
#[derive(Debug, Clone, PartialEq, Eq)]
pub struct OpenFileResponse {
    pub path: String,
    pub content: String,
    pub version: u64,
    pub last_modified: u64,
}

/// What a save did.
#[derive(Debug, Clone, PartialEq, Eq)]
pub struct SaveFileResponse {
    pub path: String,
    pub version: u64,
    pub bytes_written: u64,
    pub conflict: bool,
}

/// What an export wrote.
#[derive(Debug, Clone, PartialEq, Eq)]
pub struct ExportResponse {
    pub output_path: String,
    pub bytes_written: u64,
}

/// A watch that was started.
#[derive(Debug, Clone, PartialEq, Eq)]
pub struct WatchStartedResponse {
    pub path: String,
    pub watch_id: String,
}

/// What the editor sends to keep a document in step.
#[derive(Debug, Clone, PartialEq, Eq)]
pub struct EditorSyncPayload {
    pub doc_id: String,
    pub markdown: String,
    pub version: u64,
    pub dirty: bool,
    pub changed_blocks: Vec<String>,
}

/// The kinds of entry that a listing shows.
#[derive(Debug, Clone, Copy, PartialEq, Eq, Structural)]
pub enum WorkspaceEntryKind {
    Directory,
    Markdown,
}

/// One entry of a listing.
#[derive(Debug, Clone, PartialEq, Eq)]
pub struct WorkspaceEntry {
    pub name: String,
    pub relative_path: String,
    pub absolute_path: String,
    pub kind: WorkspaceEntryKind,
    pub modified_at: u64,
}

/// The listing of one directory of the workspace.
#[derive(Debug, Clone, PartialEq, Eq)]
pub struct ListWorkspaceEntriesResponse {
    pub root_path: String,
    pub current_relative_path: String,
    pub entries: Vec<WorkspaceEntry>,
}

/// An entry with its texts as sequences of characters.
pub struct EntryView {
    pub name: Seq<char>,
    pub relative_path: Seq<char>,
    pub absolute_path: Seq<char>,
    pub kind: WorkspaceEntryKind,
    pub modified_at: u64,
}

impl View for WorkspaceEntry {
    type V = EntryView;

    open spec fn view(&self) -> EntryView {
        EntryView {
            name: self.name@,
            relative_path: self.relative_path@,
            absolute_path: self.absolute_path@,
            kind: self.kind,
            modified_at: self.modified_at,
        }
    }
}

/// The entries of `v`, each by its view.
pub open spec fn entry_views(v: Seq<WorkspaceEntry>) -> Seq<EntryView> {
    Seq::new(v.len(), |i: int| v[i]@)
}

/// A listing with its texts as sequences of characters.
pub struct ListingView {
    pub root_path: Seq<char>,
    pub current_relative_path: Seq<char>,
    pub entries: Seq<EntryView>,
}

impl View for ListWorkspaceEntriesResponse {
    type V = ListingView;

    open spec fn view(&self) -> ListingView {
        ListingView {
            root_path: self.root_path@,
            current_relative_path: self.current_relative_path@,
            entries: entry_views(self.entries@),
        }
    }
}

/// A document as it was read, with its texts as sequences of characters.
pub struct OpenedView {
    pub path: Seq<char>,
    pub content: Seq<char>,
    pub version: u64,
    pub last_modified: u64,
}

impl View for OpenFileResponse {
    type V = OpenedView;

    open spec fn view(&self) -> OpenedView {
        OpenedView {
            path: self.path@,
            content: self.content@,
            version: self.version,
            last_modified: self.last_modified,
        }
    }
}

/// What a save did, with its path as a sequence of characters.
pub struct SavedView {
    pub path: Seq<char>,
    pub version: u64,
    pub bytes_written: u64,
    pub conflict: bool,
}

impl View for SaveFileResponse {
    type V = SavedView;

    open spec fn view(&self) -> SavedView {
        SavedView {
            path: self.path@,
            version: self.version,
            bytes_written: self.bytes_written,
            conflict: self.conflict,
        }
    }
}

/// A watch that was started, with its texts as sequences of characters.
pub struct WatchView {
    pub path: Seq<char>,
    pub watch_id: Seq<char>,
}

impl View for WatchStartedResponse {
    type V = WatchView;

    open spec fn view(&self) -> WatchView {
        WatchView { path: self.path@, watch_id: self.watch_id@ }
    }
}

/// What an export wrote, with its path as a sequence of characters.
pub struct ExportedView {
    pub output_path: Seq<char>,
    pub bytes_written: u64,
}

impl View for ExportResponse {
    type V = ExportedView;

    open spec fn view(&self) -> ExportedView {
        ExportedView { output_path: self.output_path@, bytes_written: self.bytes_written }
    }
}

} // verus!
