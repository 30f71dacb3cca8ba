//! What the file system reports, as plain values. The caller looks at the file
//! system and hands these in; the library decides on them.

use vstd::prelude::*;
use crate::error::{IoFailure, IoFailureView};

verus! {

/// What lies at a path.
#[derive(Debug, Clone, Copy, PartialEq, Eq, Structural)]
pub enum PathKind {
    /// Nothing.
    Missing,
    /// A directory.
    Directory,
    /// A regular file.
    File,
    /// Something else.
    Other,
}

/// What the file system reports of a path: what lies there, and the canonical
/// form of the path or the failure to resolve it.
#[derive(Debug, PartialEq, Eq)]
pub struct PathReport {
    pub kind: PathKind,
    pub canonical: Result<String, IoFailure>,
}

/// A report with its texts as sequences of characters.
pub struct PathReportView {
    pub kind: PathKind,
    pub canonical: Result<Seq<char>, IoFailureView>,
}

impl View for PathReport {
    type V = PathReportView;

    open spec fn view(&self) -> PathReportView {
        PathReportView {
            kind: self.kind,
            canonical: match self.canonical {
                Ok(c) => Ok(c@),
                Err(f) => Err(f@),
            },
        }
    }
}

/// What the file system reports of an entry of a directory itself, without
/// following a link.
#[derive(Debug, Clone, Copy, PartialEq, Eq)]
pub struct ChildMetadata {
    pub kind: PathKind,
    pub modified_at: u64,
}

/// One entry of a directory as it was read: its name, its canonical path if
/// it could be resolved, and its metadata or the failure to read them.
#[derive(Debug, PartialEq, Eq)]
pub struct DirectoryChild {
    pub name: String,
    pub canonical: Option<String>,
    pub metadata: Result<ChildMetadata, IoFailure>,
}

/// An entry with its texts as sequences of characters.
pub struct DirectoryChildView {
    pub name: Seq<char>,
    pub canonical: Option<Seq<char>>,
    pub metadata: Result<ChildMetadata, IoFailureView>,
}

impl View for DirectoryChild {
    type V = DirectoryChildView;

    open spec fn view(&self) -> DirectoryChildView {
        DirectoryChildView {
            name: self.name@,
            canonical: match self.canonical {
                Some(c) => Some(c@),
                None => None,
            },
            metadata: match self.metadata {
                Ok(m) => Ok(m),
                Err(f) => Err(f@),
            },
        }
    }
}

/// One step of reading a directory: an entry, or the failure to read one.
#[derive(Debug, PartialEq, Eq)]
pub enum ChildReport {
    Unreadable(IoFailure),
    Entry(DirectoryChild),
}

/// A step of reading a directory, with its texts as sequences of characters.
pub enum ChildReportView {
    Unreadable(IoFailureView),
    Entry(DirectoryChildView),
}

impl View for ChildReport {
    type V = ChildReportView;

    open spec fn view(&self) -> ChildReportView {
        match self {
            ChildReport::Unreadable(f) => ChildReportView::Unreadable(f@),
            ChildReport::Entry(c) => ChildReportView::Entry(c@),
        }
    }
}

/// The reports of `v`, each by its view.
pub open spec fn child_views(v: Seq<ChildReport>) -> Seq<ChildReportView> {
    Seq::new(v.len(), |i: int| v[i]@)
}

} // verus!
