//! The ways in which a file operation can fail.

use vstd::prelude::*;

verus! {

/// A failure that the file system reported: whether it was a refusal for want
/// of permission, and its text.
#[derive(Debug, Clone, PartialEq, Eq)]
pub struct IoFailure {
    pub permission_denied: bool,
    pub message: String,
}

/// Why a file operation failed.
#[derive(Debug, Clone, PartialEq, Eq)]
pub enum FsError {
    /// The path is empty or holds only white space.
    EmptyPath,
    /// The path cannot be used; the text says why, or is the path itself.
    InvalidPath(String),
    /// Nothing exists at the path.
    FileNotFound(String),
    /// The path is a directory where a file was expected.
    IsDirectory(String),
    /// The temporary file could not be created for want of permission.
    PermissionDenied(String),
    /// The path leaves the workspace.
    OutOfWorkspace(String),
    /// The relative path is absolute.
    InvalidRelativePath(String),
    /// The file does not hold UTF-8 text; the number is the length of its
    /// longest valid beginning.
    Utf8(usize),
    /// The file system failed.
    Io(IoFailure),
    /// The watch could not be registered; the text is the reason.
    Watch(String),
    /// The registry of watches could not be locked.
    Lock,
}

/// A failure of the file system, with its text as a sequence of characters.
pub struct IoFailureView {
    pub permission_denied: bool,
    pub message: Seq<char>,
}

impl View for IoFailure {
    type V = IoFailureView;

    open spec fn view(&self) -> IoFailureView {
        IoFailureView { permission_denied: self.permission_denied, message: self.message@ }
    }
}

/// An error with its texts as sequences of characters.
pub enum FsErrorView {
    EmptyPath,
    InvalidPath(Seq<char>),
    FileNotFound(Seq<char>),
    IsDirectory(Seq<char>),
    PermissionDenied(Seq<char>),
    OutOfWorkspace(Seq<char>),
    InvalidRelativePath(Seq<char>),
    Utf8(usize),
    Io(IoFailureView),
    Watch(Seq<char>),
    Lock,
}

impl View for FsError {
    type V = FsErrorView;

    open spec fn view(&self) -> FsErrorView {
        match self {
            FsError::EmptyPath => FsErrorView::EmptyPath,
            FsError::InvalidPath(t) => FsErrorView::InvalidPath(t@),
            FsError::FileNotFound(t) => FsErrorView::FileNotFound(t@),
            FsError::IsDirectory(t) => FsErrorView::IsDirectory(t@),
            FsError::PermissionDenied(t) => FsErrorView::PermissionDenied(t@),
            FsError::OutOfWorkspace(t) => FsErrorView::OutOfWorkspace(t@),
            FsError::InvalidRelativePath(t) => FsErrorView::InvalidRelativePath(t@),
            FsError::Utf8(n) => FsErrorView::Utf8(*n),
            FsError::Io(f) => FsErrorView::Io(f@),
            FsError::Watch(t) => FsErrorView::Watch(t@),
            FsError::Lock => FsErrorView::Lock,
        }
    }
}

/// A copy of a failure.
pub fn copy_failure(f: &IoFailure) -> (out: IoFailure)
    ensures
        out@ == f@,
{
    IoFailure { permission_denied: f.permission_denied, message: f.message.clone() }
}

/// A copy of an error.
pub fn copy_error(e: &FsError) -> (out: FsError)
    ensures
        out@ == e@,
{
    match e {
        FsError::EmptyPath => FsError::EmptyPath,
        FsError::InvalidPath(t) => FsError::InvalidPath(t.clone()),
        FsError::FileNotFound(t) => FsError::FileNotFound(t.clone()),
        FsError::IsDirectory(t) => FsError::IsDirectory(t.clone()),
        FsError::PermissionDenied(t) => FsError::PermissionDenied(t.clone()),
        FsError::OutOfWorkspace(t) => FsError::OutOfWorkspace(t.clone()),
        FsError::InvalidRelativePath(t) => FsError::InvalidRelativePath(t.clone()),
        FsError::Utf8(n) => FsError::Utf8(*n),
        FsError::Io(f) => FsError::Io(copy_failure(f)),
        FsError::Watch(t) => FsError::Watch(t.clone()),
        FsError::Lock => FsError::Lock,
    }
}

/// The view of a result: of its value or of its error.
pub open spec fn outcome<T: View>(r: Result<T, FsError>) -> Result<T::V, FsErrorView> {
    match r {
        Ok(v) => Ok(v@),
        Err(e) => Err(e@),
    }
}

} // verus!
