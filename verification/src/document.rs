//! Opening and saving a document. A save goes through only when the file is
//! still at the version that the editor last saw.

use vstd::prelude::*;
use vstd::string::*;
use vstd::utf8::{
    decode_utf8, encode_utf8, encode_utf8_decode_utf8, encode_utf8_valid_utf8, valid_utf8,
};
use crate::error::{copy_failure, outcome, FsError, FsErrorView, IoFailure, IoFailureView};
use crate::model::{OpenFileResponse, OpenedView, SaveFileResponse, SavedView};
use crate::observe::PathKind;
use crate::path::{file_name, normalize_path, parent, parent_of};
use crate::text::is_blank;
use crate::version::{epoch_ms, hash_version, last_modified_epoch_ms, version_token};

verus! {

/// What the file system reports of a file: what lies at its path, its bytes
/// or the failure to read them, and from its metadata the time of its last
/// modification in milliseconds since the epoch, if they give one, or the
/// failure to read them.
#[derive(Debug, PartialEq, Eq)]
pub struct FileReport {
    pub kind: PathKind,
    pub bytes: Result<Vec<u8>, IoFailure>,
    pub modified: Result<Option<u128>, IoFailure>,
}

/// A report of a file with its values as sequences.
pub struct FileReportView {
    pub kind: PathKind,
    pub bytes: Result<Seq<u8>, IoFailureView>,
    pub modified: Result<Option<u128>, IoFailureView>,
}

/// The view of what reading the metadata gave.
pub open spec fn modified_view(modified: Result<Option<u128>, IoFailure>) -> Result<
    Option<u128>,
    IoFailureView,
> {
    match modified {
        Ok(m) => Ok(m),
        Err(f) => Err(f@),
    }
}

impl View for FileReport {
    type V = FileReportView;

    open spec fn view(&self) -> FileReportView {
        FileReportView {
            kind: self.kind,
            bytes: match self.bytes {
                Ok(b) => Ok(b@),
                Err(f) => Err(f@),
            },
            modified: modified_view(self.modified),
        }
    }
}

/// The path of a file that is to exist, given what lies there.
pub open spec fn existing_file(path: Seq<char>, kind: PathKind) -> Result<Seq<char>, FsErrorView> {
    if is_blank(path) {
        Err(FsErrorView::EmptyPath)
    } else if file_name(path) is None {
        Err(FsErrorView::InvalidPath(path))
    } else if kind == PathKind::Missing {
        Err(FsErrorView::FileNotFound(path))
    } else if kind == PathKind::Directory {
        Err(FsErrorView::IsDirectory(path))
    } else {
        Ok(path)
    }
}

/// Checks that `path` names a file that exists, where `kind` is what lies at
/// the path. Fails as `normalize_path` does, with `FileNotFound` when nothing
/// is there and with `IsDirectory` when a directory is.
pub fn normalize_existing_file(path: &str, kind: PathKind) -> (out: Result<String, FsError>)
    ensures
        outcome(out) == existing_file(path@, kind),
{
    let target = match normalize_path(path) {
        Err(e) => {
            return Err(e);
        },
        Ok(p) => p,
    };
    match kind {
        PathKind::Missing => Err(FsError::FileNotFound(target)),
        PathKind::Directory => Err(FsError::IsDirectory(target)),
        _ => Ok(target),
    }
}

/// The path of a file that is to be written, given what lies there and
/// whether its parent directory exists.
pub open spec fn write_target(path: Seq<char>, kind: PathKind, parent_exists: bool) -> Result<
    Seq<char>,
    FsErrorView,
> {
    if is_blank(path) {
        Err(FsErrorView::EmptyPath)
    } else if file_name(path) is None {
        Err(FsErrorView::InvalidPath(path))
    } else if kind == PathKind::Directory {
        Err(FsErrorView::IsDirectory(path))
    } else {
        match parent(path) {
            Some(dir) => if parent_exists {
                Ok(path)
            } else {
                Err(FsErrorView::InvalidPath("parent directory does not exist: "@ + dir))
            },
            None => Ok(path),
        }
    }
}

/// Checks that `path` names a file that can be written, where `kind` is what
/// lies at the path and `parent_exists` tells whether the parent of the path
/// exists. Fails as `normalize_path` does, with `IsDirectory` when the path
/// is a directory, and with `InvalidPath` when its parent is missing.
pub fn normalize_write_target(path: &str, kind: PathKind, parent_exists: bool) -> (out: Result<
    String,
    FsError,
>)
    ensures
        outcome(out) == write_target(path@, kind, parent_exists),
{
    let target = match normalize_path(path) {
        Err(e) => {
            return Err(e);
        },
        Ok(p) => p,
    };
    match kind {
        PathKind::Directory => {
            return Err(FsError::IsDirectory(target));
        },
        _ => {},
    }
    match parent_of(path) {
        Some(dir) => {
            if parent_exists {
                Ok(target)
            } else {
                Err(
                    FsError::InvalidPath(
                        String::from_str("parent directory does not exist: ").concat(dir.as_str()),
                    ),
                )
            }
        },
        None => Ok(target),
    }
}

/// Whether `n` is the length of the longest beginning of `bytes` that is
/// valid UTF-8.
pub open spec fn is_valid_up_to(bytes: Seq<u8>, n: int) -> bool {
    &&& 0 <= n <= bytes.len()
    &&& valid_utf8(bytes.take(n))
    &&& forall|m: int| n < m <= bytes.len() ==> !valid_utf8(#[trigger] bytes.take(m))
}

/// The length of the longest beginning of `bytes` that is valid UTF-8.
pub open spec fn valid_prefix(bytes: Seq<u8>) -> int {
    choose|n: int| is_valid_up_to(bytes, n)
}

/// There is one longest valid beginning.
pub proof fn lemma_valid_prefix(bytes: Seq<u8>, n: int)
    requires
        is_valid_up_to(bytes, n),
    ensures
        valid_prefix(bytes) == n,
{
    let k = valid_prefix(bytes);
    assert(is_valid_up_to(bytes, k));
    if k < n {
        assert(!valid_utf8(bytes.take(n)));
    } else if n < k {
        assert(!valid_utf8(bytes.take(k)));
    }
}

/// `std::str::from_utf8`: bytes that are valid UTF-8 give the text that they
/// encode; others give an error that tells the length of their longest valid
/// beginning.
#[verifier::external_body]
fn decode(bytes: &[u8]) -> (out: Result<String, usize>)
    ensures
        match out {
            Ok(text) => valid_utf8(bytes@) && encode_utf8(text@) == bytes@,
            Err(n) => !valid_utf8(bytes@) && is_valid_up_to(bytes@, n as int),
        },
{
    match std::str::from_utf8(bytes) {
        Ok(text) => Ok(text.to_owned()),
        Err(e) => Err(e.valid_up_to()),
    }
}

/// The document that opening `path` gives, from what the file system reports
/// of it.
pub open spec fn open_outcome(path: Seq<char>, report: FileReportView) -> Result<
    OpenedView,
    FsErrorView,
> {
    match existing_file(path, report.kind) {
        Err(e) => Err(e),
        Ok(p) => match report.bytes {
            Err(f) => Err(FsErrorView::Io(f)),
            Ok(bytes) => match report.modified {
                Err(f) => Err(FsErrorView::Io(f)),
                Ok(m) => if valid_utf8(bytes) {
                    Ok(
                        OpenedView {
                            path: p,
                            content: decode_utf8(bytes),
                            version: version_token(bytes, epoch_ms(m)),
                            last_modified: epoch_ms(m),
                        },
                    )
                } else {
                    Err(FsErrorView::Utf8(valid_prefix(bytes) as usize))
                },
            },
        },
    }
}

/// Opens the document at `path`, of which the file system reports `report`.
/// Gives its text, the time of its last modification and its version token.
/// Fails as `normalize_existing_file` does, with the failure to read the file
/// or its metadata, and with `Utf8` when the file does not hold UTF-8 text.
pub fn open_file(path: &str, report: &FileReport) -> (out: Result<OpenFileResponse, FsError>)
    ensures
        outcome(out) == open_outcome(path@, report@),
{
    let target = match normalize_existing_file(path, report.kind) {
        Err(e) => {
            return Err(e);
        },
        Ok(p) => p,
    };
    let bytes = match &report.bytes {
        Err(f) => {
            return Err(FsError::Io(copy_failure(f)));
        },
        Ok(b) => b,
    };
    let modified = match &report.modified {
        Err(f) => {
            return Err(FsError::Io(copy_failure(f)));
        },
        Ok(m) => *m,
    };
    match decode(bytes.as_slice()) {
        Err(n) => {
            proof {
                lemma_valid_prefix(bytes@, n as int);
            }
            Err(FsError::Utf8(n))
        },
        Ok(content) => {
            proof {
                encode_utf8_decode_utf8(content@);
            }
            let last_modified = last_modified_epoch_ms(modified);
            let version = hash_version(bytes.as_slice(), last_modified);
            Ok(OpenFileResponse { path: target, content, version, last_modified })
        },
    }
}

/// Opening a path that can name a file fails with `IsDirectory` when a
/// directory is there and with `FileNotFound` when nothing is, whatever else
/// is reported.
pub proof fn lemma_open_needs_a_file(path: Seq<char>, report: FileReportView)
    requires
        !is_blank(path),
        file_name(path) is Some,
    ensures
        report.kind == PathKind::Directory ==> open_outcome(path, report) == Err::<
            OpenedView,
            FsErrorView,
        >(FsErrorView::IsDirectory(path)),
        report.kind == PathKind::Missing ==> open_outcome(path, report) == Err::<
            OpenedView,
            FsErrorView,
        >(FsErrorView::FileNotFound(path)),
{
}

/// A write that a save has decided on: the bytes to put at the path.
#[derive(Debug, Clone, PartialEq, Eq)]
pub struct PendingWrite {
    pub path: String,
    pub bytes: Vec<u8>,
}

/// A write with its values as sequences.
pub struct PendingWriteView {
    pub path: Seq<char>,
    pub bytes: Seq<u8>,
}

impl View for PendingWrite {
    type V = PendingWriteView;

    open spec fn view(&self) -> PendingWriteView {
        PendingWriteView { path: self.path@, bytes: self.bytes@ }
    }
}

/// What a save decides: to report a conflict and leave the file alone, or to
/// write.
#[derive(Debug, Clone, PartialEq, Eq)]
pub enum SaveStep {
    Conflict(SaveFileResponse),
    Write(PendingWrite),
}

/// A decision of a save with its values as sequences.
pub enum SaveStepView {
    Conflict(SavedView),
    Write(PendingWriteView),
}

impl View for SaveStep {
    type V = SaveStepView;

    open spec fn view(&self) -> SaveStepView {
        match self {
            SaveStep::Conflict(r) => SaveStepView::Conflict(r@),
            SaveStep::Write(w) => SaveStepView::Write(w@),
        }
    }
}

/// What saving `content` at `path` decides, where the editor last saw the
/// version `expected_version`, from what the file system reports.
pub open spec fn save_outcome(
    path: Seq<char>,
    content: Seq<char>,
    expected_version: u64,
    report: FileReportView,
    parent_exists: bool,
) -> Result<SaveStepView, FsErrorView> {
    match write_target(path, report.kind, parent_exists) {
        Err(e) => Err(e),
        Ok(p) => if report.kind == PathKind::Missing {
            Err(FsErrorView::FileNotFound(p))
        } else {
            match report.bytes {
                Err(f) => Err(FsErrorView::Io(f)),
                Ok(bytes) => match report.modified {
                    Err(f) => Err(FsErrorView::Io(f)),
                    Ok(m) => {
                        let current = version_token(bytes, epoch_ms(m));
                        if current != expected_version {
                            Ok(
                                SaveStepView::Conflict(
                                    SavedView {
                                        path: p,
                                        version: current,
                                        bytes_written: 0,
                                        conflict: true,
                                    },
                                ),
                            )
                        } else {
                            Ok(
                                SaveStepView::Write(
                                    PendingWriteView { path: p, bytes: encode_utf8(content) },
                                ),
                            )
                        }
                    },
                },
            }
        },
    }
}

/// Decides on saving `content` at `path`. `expected_version` is the version
/// that the editor last saw, `report` what the file system reports of the
/// file now, and `parent_exists` whether the parent of the path exists.
///
/// When the file is no longer at the expected version the save is a conflict:
/// the result carries the current version, no byte is written, and nothing is
/// to be done to the file. Otherwise the content is to be written as it is.
/// Fails as `normalize_write_target` does, with `FileNotFound` when the file
/// does not exist, and with the failure to read the file or its metadata.
pub fn save_file(
    path: &str,
    content: &str,
    expected_version: u64,
    report: &FileReport,
    parent_exists: bool,
) -> (out: Result<SaveStep, FsError>)
    ensures
        outcome(out) == save_outcome(path@, content@, expected_version, report@, parent_exists),
{
    let target = match normalize_write_target(path, report.kind, parent_exists) {
        Err(e) => {
            return Err(e);
        },
        Ok(p) => p,
    };
    match report.kind {
        PathKind::Missing => {
            return Err(FsError::FileNotFound(target));
        },
        _ => {},
    }
    let bytes = match &report.bytes {
        Err(f) => {
            return Err(FsError::Io(copy_failure(f)));
        },
        Ok(b) => b,
    };
    let modified = match &report.modified {
        Err(f) => {
            return Err(FsError::Io(copy_failure(f)));
        },
        Ok(m) => *m,
    };
    let current_version = hash_version(bytes.as_slice(), last_modified_epoch_ms(modified));
    if current_version != expected_version {
        return Ok(
            SaveStep::Conflict(
                SaveFileResponse {
                    path: target,
                    version: current_version,
                    bytes_written: 0,
                    conflict: true,
                },
            ),
        );
    }
    Ok(SaveStep::Write(PendingWrite { path: target, bytes: content.as_bytes_vec() }))
}

/// What saving `content` at `path` without regard to versions decides.
pub open spec fn save_as_outcome(
    path: Seq<char>,
    content: Seq<char>,
    kind: PathKind,
    parent_exists: bool,
) -> Result<PendingWriteView, FsErrorView> {
    match write_target(path, kind, parent_exists) {
        Err(e) => Err(e),
        Ok(p) => Ok(PendingWriteView { path: p, bytes: encode_utf8(content) }),
    }
}

/// Decides on saving `content` at `path`, whether or not a file is there and
/// whatever its version: the content is to be written as it is. `kind` is
/// what lies at the path and `parent_exists` tells whether the parent of the
/// path exists. Fails as `normalize_write_target` does.
pub fn save_as_file(path: &str, content: &str, kind: PathKind, parent_exists: bool) -> (out: Result<
    PendingWrite,
    FsError,
>)
    ensures
        outcome(out) == save_as_outcome(path@, content@, kind, parent_exists),
{
    match normalize_write_target(path, kind, parent_exists) {
        Err(e) => Err(e),
        Ok(target) => Ok(PendingWrite { path: target, bytes: content.as_bytes_vec() }),
    }
}

/// The result of a save whose write went through, from the number of bytes
/// written and what the metadata of the file then gave.
pub open spec fn completed(
    pending: PendingWriteView,
    bytes_written: u64,
    modified: Result<Option<u128>, IoFailureView>,
) -> Result<SavedView, FsErrorView> {
    match modified {
        Err(f) => Err(FsErrorView::Io(f)),
        Ok(m) => Ok(
            SavedView {
                path: pending.path,
                version: version_token(pending.bytes, epoch_ms(m)),
                bytes_written: bytes_written,
                conflict: false,
            },
        ),
    }
}

/// Completes a save after its write went through: `bytes_written` is what the
/// write reported and `modified` what the metadata of the file give
/// afterwards. The result is no conflict and carries the version of what was
/// written. Fails with the failure to read the metadata.
pub fn complete_save(
    pending: &PendingWrite,
    bytes_written: u64,
    modified: &Result<Option<u128>, IoFailure>,
) -> (out: Result<SaveFileResponse, FsError>)
    ensures
        outcome(out) == completed(pending@, bytes_written, modified_view(*modified)),
{
    match modified {
        Err(f) => Err(FsError::Io(copy_failure(f))),
        Ok(m) => {
            let version = hash_version(pending.bytes.as_slice(), last_modified_epoch_ms(*m));
            Ok(
                SaveFileResponse {
                    path: pending.path.clone(),
                    version,
                    bytes_written,
                    conflict: false,
                },
            )
        },
    }
}

/// A save against a version that is not the current one is a conflict that
/// writes nothing: it carries the current version, and decides on no write.
pub proof fn lemma_stale_save_is_conflict(
    path: Seq<char>,
    content: Seq<char>,
    expected_version: u64,
    report: FileReportView,
    parent_exists: bool,
)
    requires
        save_outcome(path, content, expected_version, report, parent_exists) is Ok,
        report.bytes is Ok,
        report.modified is Ok,
        version_token(report.bytes->Ok_0, epoch_ms(report.modified->Ok_0)) != expected_version,
    ensures
        save_outcome(path, content, expected_version, report, parent_exists) matches Ok(
            SaveStepView::Conflict(saved),
        ) && saved.conflict && saved.bytes_written == 0 && saved.version == version_token(
            report.bytes->Ok_0,
            epoch_ms(report.modified->Ok_0),
        ),
{
}

/// A save against the current version writes the content as it is, and is no
/// conflict; opening the file afterwards gives the content back.
pub proof fn lemma_save_round_trip(
    path: Seq<char>,
    content: Seq<char>,
    report: FileReportView,
    parent_exists: bool,
    bytes_written: u64,
    after: Option<u128>,
)
    requires
        report.bytes is Ok,
        report.modified is Ok,
        save_outcome(
            path,
            content,
            version_token(report.bytes->Ok_0, epoch_ms(report.modified->Ok_0)),
            report,
            parent_exists,
        ) is Ok,
    ensures
        ({
            let expected = version_token(report.bytes->Ok_0, epoch_ms(report.modified->Ok_0));
            let written = FileReportView {
                kind: PathKind::File,
                bytes: Ok(encode_utf8(content)),
                modified: Ok(after),
            };
            &&& save_outcome(path, content, expected, report, parent_exists) matches Ok(
                SaveStepView::Write(pending),
            ) && pending.bytes == encode_utf8(content) && pending.path == path && (completed(
                pending,
                bytes_written,
                Ok(after),
            ) matches Ok(saved) && !saved.conflict && saved.bytes_written == bytes_written
                && (open_outcome(path, written) matches Ok(opened) && opened.content == content
                && opened.version == saved.version))
        }),
{
    encode_utf8_valid_utf8(content);
    encode_utf8_decode_utf8(content);
}

} // verus!
