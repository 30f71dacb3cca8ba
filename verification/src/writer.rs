//! Replacing the content of a file so that no reader ever sees a part of it:
//! the bytes go to a temporary file beside the target, which is then renamed
//! onto the target.
//!
//! The library decides what is done next; the caller does it and tells what
//! came of it.

use vstd::prelude::*;
use vstd::string::*;
use crate::containment::lemma_join_name;
use crate::error::{copy_error, outcome, FsError, FsErrorView, IoFailure, IoFailureView};
use crate::path::{
    file_name, file_name_of, is_plain_name, join, join_path, lemma_tokens, parent, parent_of,
    segments,
};
use crate::text::{
    append_chars, chars_of, decimal, decimal_chars, lemma_decimal, lemma_decimal_injective,
    lemma_same_middle, string_of,
};

verus! {

/// The name of the temporary file for the file `name`, made at the time
/// `stamp`.
pub open spec fn temp_name(name: Seq<char>, stamp: nat) -> Seq<char> {
    "."@ + name + ".ferrumnote-"@ + decimal(stamp) + ".tmp"@
}

/// The path of the temporary file for `path`: a file beside it, in the same
/// directory.
pub open spec fn temp_path_of(path: Seq<char>, stamp: nat) -> Result<Seq<char>, FsErrorView> {
    match parent(path) {
        None => Err(FsErrorView::InvalidPath(path)),
        Some(dir) => match file_name(path) {
            None => Err(FsErrorView::InvalidPath(path)),
            Some(name) => Ok(join(dir, temp_name(name, stamp))),
        },
    }
}

/// The path of the temporary file through which `path` is written, where
/// `stamp` is the time in nanoseconds since the epoch. Fails with
/// `InvalidPath` when the path has no parent or no file name.
pub fn temp_path(path: &str, stamp: u128) -> (out: Result<String, FsError>)
    ensures
        outcome(out) == temp_path_of(path@, stamp as nat),
{
    let dir = match parent_of(path) {
        None => {
            return Err(FsError::InvalidPath(String::from_str(path)));
        },
        Some(d) => d,
    };
    let name = match file_name_of(path) {
        None => {
            return Err(FsError::InvalidPath(String::from_str(path)));
        },
        Some(n) => n,
    };
    let mut text = chars_of(".");
    append_chars(&mut text, &chars_of(name.as_str()));
    append_chars(&mut text, &chars_of(".ferrumnote-"));
    append_chars(&mut text, &decimal_chars(stamp));
    append_chars(&mut text, &chars_of(".tmp"));
    let temp = string_of(&text);
    Ok(join_path(dir.as_str(), temp.as_str()))
}

/// The name of a temporary file is a plain name, longer than the name of the
/// file that it is for.
pub proof fn lemma_temp_name(name: Seq<char>, stamp: nat)
    requires
        is_plain_name(name),
    ensures
        is_plain_name(temp_name(name, stamp)),
        temp_name(name, stamp).len() > name.len() + 2,
{
    reveal_strlit(".");
    reveal_strlit(".ferrumnote-");
    reveal_strlit(".tmp");
    lemma_decimal(stamp);
    let dot = "."@;
    let mid = ".ferrumnote-"@;
    let end = ".tmp"@;
    let num = decimal(stamp);
    let t = temp_name(name, stamp);
    assert(t.len() == 1 + name.len() + 12 + num.len() + 4);
    assert forall|k: int| 0 <= k < t.len() implies #[trigger] t[k] != '/' by {
        if k < 1 {
            assert(t[k] == dot[k]);
        } else if k < 1 + name.len() {
            assert(t[k] == name[k - 1]);
        } else if k < 1 + name.len() + 12 {
            assert(t[k] == mid[k - 1 - name.len()]);
        } else if k < 1 + name.len() + 12 + num.len() {
            assert(t[k] == num[k - 13 - name.len()]);
        } else {
            assert(t[k] == end[k - 13 - name.len() - num.len()]);
        }
    }
    assert(seq!['.'].len() == 1);
    assert(seq!['.', '.'].len() == 2);
}

/// The temporary file lies beside the target and is another file: its
/// segments are those of the target's parent and then the temporary name.
pub proof fn lemma_temp_beside_target(path: Seq<char>, stamp: nat)
    requires
        temp_path_of(path, stamp) is Ok,
    ensures
        temp_path_of(path, stamp)->Ok_0 != path,
        file_name(temp_path_of(path, stamp)->Ok_0) == Some(
            temp_name(file_name(path)->Some_0, stamp),
        ),
        segments(temp_path_of(path, stamp)->Ok_0) == segments(parent(path)->Some_0).push(
            temp_name(file_name(path)->Some_0, stamp),
        ),
{
    let dir = parent(path)->Some_0;
    let name = file_name(path)->Some_0;
    lemma_tokens(path);
    assert(is_plain_name(name));
    lemma_temp_name(name, stamp);
    lemma_join_name(dir, temp_name(name, stamp));
}

/// Temporary files made for one file at different times have different
/// names, and so different paths.
pub proof fn lemma_temp_names_differ(path: Seq<char>, a: nat, b: nat)
    requires
        a != b,
        temp_path_of(path, a) is Ok,
    ensures
        temp_path_of(path, b) is Ok,
        temp_path_of(path, a)->Ok_0 != temp_path_of(path, b)->Ok_0,
{
    let dir = parent(path)->Some_0;
    let name = file_name(path)->Some_0;
    if temp_name(name, a) == temp_name(name, b) {
        lemma_same_middle("."@ + name + ".ferrumnote-"@, decimal(a), decimal(b), ".tmp"@);
        lemma_decimal_injective(a, b);
    }
    lemma_tokens(path);
    lemma_temp_name(name, a);
    lemma_temp_name(name, b);
    lemma_join_name(dir, temp_name(name, a));
    lemma_join_name(dir, temp_name(name, b));
}

/// The error for a failure to create the temporary file of `path`: a refusal
/// for want of permission is told apart from other failures.
pub open spec fn permission_error(err: IoFailureView, path: Seq<char>) -> FsErrorView {
    if err.permission_denied {
        FsErrorView::PermissionDenied(path)
    } else {
        FsErrorView::Io(err)
    }
}

/// The error for a failure to create the temporary file of `path`.
pub fn map_permission_err(err: IoFailure, path: &str) -> (out: FsError)
    ensures
        out@ == permission_error(err@, path@),
{
    if err.permission_denied {
        FsError::PermissionDenied(String::from_str(path))
    } else {
        FsError::Io(err)
    }
}

/// How far a write has come.
#[derive(Debug, Clone, PartialEq, Eq)]
pub enum WriteState {
    /// The temporary file is to be created; it must not exist yet.
    Create,
    /// The bytes are to be written to the temporary file.
    Fill,
    /// The temporary file is to be flushed to the disk.
    Sync,
    /// The temporary file is to be renamed onto the target.
    Rename,
    /// The rename failed: it is to be found out whether the target exists.
    Probe,
    /// The target is to be removed.
    Remove,
    /// The temporary file is to be renamed onto the target, now removed.
    RenameAgain,
    /// The write went through; the number is the count of bytes written.
    Done(u64),
    /// The write failed.
    Failed(FsError),
}

/// A state of a write with its texts as sequences of characters.
pub enum WriteStateView {
    Create,
    Fill,
    Sync,
    Rename,
    Probe,
    Remove,
    RenameAgain,
    Done(u64),
    Failed(FsErrorView),
}

impl View for WriteState {
    type V = WriteStateView;

    open spec fn view(&self) -> WriteStateView {
        match self {
            WriteState::Create => WriteStateView::Create,
            WriteState::Fill => WriteStateView::Fill,
            WriteState::Sync => WriteStateView::Sync,
            WriteState::Rename => WriteStateView::Rename,
            WriteState::Probe => WriteStateView::Probe,
            WriteState::Remove => WriteStateView::Remove,
            WriteState::RenameAgain => WriteStateView::RenameAgain,
            WriteState::Done(n) => WriteStateView::Done(*n),
            WriteState::Failed(e) => WriteStateView::Failed(e@),
        }
    }
}

/// What the caller is to do next.
#[derive(Debug, Clone, Copy, PartialEq, Eq, Structural)]
pub enum WriteAction {
    /// Create the temporary file, failing if it exists.
    CreateTemp,
    /// Write all the bytes to the temporary file.
    FillTemp,
    /// Flush the temporary file to the disk.
    SyncTemp,
    /// Rename the temporary file onto the target.
    RenameTemp,
    /// Find out whether the target exists.
    ProbeTarget,
    /// Remove the target.
    RemoveTarget,
    /// Nothing: the write has ended.
    Stop,
}

/// What came of an action.
#[derive(Debug, Clone, PartialEq, Eq)]
pub enum WriteEvent {
    /// It was done.
    Succeeded,
    /// It failed.
    Failed(IoFailure),
    /// The target exists, or it does not.
    Found(bool),
}

/// An event with its texts as sequences of characters.
pub enum WriteEventView {
    Succeeded,
    Failed(IoFailureView),
    Found(bool),
}

impl View for WriteEvent {
    type V = WriteEventView;

    open spec fn view(&self) -> WriteEventView {
        match self {
            WriteEvent::Succeeded => WriteEventView::Succeeded,
            WriteEvent::Failed(f) => WriteEventView::Failed(f@),
            WriteEvent::Found(b) => WriteEventView::Found(*b),
        }
    }
}

/// A write in progress: the target, the temporary file beside it, the bytes,
/// and how far it has come.
#[derive(Debug, Clone, PartialEq, Eq)]
pub struct AtomicWrite {
    pub target: String,
    pub temp: String,
    pub bytes: Vec<u8>,
    pub state: WriteState,
}

/// A write in progress with its values as sequences.
pub struct AtomicWriteView {
    pub target: Seq<char>,
    pub temp: Seq<char>,
    pub bytes: Seq<u8>,
    pub state: WriteStateView,
}

impl View for AtomicWrite {
    type V = AtomicWriteView;

    open spec fn view(&self) -> AtomicWriteView {
        AtomicWriteView {
            target: self.target@,
            temp: self.temp@,
            bytes: self.bytes@,
            state: self.state@,
        }
    }
}

/// The action that a state asks for.
pub open spec fn action_of(state: WriteStateView) -> WriteAction {
    match state {
        WriteStateView::Create => WriteAction::CreateTemp,
        WriteStateView::Fill => WriteAction::FillTemp,
        WriteStateView::Sync => WriteAction::SyncTemp,
        WriteStateView::Rename => WriteAction::RenameTemp,
        WriteStateView::Probe => WriteAction::ProbeTarget,
        WriteStateView::Remove => WriteAction::RemoveTarget,
        WriteStateView::RenameAgain => WriteAction::RenameTemp,
        WriteStateView::Done(_) => WriteAction::Stop,
        WriteStateView::Failed(_) => WriteAction::Stop,
    }
}

/// The failure reported when the rename failed and there is no target to
/// remove.
pub open spec fn rename_failure() -> IoFailureView {
    IoFailureView { permission_denied: false, message: "atomic rename failed"@ }
}

/// The state that follows `state` when its action ended in `event`, for the
/// target `target` and `count` bytes. An event that does not answer the
/// action leaves the state as it is.
pub open spec fn next_state(
    state: WriteStateView,
    event: WriteEventView,
    target: Seq<char>,
    count: u64,
) -> WriteStateView {
    match (state, event) {
        (WriteStateView::Create, WriteEventView::Succeeded) => WriteStateView::Fill,
        (WriteStateView::Create, WriteEventView::Failed(f)) => WriteStateView::Failed(
            permission_error(f, target),
        ),
        (WriteStateView::Fill, WriteEventView::Succeeded) => WriteStateView::Sync,
        (WriteStateView::Fill, WriteEventView::Failed(f)) => WriteStateView::Failed(
            FsErrorView::Io(f),
        ),
        (WriteStateView::Sync, WriteEventView::Succeeded) => WriteStateView::Rename,
        (WriteStateView::Sync, WriteEventView::Failed(f)) => WriteStateView::Failed(
            FsErrorView::Io(f),
        ),
        (WriteStateView::Rename, WriteEventView::Succeeded) => WriteStateView::Done(count),
        (WriteStateView::Rename, WriteEventView::Failed(_)) => WriteStateView::Probe,
        (WriteStateView::Probe, WriteEventView::Found(true)) => WriteStateView::Remove,
        (WriteStateView::Probe, WriteEventView::Found(false)) => WriteStateView::Failed(
            FsErrorView::Io(rename_failure()),
        ),
        (WriteStateView::Remove, WriteEventView::Succeeded) => WriteStateView::RenameAgain,
        (WriteStateView::Remove, WriteEventView::Failed(f)) => WriteStateView::Failed(
            FsErrorView::Io(f),
        ),
        (WriteStateView::RenameAgain, WriteEventView::Succeeded) => WriteStateView::Done(count),
        (WriteStateView::RenameAgain, WriteEventView::Failed(f)) => WriteStateView::Failed(
            FsErrorView::Io(f),
        ),
        (s, _) => s,
    }
}

/// The write of `bytes` to `path` at its beginning.
pub open spec fn begun(path: Seq<char>, bytes: Seq<u8>, stamp: nat) -> Result<
    AtomicWriteView,
    FsErrorView,
> {
    match temp_path_of(path, stamp) {
        Err(e) => Err(e),
        Ok(temp) => Ok(
            AtomicWriteView {
                target: path,
                temp: temp,
                bytes: bytes,
                state: WriteStateView::Create,
            },
        ),
    }
}

/// Begins the write of `bytes` to `path`, where `stamp` is the time in
/// nanoseconds since the epoch, which tells the temporary file from others.
/// Fails with `InvalidPath` when the path has no parent or no file name.
pub fn atomic_write(path: &str, bytes: Vec<u8>, stamp: u128) -> (out: Result<AtomicWrite, FsError>)
    ensures
        outcome(out) == begun(path@, bytes@, stamp as nat),
{
    match temp_path(path, stamp) {
        Err(e) => Err(e),
        Ok(temp) => Ok(
            AtomicWrite { target: String::from_str(path), temp, bytes, state: WriteState::Create },
        ),
    }
}

impl AtomicWrite {
    /// What is to be done next.
    pub fn action(&self) -> (action: WriteAction)
        ensures
            action == action_of(self@.state),
    {
        match &self.state {
            WriteState::Create => WriteAction::CreateTemp,
            WriteState::Fill => WriteAction::FillTemp,
            WriteState::Sync => WriteAction::SyncTemp,
            WriteState::Rename => WriteAction::RenameTemp,
            WriteState::Probe => WriteAction::ProbeTarget,
            WriteState::Remove => WriteAction::RemoveTarget,
            WriteState::RenameAgain => WriteAction::RenameTemp,
            WriteState::Done(_) => WriteAction::Stop,
            WriteState::Failed(_) => WriteAction::Stop,
        }
    }

    /// The write after its action ended in `event`.
    pub fn advance(self, event: WriteEvent) -> (next: AtomicWrite)
        ensures
            next@.target == self@.target,
            next@.temp == self@.temp,
            next@.bytes == self@.bytes,
            next@.state == next_state(
                self@.state,
                event@,
                self@.target,
                self@.bytes.len() as u64,
            ),
    {
        let count: u64 = self.bytes.len() as u64;
        let state = match (self.state, event) {
            (WriteState::Create, WriteEvent::Succeeded) => WriteState::Fill,
            (WriteState::Create, WriteEvent::Failed(f)) => WriteState::Failed(
                map_permission_err(f, self.target.as_str()),
            ),
            (WriteState::Fill, WriteEvent::Succeeded) => WriteState::Sync,
            (WriteState::Fill, WriteEvent::Failed(f)) => WriteState::Failed(FsError::Io(f)),
            (WriteState::Sync, WriteEvent::Succeeded) => WriteState::Rename,
            (WriteState::Sync, WriteEvent::Failed(f)) => WriteState::Failed(FsError::Io(f)),
            (WriteState::Rename, WriteEvent::Succeeded) => WriteState::Done(count),
            (WriteState::Rename, WriteEvent::Failed(_)) => WriteState::Probe,
            (WriteState::Probe, WriteEvent::Found(true)) => WriteState::Remove,
            (WriteState::Probe, WriteEvent::Found(false)) => WriteState::Failed(
                FsError::Io(
                    IoFailure {
                        permission_denied: false,
                        message: String::from_str("atomic rename failed"),
                    },
                ),
            ),
            (WriteState::Remove, WriteEvent::Succeeded) => WriteState::RenameAgain,
            (WriteState::Remove, WriteEvent::Failed(f)) => WriteState::Failed(FsError::Io(f)),
            (WriteState::RenameAgain, WriteEvent::Succeeded) => WriteState::Done(count),
            (WriteState::RenameAgain, WriteEvent::Failed(f)) => WriteState::Failed(FsError::Io(f)),
            (s, _) => s,
        };
        AtomicWrite { target: self.target, temp: self.temp, bytes: self.bytes, state }
    }

    /// How the write ended, if it has: the count of bytes written, or the
    /// error.
    pub fn result(&self) -> (out: Option<Result<u64, FsError>>)
        ensures
            match self@.state {
                WriteStateView::Done(n) => out == Some(Ok::<u64, FsError>(n)),
                WriteStateView::Failed(e) => out matches Some(Err(x)) && x@ == e,
                _ => out is None,
            },
    {
        match &self.state {
            WriteState::Done(n) => Some(Ok(*n)),
            WriteState::Failed(e) => Some(Err(copy_error(e))),
            _ => None,
        }
    }
}

/// The write `w` after its action ended in `event`.
pub open spec fn advanced(w: AtomicWriteView, event: WriteEventView) -> AtomicWriteView {
    AtomicWriteView {
        target: w.target,
        temp: w.temp,
        bytes: w.bytes,
        state: next_state(w.state, event, w.target, w.bytes.len() as u64),
    }
}

/// What the action of `w` does to the files when it ends in `event`, in a
/// file system where a rename happens at once or not at all: `before` and
/// `after` tell what each path holds. Only filling the temporary file can
/// leave a part of the bytes, and it leaves it in the temporary file.
pub open spec fn effect(
    w: AtomicWriteView,
    event: WriteEventView,
    before: Map<Seq<char>, Seq<u8>>,
    after: Map<Seq<char>, Seq<u8>>,
) -> bool {
    match (action_of(w.state), event) {
        (WriteAction::CreateTemp, WriteEventView::Succeeded) => !before.dom().contains(w.temp)
            && after == before.insert(w.temp, Seq::empty()),
        (WriteAction::FillTemp, WriteEventView::Succeeded) => after == before.insert(
            w.temp,
            w.bytes,
        ),
        (WriteAction::FillTemp, WriteEventView::Failed(_)) => exists|part: Seq<u8>|
            after == before.insert(w.temp, part),
        (WriteAction::RenameTemp, WriteEventView::Succeeded) => before.dom().contains(w.temp)
            && after == before.remove(w.temp).insert(w.target, before[w.temp]),
        (WriteAction::RemoveTarget, WriteEventView::Succeeded) => after == before.remove(
            w.target,
        ),
        _ => after == before,
    }
}

/// Whether the temporary file holds all the bytes in this state.
pub open spec fn temp_is_full(state: WriteStateView) -> bool {
    state is Sync || state is Rename || state is Probe || state is Remove || state is RenameAgain
}

/// The target is whole: it holds what it held before the write began, or all
/// the new bytes, or it is not there; never a part of the new bytes. Once the
/// write is done it holds the new bytes.
pub open spec fn target_is_whole(
    w: AtomicWriteView,
    earlier: Option<Seq<u8>>,
    files: Map<Seq<char>, Seq<u8>>,
) -> bool {
    &&& w.temp != w.target
    &&& (files.dom().contains(w.target) ==> files[w.target] == w.bytes || earlier == Some(
        files[w.target],
    ))
    &&& (temp_is_full(w.state) ==> files.dom().contains(w.temp) && files[w.temp] == w.bytes)
    &&& (w.state is Done ==> files.dom().contains(w.target) && files[w.target] == w.bytes)
}

/// A write begins with its target whole.
pub proof fn lemma_write_begins_whole(
    path: Seq<char>,
    bytes: Seq<u8>,
    stamp: nat,
    files: Map<Seq<char>, Seq<u8>>,
)
    requires
        begun(path, bytes, stamp) is Ok,
    ensures
        target_is_whole(
            begun(path, bytes, stamp)->Ok_0,
            if files.dom().contains(path) {
                Some(files[path])
            } else {
                None
            },
            files,
        ),
{
    lemma_temp_beside_target(path, stamp);
}

/// No step of a write leaves its target partly written: if the target is
/// whole before an action, it is whole after it, however the action ends.
/// So a write that is interrupted at any point leaves the target with its
/// old content, with all of the new, or absent.
pub proof fn lemma_write_keeps_target_whole(
    w: AtomicWriteView,
    event: WriteEventView,
    earlier: Option<Seq<u8>>,
    before: Map<Seq<char>, Seq<u8>>,
    after: Map<Seq<char>, Seq<u8>>,
)
    requires
        target_is_whole(w, earlier, before),
        effect(w, event, before, after),
    ensures
        target_is_whole(advanced(w, event), earlier, after),
{
}

} // verus!
