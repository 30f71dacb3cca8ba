use std::collections::HashMap;

use ferrumnote::document::{
    complete_save, open_file, save_as_file, save_file, FileReport, PendingWrite, SaveStep,
};
use ferrumnote::error::{FsError, IoFailure};
use ferrumnote::listing::list_workspace_entries;
use ferrumnote::model::WorkspaceEntryKind;
use ferrumnote::observe::{ChildMetadata, ChildReport, DirectoryChild, PathKind, PathReport};
use ferrumnote::writer::{atomic_write, AtomicWrite, WriteAction, WriteEvent, WriteState};

fn file(content: &str, modified_ms: u128) -> FileReport {
    FileReport {
        kind: PathKind::File,
        bytes: Ok(content.as_bytes().to_vec()),
        modified: Ok(Some(modified_ms)),
    }
}

fn missing() -> FileReport {
    FileReport { kind: PathKind::Missing, bytes: Ok(Vec::new()), modified: Ok(None) }
}

fn directory_report(canonical: &str) -> PathReport {
    PathReport { kind: PathKind::Directory, canonical: Ok(canonical.to_string()) }
}

fn child(dir: &str, name: &str, kind: PathKind) -> ChildReport {
    ChildReport::Entry(DirectoryChild {
        name: name.to_string(),
        canonical: Some(format!("{}/{}", dir, name)),
        metadata: Ok(ChildMetadata { kind, modified_at: 1_700_000_000_000 }),
    })
}

/// Carries a write out on files held in memory, every action succeeding.
fn run_to_end(mut write: AtomicWrite, files: &mut HashMap<String, Vec<u8>>) -> AtomicWrite {
    loop {
        let event = match write.action() {
            WriteAction::CreateTemp => {
                assert!(!files.contains_key(&write.temp));
                files.insert(write.temp.clone(), Vec::new());
                WriteEvent::Succeeded
            }
            WriteAction::FillTemp => {
                files.insert(write.temp.clone(), write.bytes.clone());
                WriteEvent::Succeeded
            }
            WriteAction::SyncTemp => WriteEvent::Succeeded,
            WriteAction::RenameTemp => {
                let bytes = files.remove(&write.temp).unwrap();
                files.insert(write.target.clone(), bytes);
                WriteEvent::Succeeded
            }
            WriteAction::ProbeTarget => WriteEvent::Found(files.contains_key(&write.target)),
            WriteAction::RemoveTarget => {
                files.remove(&write.target);
                WriteEvent::Succeeded
            }
            WriteAction::Stop => return write,
        };
        write = write.advance(event);
    }
}

#[test]
fn save_file_returns_conflict_when_expected_version_is_stale() {
    let path = "/tmp/notes/doc.md";
    let open = open_file(path, &file("first", 1_000)).expect("open should work");

    let changed = file("external change", 2_000);
    let save = save_file(path, "local draft", open.version, &changed, true)
        .expect("save should return conflict payload");

    match save {
        SaveStep::Conflict(save) => {
            assert!(save.conflict);
            assert_eq!(save.bytes_written, 0);
        }
        SaveStep::Write(_) => panic!("a stale version must not be written"),
    }
}

#[test]
fn save_as_file_writes_content_atomically() {
    let path = "/tmp/notes/fresh.md";
    let mut files: HashMap<String, Vec<u8>> = HashMap::new();

    let pending = save_as_file(path, "hello markdown", PathKind::Missing, true)
        .expect("save_as should succeed");
    let write = atomic_write(&pending.path, pending.bytes.clone(), 42).expect("write begins");
    let write = run_to_end(write, &mut files);
    let written = write.result().expect("write ended").expect("write went through");
    let save = complete_save(&pending, written, &Ok(Some(5_000))).expect("save completes");

    assert!(!save.conflict);
    assert!(save.bytes_written > 0);
    let current = String::from_utf8(files.get(path).unwrap().clone()).unwrap();
    assert_eq!(current, "hello markdown");
    assert_eq!(files.len(), 1);
}

#[test]
fn open_file_rejects_directory_path() {
    let report = FileReport {
        kind: PathKind::Directory,
        bytes: Err(IoFailure { permission_denied: false, message: "is a directory".to_string() }),
        modified: Ok(Some(0)),
    };
    let err = open_file("/tmp/notes", &report).expect_err("directory path must fail");

    assert!(matches!(err, FsError::IsDirectory(_)));
}

#[test]
fn save_as_file_rejects_empty_path() {
    let err = save_as_file("", "draft", PathKind::Missing, false)
        .expect_err("empty path should fail");
    assert!(matches!(err, FsError::EmptyPath));
}

#[test]
fn save_as_file_rejects_missing_parent_directory() {
    let err = save_as_file("/tmp/notes/missing/doc.md", "draft", PathKind::Missing, false)
        .expect_err("missing parent should fail");

    assert!(matches!(err, FsError::InvalidPath(_)));
}

#[test]
fn list_workspace_entries_filters_and_sorts_markdown_entries() {
    let root = "/tmp/workspace";
    let children = Ok(vec![
        child(root, "zeta-dir", PathKind::Directory),
        child(root, "alpha-dir", PathKind::Directory),
        child(root, "note.md", PathKind::File),
        child(root, "guide.markdown", PathKind::File),
        child(root, "readme.txt", PathKind::File),
    ]);

    let listed = list_workspace_entries(
        root,
        None,
        &directory_report(root),
        &directory_report(root),
        &children,
    )
    .expect("listing should succeed");

    assert_eq!(listed.current_relative_path, "");
    let names = listed.entries.iter().map(|entry| entry.name.as_str()).collect::<Vec<_>>();
    assert_eq!(names, vec!["alpha-dir", "zeta-dir", "guide.markdown", "note.md"]);
    assert_eq!(listed.entries[0].kind, WorkspaceEntryKind::Directory);
    assert_eq!(listed.entries[2].kind, WorkspaceEntryKind::Markdown);
}

#[test]
fn list_workspace_entries_rejects_out_of_workspace_relative_path() {
    let root = "/tmp/workspace";
    let outside = directory_report("/tmp/outside");

    let err = list_workspace_entries(
        root,
        Some("../outside"),
        &directory_report(root),
        &outside,
        &Ok(Vec::new()),
    )
    .expect_err("relative path escape should fail");

    assert!(matches!(err, FsError::OutOfWorkspace(_)));
}

#[test]
fn list_workspace_entries_rejects_non_directory_workspace_root() {
    let root_file = "/tmp/workspace.md";
    let report = PathReport { kind: PathKind::File, canonical: Ok(root_file.to_string()) };

    let err = list_workspace_entries(root_file, None, &report, &report, &Ok(Vec::new()))
        .expect_err("file root should fail");

    assert!(matches!(err, FsError::InvalidPath(_)));
}

#[test]
fn list_workspace_entries_keeps_symlink_alias_for_current_relative_path() {
    let root = "/tmp/workspace";
    let docs = "/tmp/workspace/docs";
    let children = Ok(vec![child(docs, "note.md", PathKind::File)]);

    let listed = list_workspace_entries(
        root,
        Some("link"),
        &directory_report(root),
        &directory_report(docs),
        &children,
    )
    .expect("listing through symlink alias should succeed");

    assert_eq!(listed.current_relative_path, "link");
    assert_eq!(listed.entries.len(), 1);
    assert_eq!(listed.entries[0].relative_path, "link/note.md");
    assert_eq!(listed.entries[0].absolute_path, "/tmp/workspace/link/note.md");
}

#[test]
fn open_file_fails_on_a_missing_path() {
    let err = open_file("/tmp/notes/none.md", &missing()).expect_err("missing path must fail");
    assert_eq!(err, FsError::FileNotFound("/tmp/notes/none.md".to_string()));
}

#[test]
fn open_file_gives_content_version_and_time() {
    let opened = open_file("/tmp/notes/doc.md", &file("caf\u{e9}", 1_234)).expect("open works");
    assert_eq!(opened.path, "/tmp/notes/doc.md");
    assert_eq!(opened.content, "caf\u{e9}");
    assert_eq!(opened.last_modified, 1_234);
    assert_eq!(opened.version, ferrumnote::version::hash_version("caf\u{e9}".as_bytes(), 1_234));
}

#[test]
fn open_file_rejects_bytes_that_are_not_utf8() {
    let report = FileReport {
        kind: PathKind::File,
        bytes: Ok(vec![b'o', b'k', 0xff, b'x']),
        modified: Ok(Some(1)),
    };
    assert_eq!(open_file("/tmp/notes/doc.md", &report), Err(FsError::Utf8(2)));

    let cut = FileReport {
        kind: PathKind::File,
        bytes: Ok(vec![b'a', 0xe2, 0x82]),
        modified: Ok(Some(1)),
    };
    assert_eq!(open_file("/tmp/notes/doc.md", &cut), Err(FsError::Utf8(1)));
}

#[test]
fn open_file_reports_failures_of_the_file_system() {
    let denied = IoFailure { permission_denied: true, message: "permission denied".to_string() };
    let unreadable = FileReport {
        kind: PathKind::File,
        bytes: Err(denied.clone()),
        modified: Ok(Some(1)),
    };
    assert_eq!(open_file("/tmp/notes/doc.md", &unreadable), Err(FsError::Io(denied.clone())));

    let no_metadata = FileReport {
        kind: PathKind::File,
        bytes: Ok(b"text".to_vec()),
        modified: Err(denied.clone()),
    };
    assert_eq!(open_file("/tmp/notes/doc.md", &no_metadata), Err(FsError::Io(denied)));
}

#[test]
fn open_file_takes_a_missing_time_as_zero() {
    let report = FileReport { kind: PathKind::File, bytes: Ok(b"x".to_vec()), modified: Ok(None) };
    let opened = open_file("/tmp/notes/doc.md", &report).expect("open works");
    assert_eq!(opened.last_modified, 0);
}

#[test]
fn save_file_with_the_current_version_writes_the_content() {
    let path = "/tmp/notes/doc.md";
    let now = file("first", 1_000);
    let open = open_file(path, &now).expect("open should work");
    let mut files: HashMap<String, Vec<u8>> = HashMap::new();
    files.insert(path.to_string(), b"first".to_vec());

    let step = save_file(path, "second \u{2713}", open.version, &now, true).expect("save decides");
    let pending = match step {
        SaveStep::Write(pending) => pending,
        SaveStep::Conflict(_) => panic!("the version is current"),
    };
    assert_eq!(
        pending,
        PendingWrite { path: path.to_string(), bytes: "second \u{2713}".as_bytes().to_vec() }
    );

    let write = atomic_write(&pending.path, pending.bytes.clone(), 7).expect("write begins");
    let write = run_to_end(write, &mut files);
    let written = write.result().expect("write ended").expect("write went through");
    assert_eq!(written, "second \u{2713}".len() as u64);
    let save = complete_save(&pending, written, &Ok(Some(2_000))).expect("save completes");
    assert!(!save.conflict);
    assert_eq!(save.bytes_written, written);
    assert_eq!(save.path, path);

    let after = FileReport {
        kind: PathKind::File,
        bytes: Ok(files.get(path).unwrap().clone()),
        modified: Ok(Some(2_000)),
    };
    let reopened = open_file(path, &after).expect("open should work");
    assert_eq!(reopened.content, "second \u{2713}");
    assert_eq!(reopened.version, save.version);
}

#[test]
fn save_file_with_a_stale_version_leaves_the_file_alone() {
    let path = "/tmp/notes/doc.md";
    let now = file("changed elsewhere", 3_000);
    let current = ferrumnote::version::hash_version(b"changed elsewhere", 3_000);
    for stale in [0u64, 1, current.wrapping_add(1), current.wrapping_sub(1), !current] {
        let step = save_file(path, "draft", stale, &now, true).expect("a conflict is no error");
        match step {
            SaveStep::Conflict(save) => {
                assert!(save.conflict);
                assert_eq!(save.bytes_written, 0);
                assert_eq!(save.version, current);
                assert_eq!(save.path, path);
            }
            SaveStep::Write(_) => panic!("a stale version must not be written"),
        }
    }
}

#[test]
fn save_file_needs_a_file_that_exists() {
    let err = save_file("/tmp/notes/new.md", "draft", 0, &missing(), true)
        .expect_err("save needs a file");
    assert_eq!(err, FsError::FileNotFound("/tmp/notes/new.md".to_string()));
}

#[test]
fn save_file_rejects_directories_and_missing_parents() {
    let dir = FileReport { kind: PathKind::Directory, bytes: Ok(Vec::new()), modified: Ok(None) };
    assert_eq!(
        save_file("/tmp/notes", "draft", 0, &dir, true),
        Err(FsError::IsDirectory("/tmp/notes".to_string()))
    );
    assert_eq!(
        save_file("/tmp/gone/doc.md", "draft", 0, &missing(), false),
        Err(FsError::InvalidPath("parent directory does not exist: /tmp/gone".to_string()))
    );
    assert_eq!(
        save_file("doc.md", "draft", 0, &missing(), false),
        Err(FsError::InvalidPath("parent directory does not exist: ".to_string()))
    );
    assert_eq!(save_file("  ", "draft", 0, &missing(), true), Err(FsError::EmptyPath));
    assert_eq!(
        save_file("/tmp/..", "draft", 0, &missing(), true),
        Err(FsError::InvalidPath("/tmp/..".to_string()))
    );
}

#[test]
fn complete_save_reports_a_failure_to_read_the_metadata() {
    let pending = PendingWrite { path: "/tmp/a.md".to_string(), bytes: b"abc".to_vec() };
    let failure = IoFailure { permission_denied: false, message: "gone".to_string() };
    assert_eq!(complete_save(&pending, 3, &Err(failure.clone())), Err(FsError::Io(failure)));
}

#[test]
fn a_write_that_cannot_create_its_temporary_file_fails() {
    let write = atomic_write("/tmp/notes/doc.md", b"new".to_vec(), 1).expect("write begins");
    let denied = IoFailure { permission_denied: true, message: "denied".to_string() };
    let write = write.advance(WriteEvent::Failed(denied));
    assert_eq!(write.action(), WriteAction::Stop);
    assert_eq!(
        write.result(),
        Some(Err(FsError::PermissionDenied("/tmp/notes/doc.md".to_string())))
    );

    let write = atomic_write("/tmp/notes/doc.md", b"new".to_vec(), 1).expect("write begins");
    let exists = IoFailure { permission_denied: false, message: "file exists".to_string() };
    let write = write.advance(WriteEvent::Failed(exists.clone()));
    assert_eq!(write.result(), Some(Err(FsError::Io(exists))));
}

#[test]
fn a_write_goes_through_its_steps_in_order() {
    let mut write = atomic_write("/tmp/notes/doc.md", b"12345".to_vec(), 9).expect("begins");
    assert_eq!(write.target, "/tmp/notes/doc.md");
    assert_eq!(write.temp, "/tmp/notes/.doc.md.ferrumnote-9.tmp");
    let mut actions = Vec::new();
    while write.result().is_none() {
        actions.push(write.action());
        write = write.advance(WriteEvent::Succeeded);
    }
    assert_eq!(
        actions,
        vec![
            WriteAction::CreateTemp,
            WriteAction::FillTemp,
            WriteAction::SyncTemp,
            WriteAction::RenameTemp
        ]
    );
    assert_eq!(write.result(), Some(Ok(5)));
    assert_eq!(write.state, WriteState::Done(5));
}

#[test]
fn a_write_reports_failures_to_fill_and_to_flush() {
    let failure = IoFailure { permission_denied: false, message: "disk full".to_string() };
    let write = atomic_write("/tmp/notes/doc.md", b"new".to_vec(), 1).expect("begins");
    let write = write.advance(WriteEvent::Succeeded).advance(WriteEvent::Failed(failure.clone()));
    assert_eq!(write.result(), Some(Err(FsError::Io(failure.clone()))));

    let denied = IoFailure { permission_denied: true, message: "denied".to_string() };
    let write = atomic_write("/tmp/notes/doc.md", b"new".to_vec(), 1).expect("begins");
    let write = write
        .advance(WriteEvent::Succeeded)
        .advance(WriteEvent::Succeeded)
        .advance(WriteEvent::Failed(denied.clone()));
    assert_eq!(write.result(), Some(Err(FsError::Io(denied))));
}

#[test]
fn a_rename_that_fails_falls_back_on_removing_the_target() {
    let failure = IoFailure { permission_denied: false, message: "busy".to_string() };
    let write = atomic_write("/tmp/notes/doc.md", b"new".to_vec(), 1).expect("begins");
    let write = write
        .advance(WriteEvent::Succeeded)
        .advance(WriteEvent::Succeeded)
        .advance(WriteEvent::Succeeded)
        .advance(WriteEvent::Failed(failure.clone()));
    assert_eq!(write.action(), WriteAction::ProbeTarget);
    let write = write.advance(WriteEvent::Found(true));
    assert_eq!(write.action(), WriteAction::RemoveTarget);
    let write = write.advance(WriteEvent::Succeeded);
    assert_eq!(write.action(), WriteAction::RenameTemp);
    let done = write.clone().advance(WriteEvent::Succeeded);
    assert_eq!(done.result(), Some(Ok(3)));
    let failed = write.advance(WriteEvent::Failed(failure.clone()));
    assert_eq!(failed.result(), Some(Err(FsError::Io(failure))));
}

#[test]
fn a_rename_that_fails_without_a_target_is_a_failure() {
    let failure = IoFailure { permission_denied: false, message: "busy".to_string() };
    let write = atomic_write("/tmp/notes/doc.md", b"new".to_vec(), 1).expect("begins");
    let write = write
        .advance(WriteEvent::Succeeded)
        .advance(WriteEvent::Succeeded)
        .advance(WriteEvent::Succeeded)
        .advance(WriteEvent::Failed(failure))
        .advance(WriteEvent::Found(false));
    assert_eq!(
        write.result(),
        Some(Err(FsError::Io(IoFailure {
            permission_denied: false,
            message: "atomic rename failed".to_string()
        })))
    );
}

#[test]
fn a_failure_to_remove_the_target_ends_the_write() {
    let failure = IoFailure { permission_denied: false, message: "busy".to_string() };
    let write = atomic_write("/tmp/notes/doc.md", b"new".to_vec(), 1).expect("begins");
    let write = write
        .advance(WriteEvent::Succeeded)
        .advance(WriteEvent::Succeeded)
        .advance(WriteEvent::Succeeded)
        .advance(WriteEvent::Failed(failure.clone()))
        .advance(WriteEvent::Found(true))
        .advance(WriteEvent::Failed(failure.clone()));
    assert_eq!(write.result(), Some(Err(FsError::Io(failure))));
}

#[test]
fn an_event_that_does_not_answer_the_action_changes_nothing() {
    let write = atomic_write("/tmp/notes/doc.md", b"new".to_vec(), 1).expect("begins");
    let same = write.clone().advance(WriteEvent::Found(true));
    assert_eq!(same, write);
    let done = run_to_end(write, &mut HashMap::new());
    let still = done.clone().advance(WriteEvent::Succeeded);
    assert_eq!(still, done);
}

#[test]
fn an_interrupted_write_never_leaves_the_target_partly_written() {
    let path = "/tmp/notes/doc.md";
    let old = b"old content".to_vec();
    let new = b"brand new content".to_vec();
    for stop_after in 0..6 {
        let mut files: HashMap<String, Vec<u8>> = HashMap::new();
        files.insert(path.to_string(), old.clone());
        let mut write = atomic_write(path, new.clone(), 11).expect("begins");
        let mut steps = 0;
        while steps < stop_after && write.result().is_none() {
            let event = match write.action() {
                WriteAction::CreateTemp => {
                    files.insert(write.temp.clone(), Vec::new());
                    WriteEvent::Succeeded
                }
                WriteAction::FillTemp => {
                    files.insert(write.temp.clone(), write.bytes.clone());
                    WriteEvent::Succeeded
                }
                WriteAction::RenameTemp => {
                    let bytes = files.remove(&write.temp).unwrap();
                    files.insert(write.target.clone(), bytes);
                    WriteEvent::Succeeded
                }
                _ => WriteEvent::Succeeded,
            };
            write = write.advance(event);
            steps += 1;
        }
        let target = files.get(path).expect("the target is there");
        assert!(*target == old || *target == new, "after {} steps", stop_after);
        if write.result() == Some(Ok(new.len() as u64)) {
            assert_eq!(*target, new);
        } else {
            assert_eq!(*target, old);
        }
    }
}

#[test]
fn a_partly_filled_temporary_file_leaves_the_target_as_it_was() {
    let path = "/tmp/notes/doc.md";
    let mut files: HashMap<String, Vec<u8>> = HashMap::new();
    files.insert(path.to_string(), b"old".to_vec());
    let write = atomic_write(path, b"new content".to_vec(), 3).expect("begins");
    files.insert(write.temp.clone(), Vec::new());
    let write = write.advance(WriteEvent::Succeeded);
    files.insert(write.temp.clone(), b"new c".to_vec());
    let failure = IoFailure { permission_denied: false, message: "interrupted".to_string() };
    let write = write.advance(WriteEvent::Failed(failure.clone()));
    assert_eq!(write.result(), Some(Err(FsError::Io(failure))));
    assert_eq!(files.get(path).unwrap(), b"old");
    assert_ne!(write.temp, write.target);
}

#[test]
fn atomic_write_needs_a_file_name() {
    assert_eq!(
        atomic_write("/", b"x".to_vec(), 1),
        Err(FsError::InvalidPath("/".to_string()))
    );
    assert_eq!(atomic_write("", b"x".to_vec(), 1), Err(FsError::InvalidPath(String::new())));
    assert_eq!(
        atomic_write("a/..", b"x".to_vec(), 1),
        Err(FsError::InvalidPath("a/..".to_string()))
    );
}
