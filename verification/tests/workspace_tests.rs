use std::path::{Component, Path, PathBuf};

use ferrumnote::error::{FsError, IoFailure};
use ferrumnote::listing::{entry_kind_rank, list_workspace_entries};
use ferrumnote::model::{WorkspaceEntry, WorkspaceEntryKind};
use ferrumnote::observe::{ChildMetadata, ChildReport, DirectoryChild, PathKind, PathReport};
use ferrumnote::path::path_starts_with;
use ferrumnote::workspace::{
    normalize_relative_path, normalize_workspace_root, resolve_workspace_relative_path,
    workspace_candidate,
};

fn directory(canonical: &str) -> PathReport {
    PathReport { kind: PathKind::Directory, canonical: Ok(canonical.to_string()) }
}

fn gone() -> PathReport {
    PathReport { kind: PathKind::Missing, canonical: Ok(String::new()) }
}

fn entry(dir: &str, name: &str, kind: PathKind, modified_at: u64) -> ChildReport {
    ChildReport::Entry(DirectoryChild {
        name: name.to_string(),
        canonical: Some(format!("{}/{}", dir, name)),
        metadata: Ok(ChildMetadata { kind, modified_at }),
    })
}

fn names(entries: &[WorkspaceEntry]) -> Vec<&str> {
    entries.iter().map(|e| e.name.as_str()).collect()
}

/// The walk over the components of a relative path, by the standard library.
fn reference_walk(relative: &str) -> Result<String, FsError> {
    let mut normalized = PathBuf::new();
    for component in Path::new(relative).components() {
        match component {
            Component::CurDir => {}
            Component::Normal(value) => normalized.push(value),
            Component::ParentDir => {
                if !normalized.pop() {
                    return Err(FsError::OutOfWorkspace(relative.to_string()));
                }
            }
            Component::RootDir | Component::Prefix(_) => {
                return Err(FsError::InvalidRelativePath(relative.to_string()));
            }
        }
    }
    Ok(normalized.to_str().unwrap().to_string())
}

fn relative_samples() -> Vec<&'static str> {
    vec![
        "", ".", "..", "a", "a/b", "a/../b", "a/..", "a/../..", "../a", "a/./b/../c", "./a",
        "/a", "/", "a//b/", "a/b/../../c", "a/b/../../../c", "docs/notes/x.md", "..a/b",
        "a/.../b", "./..", "a/./..", "link", "../outside", "x/../../outside", "././.",
        "a/b/c/../../../d", "a/b/c/../../../../d", " a/b ", "a /../b",
    ]
}

#[test]
fn relative_paths_are_walked_as_the_standard_library_walks_them() {
    for relative in relative_samples() {
        assert_eq!(normalize_relative_path(relative), reference_walk(relative), "{:?}", relative);
    }
}

#[test]
fn a_relative_path_that_goes_above_its_start_is_out_of_the_workspace() {
    for relative in ["..", "../a", "a/../..", "a/b/../../..", "./..", "x/../../outside"] {
        assert_eq!(
            normalize_relative_path(relative),
            Err(FsError::OutOfWorkspace(relative.to_string()))
        );
        assert_eq!(
            workspace_candidate("/ws", Some(relative)),
            Err(FsError::OutOfWorkspace(relative.to_string()))
        );
        assert_eq!(
            resolve_workspace_relative_path("/ws", Some(relative), &directory("/outside")),
            Err(FsError::OutOfWorkspace(relative.to_string()))
        );
    }
}

#[test]
fn a_relative_path_that_stays_inside_resolves_below_the_root() {
    for (relative, expected) in [
        ("docs", "/ws/docs"),
        ("docs/notes", "/ws/docs/notes"),
        ("docs/../notes", "/ws/notes"),
        ("./docs/./a/..", "/ws/docs"),
        ("  docs  ", "/ws/docs"),
        ("docs//notes/", "/ws/docs/notes"),
    ] {
        assert_eq!(
            workspace_candidate("/ws", Some(relative)),
            Ok(Some(expected.to_string())),
            "{:?}",
            relative
        );
        assert!(path_starts_with(expected, "/ws"));
        assert_eq!(
            resolve_workspace_relative_path("/ws", Some(relative), &directory(expected)),
            Ok(expected.to_string())
        );
    }
}

#[test]
fn a_blank_relative_path_names_the_root() {
    for relative in [None, Some(""), Some("   "), Some("."), Some("a/.."), Some("\t")] {
        assert_eq!(workspace_candidate("/ws", relative), Ok(None), "{:?}", relative);
        assert_eq!(
            resolve_workspace_relative_path("/ws", relative, &gone()),
            Ok("/ws".to_string())
        );
    }
}

#[test]
fn an_absolute_relative_path_is_rejected() {
    assert_eq!(
        workspace_candidate("/ws", Some("/etc")),
        Err(FsError::InvalidRelativePath("/etc".to_string()))
    );
    assert_eq!(
        workspace_candidate("/ws", Some("  /etc  ")),
        Err(FsError::InvalidRelativePath("/etc".to_string()))
    );
    assert_eq!(
        normalize_relative_path("/etc"),
        Err(FsError::InvalidRelativePath("/etc".to_string()))
    );
}

#[test]
fn resolving_needs_the_path_to_exist_within_the_root() {
    assert_eq!(
        resolve_workspace_relative_path("/ws", Some("docs"), &gone()),
        Err(FsError::FileNotFound("/ws/docs".to_string()))
    );
    assert_eq!(
        resolve_workspace_relative_path("/ws", Some("link"), &directory("/elsewhere/docs")),
        Err(FsError::OutOfWorkspace("/elsewhere/docs".to_string()))
    );
    assert_eq!(
        resolve_workspace_relative_path("/ws", Some("link"), &directory("/wsx/docs")),
        Err(FsError::OutOfWorkspace("/wsx/docs".to_string()))
    );
    let failure = IoFailure { permission_denied: true, message: "denied".to_string() };
    let unresolved = PathReport { kind: PathKind::Directory, canonical: Err(failure.clone()) };
    assert_eq!(
        resolve_workspace_relative_path("/ws", Some("docs"), &unresolved),
        Err(FsError::Io(failure))
    );
}

#[test]
fn the_workspace_root_must_be_a_directory_that_exists() {
    assert_eq!(
        normalize_workspace_root("", &directory("/ws")),
        Err(FsError::InvalidPath("workspace root is empty".to_string()))
    );
    assert_eq!(
        normalize_workspace_root(" \n", &directory("/ws")),
        Err(FsError::InvalidPath("workspace root is empty".to_string()))
    );
    assert_eq!(
        normalize_workspace_root("/nowhere", &gone()),
        Err(FsError::InvalidPath("workspace root does not exist: /nowhere".to_string()))
    );
    let a_file = PathReport { kind: PathKind::File, canonical: Ok("/ws.md".to_string()) };
    assert_eq!(
        normalize_workspace_root("/ws.md", &a_file),
        Err(FsError::InvalidPath("workspace root is not a directory: /ws.md".to_string()))
    );
    assert_eq!(
        normalize_workspace_root("/tmp/../ws/", &directory("/ws")),
        Ok("/ws".to_string())
    );
    let failure = IoFailure { permission_denied: false, message: "loop".to_string() };
    let unresolved = PathReport { kind: PathKind::Directory, canonical: Err(failure.clone()) };
    assert_eq!(normalize_workspace_root("/ws", &unresolved), Err(FsError::Io(failure)));
}

#[test]
fn directories_rank_before_files() {
    assert_eq!(entry_kind_rank(&WorkspaceEntryKind::Directory), 0);
    assert_eq!(entry_kind_rank(&WorkspaceEntryKind::Markdown), 1);
}

#[test]
fn a_listing_orders_by_kind_then_name_without_then_with_case() {
    let root = "/ws";
    let children = Ok(vec![
        entry(root, "b.md", PathKind::File, 1),
        entry(root, "B.md", PathKind::File, 2),
        entry(root, "a.md", PathKind::File, 3),
        entry(root, "Zeta", PathKind::Directory, 4),
        entry(root, "alpha", PathKind::Directory, 5),
        entry(root, "A.md", PathKind::File, 6),
        entry(root, "\u{c9}cole.md", PathKind::File, 7),
        entry(root, "\u{e9}cole.md", PathKind::File, 8),
        entry(root, "zz.markdown", PathKind::File, 9),
        entry(root, "Beta", PathKind::Directory, 10),
    ]);
    let listed =
        list_workspace_entries(root, None, &directory(root), &directory(root), &children).unwrap();
    assert_eq!(
        names(&listed.entries),
        vec![
            "alpha", "Beta", "Zeta", "A.md", "a.md", "B.md", "b.md", "zz.markdown",
            "\u{c9}cole.md", "\u{e9}cole.md"
        ]
    );
    let mut expected = listed.entries.clone();
    expected.sort_by(|left, right| {
        entry_kind_rank(&left.kind)
            .cmp(&entry_kind_rank(&right.kind))
            .then_with(|| left.name.to_lowercase().cmp(&right.name.to_lowercase()))
            .then_with(|| left.name.cmp(&right.name))
    });
    assert_eq!(listed.entries, expected);
}

#[test]
fn entries_that_the_order_does_not_tell_apart_keep_their_order() {
    let root = "/ws";
    let children = Ok(vec![
        entry(root, "same.md", PathKind::File, 30),
        entry(root, "same.md", PathKind::File, 10),
        entry(root, "same.md", PathKind::File, 20),
        entry(root, "a.md", PathKind::File, 40),
    ]);
    let listed =
        list_workspace_entries(root, None, &directory(root), &directory(root), &children).unwrap();
    let times: Vec<u64> = listed.entries.iter().map(|e| e.modified_at).collect();
    assert_eq!(times, vec![40, 30, 10, 20]);
}

#[test]
fn a_listing_shows_directories_and_markdown_files_only() {
    let root = "/ws";
    let children = Ok(vec![
        entry(root, "notes.MD", PathKind::File, 1),
        entry(root, "image.png", PathKind::File, 2),
        entry(root, "dir.txt", PathKind::Directory, 3),
        entry(root, "socket.md", PathKind::Other, 4),
        entry(root, ".md", PathKind::File, 5),
        entry(root, "plain", PathKind::File, 6),
        entry(root, "Guide.Markdown", PathKind::File, 7),
    ]);
    let listed =
        list_workspace_entries(root, None, &directory(root), &directory(root), &children).unwrap();
    assert_eq!(names(&listed.entries), vec!["dir.txt", "Guide.Markdown", "notes.MD"]);
    assert_eq!(listed.root_path, "/ws");
    assert_eq!(listed.entries[0].relative_path, "dir.txt");
    assert_eq!(listed.entries[0].absolute_path, "/ws/dir.txt");
    assert_eq!(listed.entries[0].modified_at, 3);
    assert_eq!(listed.entries[1].kind, WorkspaceEntryKind::Markdown);
}

#[test]
fn entries_that_lead_out_of_the_root_are_passed_over_in_silence() {
    let root = "/ws";
    let escaping = ChildReport::Entry(DirectoryChild {
        name: "escape.md".to_string(),
        canonical: Some("/etc/passwd.md".to_string()),
        metadata: Ok(ChildMetadata { kind: PathKind::File, modified_at: 1 }),
    });
    let dangling = ChildReport::Entry(DirectoryChild {
        name: "dangling.md".to_string(),
        canonical: None,
        metadata: Ok(ChildMetadata { kind: PathKind::File, modified_at: 1 }),
    });
    let failure = IoFailure { permission_denied: false, message: "stale".to_string() };
    let outside_and_unreadable = ChildReport::Entry(DirectoryChild {
        name: "far.md".to_string(),
        canonical: Some("/far/far.md".to_string()),
        metadata: Err(failure),
    });
    let children = Ok(vec![
        escaping,
        entry(root, "kept.md", PathKind::File, 2),
        dangling,
        outside_and_unreadable,
    ]);
    let listed =
        list_workspace_entries(root, None, &directory(root), &directory(root), &children).unwrap();
    assert_eq!(names(&listed.entries), vec!["kept.md"]);
}

#[test]
fn a_listing_fails_with_the_first_failure_of_reading() {
    let root = "/ws";
    let first = IoFailure { permission_denied: false, message: "first".to_string() };
    let second = IoFailure { permission_denied: true, message: "second".to_string() };
    let children = Ok(vec![
        entry(root, "a.md", PathKind::File, 1),
        ChildReport::Entry(DirectoryChild {
            name: "b.md".to_string(),
            canonical: Some("/ws/b.md".to_string()),
            metadata: Err(first.clone()),
        }),
        ChildReport::Unreadable(second.clone()),
    ]);
    assert_eq!(
        list_workspace_entries(root, None, &directory(root), &directory(root), &children),
        Err(FsError::Io(first))
    );
    let unreadable = Ok(vec![ChildReport::Unreadable(second.clone())]);
    assert_eq!(
        list_workspace_entries(root, None, &directory(root), &directory(root), &unreadable),
        Err(FsError::Io(second.clone()))
    );
    assert_eq!(
        list_workspace_entries(
            root,
            None,
            &directory(root),
            &directory(root),
            &Err(second.clone())
        ),
        Err(FsError::Io(second))
    );
}

#[test]
fn a_listing_needs_a_directory_to_list() {
    let root = "/ws";
    let a_file = PathReport { kind: PathKind::File, canonical: Ok("/ws/note.md".to_string()) };
    assert_eq!(
        list_workspace_entries(root, Some("note.md"), &directory(root), &a_file, &Ok(Vec::new())),
        Err(FsError::InvalidPath("target is not a directory: /ws/note.md".to_string()))
    );
    assert_eq!(
        list_workspace_entries(root, Some("none"), &directory(root), &gone(), &Ok(Vec::new())),
        Err(FsError::FileNotFound("/ws/none".to_string()))
    );
    assert_eq!(
        list_workspace_entries(root, None, &directory(root), &gone(), &Ok(Vec::new())),
        Err(FsError::FileNotFound("/ws".to_string()))
    );
    assert_eq!(
        list_workspace_entries("", None, &directory(root), &directory(root), &Ok(Vec::new())),
        Err(FsError::InvalidPath("workspace root is empty".to_string()))
    );
    assert_eq!(
        list_workspace_entries("/gone", None, &gone(), &gone(), &Ok(Vec::new())),
        Err(FsError::InvalidPath("workspace root does not exist: /gone".to_string()))
    );
}

#[test]
fn a_listing_of_a_directory_below_the_root_gives_paths_below_the_root() {
    let root = "/ws";
    let children = Ok(vec![
        entry("/ws/docs/deep", "z.md", PathKind::File, 1),
        entry("/ws/docs/deep", "inner", PathKind::Directory, 2),
    ]);
    let listed = list_workspace_entries(
        "/somewhere/link-to-ws",
        Some(" docs/./deep/ "),
        &directory(root),
        &directory("/ws/docs/deep"),
        &children,
    )
    .unwrap();
    assert_eq!(listed.root_path, "/ws");
    assert_eq!(listed.current_relative_path, "docs/deep");
    assert_eq!(names(&listed.entries), vec!["inner", "z.md"]);
    assert_eq!(listed.entries[0].relative_path, "docs/deep/inner");
    assert_eq!(listed.entries[1].relative_path, "docs/deep/z.md");
    assert_eq!(listed.entries[1].absolute_path, "/ws/docs/deep/z.md");
    for e in &listed.entries {
        assert!(path_starts_with(&format!("{}/{}", listed.root_path, e.relative_path), root));
    }
}
