//! The listing of one directory of the workspace: which entries are shown, and
//! in what order.

use vstd::prelude::*;
use vstd::string::*;
use vstd::seq_lib::{to_multiset_build, to_multiset_insert};
use crate::containment::lemma_join_within;
use crate::error::{copy_failure, outcome, FsError, FsErrorView, IoFailure, IoFailureView};
use crate::model::{
    entry_views, EntryView, ListWorkspaceEntriesResponse, ListingView, WorkspaceEntry,
    WorkspaceEntryKind,
};
use crate::observe::{
    child_views, ChildReport, ChildReportView, PathKind, PathReport, PathReportView,
};
use crate::path::{
    has_root, is_markdown, is_markdown_file, is_plain_name, join, join_path, lemma_tokens,
    path_starts_with, relative_path_string, relative_to, segments, starts_with, tokens, Segment,
};
use crate::text::{
    chars_of, joined, lemma_joined_first, lemma_lex_order, lex_le, lex_le_chars, lowercase,
    same_chars,
};
use crate::workspace::{
    asked, normalize_workspace_root, resolve_outcome, resolve_workspace_relative_path,
    root_outcome,
};

verus! {

/// The rank of a kind of entry: directories come before files.
pub open spec fn kind_rank(kind: WorkspaceEntryKind) -> u8 {
    match kind {
        WorkspaceEntryKind::Directory => 0,
        WorkspaceEntryKind::Markdown => 1,
    }
}

/// The rank of a kind of entry.
pub fn entry_kind_rank(kind: &WorkspaceEntryKind) -> (rank: u8)
    ensures
        rank == kind_rank(*kind),
{
    match kind {
        WorkspaceEntryKind::Directory => 0,
        WorkspaceEntryKind::Markdown => 1,
    }
}

/// The order of two entries by rank, then by name in lower case, then by
/// name.
pub open spec fn key_le(
    rank_a: u8,
    folded_a: Seq<char>,
    name_a: Seq<char>,
    rank_b: u8,
    folded_b: Seq<char>,
    name_b: Seq<char>,
) -> bool {
    if rank_a != rank_b {
        rank_a < rank_b
    } else if folded_a != folded_b {
        lex_le(folded_a, folded_b)
    } else {
        lex_le(name_a, name_b)
    }
}

/// The order of a listing: `a` may stand before `b`. Directories come before
/// files; within a kind the names decide, first without regard to case, then
/// as they are.
pub open spec fn entry_le(a: EntryView, b: EntryView) -> bool {
    key_le(
        kind_rank(a.kind),
        lowercase(a.name),
        a.name,
        kind_rank(b.kind),
        lowercase(b.name),
        b.name,
    )
}

/// The order of a listing is total and transitive.
pub proof fn lemma_entry_order(a: EntryView, b: EntryView, c: EntryView)
    ensures
        entry_le(a, a),
        entry_le(a, b) || entry_le(b, a),
        entry_le(a, b) && entry_le(b, c) ==> entry_le(a, c),
        entry_le(a, b) && entry_le(b, a) ==> a.kind == b.kind && a.name == b.name,
{
    let la = lowercase(a.name);
    let lb = lowercase(b.name);
    let lc = lowercase(c.name);
    lemma_lex_order(la, lb, lc);
    lemma_lex_order(lb, la, lc);
    lemma_lex_order(la, lc, lb);
    lemma_lex_order(lb, lc, la);
    lemma_lex_order(a.name, b.name, c.name);
    lemma_lex_order(b.name, a.name, c.name);
    lemma_lex_order(a.name, c.name, b.name);
}

/// Where `x` goes into the ordered `s`: after the last entry that may stand
/// before it.
pub open spec fn insert_pos(s: Seq<EntryView>, x: EntryView) -> int
    decreases s.len(),
{
    if s.len() == 0 {
        0
    } else if entry_le(s.last(), x) {
        s.len() as int
    } else {
        insert_pos(s.drop_last(), x)
    }
}

/// `s` with `x` put in at its place.
pub open spec fn sorted_insert(s: Seq<EntryView>, x: EntryView) -> Seq<EntryView> {
    s.insert(insert_pos(s, x), x)
}

/// The entries of `s` in the order of a listing; entries that the order does
/// not tell apart keep the order in which they came.
pub open spec fn sorted(s: Seq<EntryView>) -> Seq<EntryView>
    decreases s.len(),
{
    if s.len() == 0 {
        Seq::empty()
    } else {
        sorted_insert(sorted(s.drop_last()), s.last())
    }
}

/// Whether each entry of `s` may stand before all that follow it.
pub open spec fn is_ordered(s: Seq<EntryView>) -> bool {
    forall|i: int, j: int| 0 <= i < j < s.len() ==> entry_le(#[trigger] s[i], #[trigger] s[j])
}

/// The place of `x` in `s` lies within `s`; every entry from there on may not
/// stand before `x`, and the entry just before it may.
pub proof fn lemma_insert_pos(s: Seq<EntryView>, x: EntryView)
    ensures
        0 <= insert_pos(s, x) <= s.len(),
        insert_pos(s, x) > 0 ==> entry_le(s[insert_pos(s, x) - 1], x),
        forall|j: int| insert_pos(s, x) <= j < s.len() ==> !entry_le(#[trigger] s[j], x),
    decreases s.len(),
{
    if s.len() > 0 && !entry_le(s.last(), x) {
        lemma_insert_pos(s.drop_last(), x);
        let p = insert_pos(s.drop_last(), x);
        assert forall|j: int| p <= j < s.len() implies !entry_le(#[trigger] s[j], x) by {
            if j < s.len() - 1 {
                assert(s.drop_last()[j] == s[j]);
            }
        }
        if p > 0 {
            assert(s.drop_last()[p - 1] == s[p - 1]);
        }
    }
}

/// Putting an entry in at its place keeps an ordered sequence ordered.
pub proof fn lemma_sorted_insert_ordered(s: Seq<EntryView>, x: EntryView)
    requires
        is_ordered(s),
    ensures
        is_ordered(sorted_insert(s, x)),
{
    lemma_insert_pos(s, x);
    let p = insert_pos(s, x);
    let t = sorted_insert(s, x);
    assert forall|i: int, j: int| 0 <= i < j < t.len() implies entry_le(
        #[trigger] t[i],
        #[trigger] t[j],
    ) by {
        if j < p {
            assert(t[i] == s[i] && t[j] == s[j]);
        } else if j == p {
            assert(t[j] == x);
            assert(t[i] == s[i]);
            if i < p - 1 {
                assert(entry_le(s[i], s[p - 1]));
            }
            lemma_entry_order(s[i], s[p - 1], x);
        } else if i < p {
            assert(t[i] == s[i] && t[j] == s[j - 1]);
            if i < j - 1 {
                assert(entry_le(s[i], s[j - 1]));
            } else {
                lemma_entry_order(s[i], s[i], s[i]);
            }
        } else if i == p {
            assert(t[i] == x && t[j] == s[j - 1]);
            assert(!entry_le(s[j - 1], x));
            lemma_entry_order(x, s[j - 1], x);
        } else {
            assert(t[i] == s[i - 1] && t[j] == s[j - 1]);
        }
    }
}

/// A listing is in order, and holds exactly the entries that were put into
/// it, each as often as it was.
pub proof fn lemma_sorted(s: Seq<EntryView>)
    ensures
        is_ordered(sorted(s)),
        sorted(s).to_multiset() == s.to_multiset(),
        sorted(s).len() == s.len(),
    decreases s.len(),
{
    if s.len() == 0 {
        assert(s =~= Seq::<EntryView>::empty());
    } else {
        let front = s.drop_last();
        lemma_sorted(front);
        lemma_insert_pos(sorted(front), s.last());
        lemma_sorted_insert_ordered(sorted(front), s.last());
        assert(front.push(s.last()) =~= s);
        to_multiset_insert(sorted(front), insert_pos(sorted(front), s.last()), s.last());
        to_multiset_build(front, s.last());
        assert(sorted(s).to_multiset() =~= sorted(front).to_multiset().insert(s.last()));
        assert(s.to_multiset() =~= front.to_multiset().insert(s.last()));
    }
}

/// What the order goes by, computed once for each entry.
pub struct SortKey {
    pub rank: u8,
    pub folded: Vec<char>,
    pub name: Vec<char>,
}

impl SortKey {
    /// Whether this is the key of the entry `e`.
    pub open spec fn is_key_of(&self, e: EntryView) -> bool {
        &&& self.rank == kind_rank(e.kind)
        &&& self.folded@ == lowercase(e.name)
        &&& self.name@ == e.name
    }
}

/// Whether `keys` are the keys of `entries`, one for one.
pub open spec fn keys_match(keys: Seq<SortKey>, entries: Seq<EntryView>) -> bool {
    &&& keys.len() == entries.len()
    &&& forall|k: int| 0 <= k < keys.len() ==> (#[trigger] keys[k]).is_key_of(entries[k])
}

/// The key of an entry of the kind `kind` and the name `name`.
pub fn sort_key(kind: &WorkspaceEntryKind, name: &str) -> (key: SortKey)
    ensures
        key.rank == kind_rank(*kind),
        key.folded@ == lowercase(name@),
        key.name@ == name@,
{
    let folded = name.to_lowercase();
    SortKey {
        rank: entry_kind_rank(kind),
        folded: chars_of(folded.as_str()),
        name: chars_of(name),
    }
}

/// Whether the entry of key `a` may stand before the entry of key `b`.
pub fn key_precedes(a: &SortKey, b: &SortKey) -> (le: bool)
    ensures
        le == key_le(a.rank, a.folded@, a.name@, b.rank, b.folded@, b.name@),
{
    if a.rank != b.rank {
        a.rank < b.rank
    } else if !same_chars(&a.folded, &b.folded) {
        lex_le_chars(&a.folded, &b.folded)
    } else {
        lex_le_chars(&a.name, &b.name)
    }
}

/// Puts `entry` into the ordered `out` at its place, and its key into `keys`.
pub fn insert_sorted(out: &mut Vec<WorkspaceEntry>, keys: &mut Vec<SortKey>, entry: WorkspaceEntry)
    requires
        keys_match(old(keys)@, entry_views(old(out)@)),
    ensures
        keys_match(final(keys)@, entry_views(final(out)@)),
        entry_views(final(out)@) == sorted_insert(entry_views(old(out)@), entry@),
{
    let key = sort_key(&entry.kind, entry.name.as_str());
    let ghost views = entry_views(out@);
    let ghost x = entry@;
    let mut p: usize = keys.len();
    assert(views.take(p as int) =~= views);
    while p > 0 && !key_precedes(&keys[p - 1], &key)
        invariant
            p <= keys.len(),
            keys_match(keys@, views),
            key.is_key_of(x),
            insert_pos(views, x) == insert_pos(views.take(p as int), x),
        decreases p,
    {
        proof {
            let front = views.take(p as int);
            assert(front.last() == views[p - 1]);
            assert(keys@[p - 1].is_key_of(views[p - 1]));
            assert(!entry_le(front.last(), x));
            assert(front.drop_last() =~= views.take(p - 1));
        }
        p -= 1;
    }
    proof {
        let front = views.take(p as int);
        if p > 0 {
            assert(front.last() == views[p - 1]);
            assert(keys@[p - 1].is_key_of(views[p - 1]));
            assert(entry_le(front.last(), x));
        }
        assert(insert_pos(views, x) == p);
    }
    let ghost old_keys = keys@;
    let ghost old_out = out@;
    keys.insert(p, key);
    out.insert(p, entry);
    proof {
        assert(entry_views(out@) =~= views.insert(p as int, x));
        assert forall|k: int| 0 <= k < keys@.len() implies (#[trigger] keys@[k]).is_key_of(
            entry_views(out@)[k],
        ) by {
            if k < p {
                assert(keys@[k] == old_keys[k]);
                assert(old_keys[k].is_key_of(views[k]));
            } else if k > p {
                assert(keys@[k] == old_keys[k - 1]);
                assert(old_keys[k - 1].is_key_of(views[k - 1]));
            }
        }
    }
}

/// The kind under which an entry is shown: a directory always, a regular file
/// when its name marks it as markdown, anything else not at all.
pub open spec fn shown_kind(path: Seq<char>, kind: PathKind) -> Option<WorkspaceEntryKind> {
    if kind == PathKind::Directory {
        Some(WorkspaceEntryKind::Directory)
    } else if kind == PathKind::File && is_markdown(path) {
        Some(WorkspaceEntryKind::Markdown)
    } else {
        None
    }
}

/// What becomes of one step of reading the directory `current` of the
/// workspace `root`: an entry of the listing, nothing, or a failure. An entry
/// whose canonical path cannot be found or lies outside the root is passed
/// over in silence.
pub open spec fn child_outcome(
    root: Seq<char>,
    current: Seq<char>,
    child: ChildReportView,
) -> Result<Option<EntryView>, FsErrorView> {
    match child {
        ChildReportView::Unreadable(f) => Err(FsErrorView::Io(f)),
        ChildReportView::Entry(c) => match c.canonical {
            None => Ok(None),
            Some(k) => if !starts_with(k, root) {
                Ok(None)
            } else {
                match c.metadata {
                    Err(f) => Err(FsErrorView::Io(f)),
                    Ok(m) => {
                        let path = join(current, c.name);
                        match shown_kind(path, m.kind) {
                            None => Ok(None),
                            Some(kind) => if starts_with(path, root) {
                                Ok(
                                    Some(
                                        EntryView {
                                            name: c.name,
                                            relative_path: relative_to(root, path),
                                            absolute_path: path,
                                            kind: kind,
                                            modified_at: m.modified_at,
                                        },
                                    ),
                                )
                            } else {
                                Err(FsErrorView::OutOfWorkspace(path))
                            },
                        }
                    },
                }
            },
        },
    }
}

/// The entries that reading the directory gives, in the order in which they
/// were read, or the first failure.
pub open spec fn collected(
    root: Seq<char>,
    current: Seq<char>,
    children: Seq<ChildReportView>,
) -> Result<Seq<EntryView>, FsErrorView>
    decreases children.len(),
{
    if children.len() == 0 {
        Ok(Seq::empty())
    } else {
        match collected(root, current, children.drop_last()) {
            Err(e) => Err(e),
            Ok(entries) => match child_outcome(root, current, children.last()) {
                Err(e) => Err(e),
                Ok(None) => Ok(entries),
                Ok(Some(entry)) => Ok(entries.push(entry)),
            },
        }
    }
}

/// A failure among the first `n` steps is the failure of the whole.
pub proof fn lemma_collected_failure(
    root: Seq<char>,
    current: Seq<char>,
    children: Seq<ChildReportView>,
    n: int,
)
    requires
        0 <= n <= children.len(),
        collected(root, current, children.take(n)) is Err,
    ensures
        collected(root, current, children) == collected(root, current, children.take(n)),
    decreases children.len(),
{
    if n == children.len() {
        assert(children.take(n) =~= children);
    } else {
        assert(children.drop_last().take(n) =~= children.take(n));
        lemma_collected_failure(root, current, children.drop_last(), n);
    }
}

/// The listing of a directory of the workspace, from what the file system
/// reports: `root` of the configured root, `target` of the directory to list,
/// `children` of reading it.
pub open spec fn listing_outcome(
    workspace_root: Seq<char>,
    relative: Seq<char>,
    root: PathReportView,
    target: PathReportView,
    children: Result<Seq<ChildReportView>, IoFailureView>,
) -> Result<ListingView, FsErrorView> {
    match root_outcome(workspace_root, root) {
        Err(e) => Err(e),
        Ok(root_path) => match resolve_outcome(root_path, relative, target) {
            Err(e) => Err(e),
            Ok(current) => if target.kind == PathKind::Missing {
                Err(FsErrorView::FileNotFound(current))
            } else if target.kind != PathKind::Directory {
                Err(FsErrorView::InvalidPath("target is not a directory: "@ + current))
            } else {
                match children {
                    Err(f) => Err(FsErrorView::Io(f)),
                    Ok(steps) => match collected(root_path, current, steps) {
                        Err(e) => Err(e),
                        Ok(entries) => if starts_with(current, root_path) {
                            Ok(
                                ListingView {
                                    root_path: root_path,
                                    current_relative_path: relative_to(root_path, current),
                                    entries: sorted(entries),
                                },
                            )
                        } else {
                            Err(FsErrorView::OutOfWorkspace(current))
                        },
                    },
                }
            },
        },
    }
}

/// What reading a directory gave, by its views.
pub open spec fn reading(children: Result<Vec<ChildReport>, IoFailure>) -> Result<
    Seq<ChildReportView>,
    IoFailureView,
> {
    match children {
        Ok(steps) => Ok(child_views(steps@)),
        Err(f) => Err(f@),
    }
}

/// What becomes of one step of reading the directory `current` of the
/// workspace `root`.
pub fn consider_child(root: &str, current: &str, child: &ChildReport) -> (out: Result<
    Option<WorkspaceEntry>,
    FsError,
>)
    ensures
        match out {
            Ok(Some(entry)) => child_outcome(root@, current@, child@) == Ok::<
                Option<EntryView>,
                FsErrorView,
            >(Some(entry@)),
            Ok(None) => child_outcome(root@, current@, child@) == Ok::<
                Option<EntryView>,
                FsErrorView,
            >(None),
            Err(e) => child_outcome(root@, current@, child@) == Err::<
                Option<EntryView>,
                FsErrorView,
            >(e@),
        },
{
    match child {
        ChildReport::Unreadable(f) => Err(FsError::Io(copy_failure(f))),
        ChildReport::Entry(c) => {
            match &c.canonical {
                None => Ok(None),
                Some(k) => {
                    if !path_starts_with(k.as_str(), root) {
                        return Ok(None);
                    }
                    match &c.metadata {
                        Err(f) => Err(FsError::Io(copy_failure(f))),
                        Ok(m) => {
                            let path = join_path(current, c.name.as_str());
                            let kind = match m.kind {
                                PathKind::Directory => WorkspaceEntryKind::Directory,
                                PathKind::File => {
                                    if is_markdown_file(path.as_str()) {
                                        WorkspaceEntryKind::Markdown
                                    } else {
                                        return Ok(None);
                                    }
                                },
                                _ => {
                                    return Ok(None);
                                },
                            };
                            match relative_path_string(root, path.as_str()) {
                                Err(e) => Err(e),
                                Ok(relative_path) => Ok(
                                    Some(
                                        WorkspaceEntry {
                                            name: c.name.clone(),
                                            relative_path,
                                            absolute_path: path,
                                            kind,
                                            modified_at: m.modified_at,
                                        },
                                    ),
                                ),
                            }
                        },
                    }
                },
            }
        },
    }
}

/// Lists one directory of a workspace. `workspace_root` is the configured
/// root and `relative_path` the directory below it that is asked for; `root`
/// is what the file system reports of the configured root, `target` what it
/// reports of the directory to list, and `children` what reading that
/// directory gave.
///
/// The entries are the directories and the markdown files among the children
/// whose canonical path lies within the canonical root, in the order of a
/// listing. Fails as the root and the directory fail to resolve, with
/// `FileNotFound` when the directory is missing, `InvalidPath` when it is no
/// directory, and with the first failure of reading it.
#[verifier::loop_isolation(false)]
pub fn list_workspace_entries(
    workspace_root: &str,
    relative_path: Option<&str>,
    root: &PathReport,
    target: &PathReport,
    children: &Result<Vec<ChildReport>, IoFailure>,
) -> (out: Result<ListWorkspaceEntriesResponse, FsError>)
    ensures
        outcome(out) == listing_outcome(
            workspace_root@,
            asked(relative_path),
            root@,
            target@,
            reading(*children),
        ),
{
    let root_path = match normalize_workspace_root(workspace_root, root) {
        Err(e) => {
            return Err(e);
        },
        Ok(p) => p,
    };
    let current = match resolve_workspace_relative_path(root_path.as_str(), relative_path, target) {
        Err(e) => {
            return Err(e);
        },
        Ok(p) => p,
    };
    match target.kind {
        PathKind::Missing => {
            return Err(FsError::FileNotFound(current));
        },
        PathKind::Directory => {},
        _ => {
            return Err(
                FsError::InvalidPath(
                    String::from_str("target is not a directory: ").concat(current.as_str()),
                ),
            );
        },
    }
    let steps = match children {
        Err(f) => {
            return Err(FsError::Io(copy_failure(f)));
        },
        Ok(steps) => steps,
    };
    let ghost all = child_views(steps@);
    let ghost mut kept: Seq<EntryView> = Seq::empty();
    let mut entries: Vec<WorkspaceEntry> = Vec::new();
    let mut keys: Vec<SortKey> = Vec::new();
    let mut i: usize = 0;
    assert(all.take(0) =~= Seq::<ChildReportView>::empty());
    assert(entry_views(entries@) =~= Seq::<EntryView>::empty());
    while i < steps.len()
        invariant
            i <= steps.len(),
            all == child_views(steps@),
            collected(root_path@, current@, all.take(i as int)) == Ok::<
                Seq<EntryView>,
                FsErrorView,
            >(kept),
            entry_views(entries@) == sorted(kept),
            keys_match(keys@, entry_views(entries@)),
        decreases steps.len() - i,
    {
        proof {
            let upto = all.take(i + 1);
            assert(upto.drop_last() =~= all.take(i as int));
            assert(upto.last() == steps@[i as int]@);
        }
        match consider_child(root_path.as_str(), current.as_str(), &steps[i]) {
            Err(e) => {
                proof {
                    lemma_collected_failure(root_path@, current@, all, i + 1);
                }
                return Err(e);
            },
            Ok(None) => {},
            Ok(Some(entry)) => {
                proof {
                    assert(kept.push(entry@).drop_last() =~= kept);
                    kept = kept.push(entry@);
                }
                insert_sorted(&mut entries, &mut keys, entry);
            },
        }
        i += 1;
    }
    assert(all.take(steps.len() as int) =~= all);
    match relative_path_string(root_path.as_str(), current.as_str()) {
        Err(e) => Err(e),
        Ok(current_relative_path) => Ok(
            ListWorkspaceEntriesResponse { root_path, current_relative_path, entries },
        ),
    }
}

/// A listing holds the entries that were put into it and no others.
pub proof fn lemma_sorted_members(s: Seq<EntryView>)
    ensures
        forall|k: int| 0 <= k < sorted(s).len() ==> s.contains(#[trigger] sorted(s)[k]),
        forall|j: int| 0 <= j < s.len() ==> sorted(s).contains(#[trigger] s[j]),
{
    lemma_sorted(s);
    s.to_multiset_ensures();
    sorted(s).to_multiset_ensures();
    assert forall|k: int| 0 <= k < sorted(s).len() implies s.contains(#[trigger] sorted(s)[k]) by {
        let x = sorted(s)[k];
        assert(sorted(s).contains(x));
        assert(sorted(s).to_multiset().count(x) > 0);
        assert(s.to_multiset().count(x) > 0);
    }
    assert forall|j: int| 0 <= j < s.len() implies sorted(s).contains(#[trigger] s[j]) by {
        let x = s[j];
        assert(s.contains(x));
        assert(s.to_multiset().count(x) > 0);
        assert(sorted(s).to_multiset().count(x) > 0);
    }
}

/// Whether `e` is an entry of the directory `current` that a listing of the
/// workspace `root` may show: a directory or a markdown file in `current`,
/// within the root, with its path below the root.
pub open spec fn is_shown(root: Seq<char>, current: Seq<char>, e: EntryView) -> bool {
    &&& e.absolute_path == join(current, e.name)
    &&& (e.kind == WorkspaceEntryKind::Directory || is_markdown(e.absolute_path))
    &&& starts_with(e.absolute_path, root)
    &&& e.relative_path == relative_to(root, e.absolute_path)
}

/// Every entry that reading a directory gives is one that may be shown.
pub proof fn lemma_collected_shown(
    root: Seq<char>,
    current: Seq<char>,
    children: Seq<ChildReportView>,
)
    requires
        collected(root, current, children) is Ok,
    ensures
        forall|k: int|
            0 <= k < collected(root, current, children)->Ok_0.len() ==> is_shown(
                root,
                current,
                #[trigger] collected(root, current, children)->Ok_0[k],
            ),
    decreases children.len(),
{
    if children.len() > 0 {
        lemma_collected_shown(root, current, children.drop_last());
        let front = collected(root, current, children.drop_last())->Ok_0;
        let all = collected(root, current, children)->Ok_0;
        assert forall|k: int| 0 <= k < all.len() implies is_shown(
            root,
            current,
            #[trigger] all[k],
        ) by {
            if k < front.len() {
                assert(all[k] == front[k]);
            }
        }
    }
}

/// Whether the entry `e` comes from the step `child` of reading the
/// directory of the workspace `root`: an entry of that name whose canonical
/// path lies within the root.
pub open spec fn comes_from(root: Seq<char>, child: ChildReportView, e: EntryView) -> bool {
    &&& child matches ChildReportView::Entry(c)
    &&& c.name == e.name
    &&& c.canonical matches Some(k)
    &&& starts_with(k, root)
    &&& c.metadata matches Ok(m)
    &&& m.modified_at == e.modified_at
}

/// Every entry that reading a directory gives comes from an entry of the
/// directory whose canonical path lies within the root: what leads out of the
/// root is never shown.
pub proof fn lemma_collected_within(
    root: Seq<char>,
    current: Seq<char>,
    children: Seq<ChildReportView>,
)
    requires
        collected(root, current, children) is Ok,
    ensures
        forall|k: int|
            0 <= k < collected(root, current, children)->Ok_0.len() ==> exists|j: int|
                0 <= j < children.len() && comes_from(
                    root,
                    #[trigger] children[j],
                    #[trigger] collected(root, current, children)->Ok_0[k],
                ),
    decreases children.len(),
{
    if children.len() > 0 {
        let fewer = children.drop_last();
        lemma_collected_within(root, current, fewer);
        let front = collected(root, current, fewer)->Ok_0;
        let all = collected(root, current, children)->Ok_0;
        assert forall|k: int| 0 <= k < all.len() implies exists|j: int|
            0 <= j < children.len() && comes_from(
                root,
                #[trigger] children[j],
                #[trigger] all[k],
            ) by {
            if k < front.len() {
                assert(all[k] == front[k]);
                let j = choose|j: int|
                    0 <= j < fewer.len() && comes_from(root, #[trigger] fewer[j], front[k]);
                assert(children[j] == fewer[j]);
                assert(comes_from(root, children[j], all[k]));
            } else {
                let j = children.len() - 1;
                assert(comes_from(root, children[j], all[k]));
            }
        }
    }
}

/// The path of an entry below the root, joined to the root, stays within
/// the root.
pub proof fn lemma_relative_within(root: Seq<char>, path: Seq<char>)
    requires
        starts_with(path, root),
    ensures
        starts_with(join(root, relative_to(root, path)), root),
{
    let n = segments(root).len() as int;
    let parts = segments(path).skip(n);
    let rel = relative_to(root, path);
    if has_root(rel) {
        lemma_tokens(path);
        if parts.len() > 0 {
            assert forall|j: int| 0 <= j < parts.len() implies (#[trigger] parts[j]).len()
                > 0 by {
                assert(parts[j] == segments(path)[n + j]);
            }
            lemma_joined_first(parts, seq!['/']);
            let t = tokens(path)[n];
            assert(parts[0] == segments(path)[n]);
            assert(parts[0][0] == '/');
            if t.kind == Segment::Normal {
                assert(is_plain_name(parts[0]));
            } else if t.kind == Segment::Parent {
                assert(parts[0] == seq!['.', '.']);
            } else if t.kind == Segment::Current {
                assert(parts[0] == seq!['.']);
            }
            assert(n == 0);
        } else {
            assert(rel.len() == 0);
        }
    } else {
        lemma_join_within(root, rel);
    }
}

/// What a listing holds: its entries are in the order of a listing; each is a
/// directory or a markdown file of the directory listed, within the root,
/// and comes from an entry of the directory whose canonical path lies within
/// the root; and each entry's path below the root, joined to the root, stays
/// within the root. Nothing that reading the directory gave and that may be
/// shown is left out.
pub proof fn lemma_listing(
    workspace_root: Seq<char>,
    relative: Seq<char>,
    root: PathReportView,
    target: PathReportView,
    children: Result<Seq<ChildReportView>, IoFailureView>,
)
    requires
        listing_outcome(workspace_root, relative, root, target, children) is Ok,
    ensures
        ({
            let listing = listing_outcome(workspace_root, relative, root, target, children)->Ok_0;
            let root_path = root_outcome(workspace_root, root)->Ok_0;
            let current = resolve_outcome(root_path, relative, target)->Ok_0;
            let read = collected(root_path, current, children->Ok_0)->Ok_0;
            &&& listing.root_path == root_path
            &&& is_ordered(listing.entries)
            &&& listing.entries.to_multiset() == read.to_multiset()
            &&& forall|k: int|
                0 <= k < listing.entries.len() ==> {
                    let e = #[trigger] listing.entries[k];
                    &&& is_shown(root_path, current, e)
                    &&& starts_with(join(root_path, e.relative_path), root_path)
                    &&& exists|j: int|
                        0 <= j < children->Ok_0.len() && comes_from(
                            root_path,
                            #[trigger] children->Ok_0[j],
                            e,
                        )
                }
        }),
{
    let listing = listing_outcome(workspace_root, relative, root, target, children)->Ok_0;
    let root_path = root_outcome(workspace_root, root)->Ok_0;
    let current = resolve_outcome(root_path, relative, target)->Ok_0;
    let read = collected(root_path, current, children->Ok_0)->Ok_0;
    lemma_sorted(read);
    lemma_sorted_members(read);
    lemma_collected_shown(root_path, current, children->Ok_0);
    lemma_collected_within(root_path, current, children->Ok_0);
    assert forall|k: int| 0 <= k < listing.entries.len() implies {
        let e = #[trigger] listing.entries[k];
        &&& is_shown(root_path, current, e)
        &&& starts_with(join(root_path, e.relative_path), root_path)
        &&& exists|j: int|
            0 <= j < children->Ok_0.len() && comes_from(
                root_path,
                #[trigger] children->Ok_0[j],
                e,
            )
    } by {
        let e = listing.entries[k];
        assert(read.contains(e));
        let i = choose|i: int| 0 <= i < read.len() && read[i] == e;
        assert(is_shown(root_path, current, read[i]));
        lemma_relative_within(root_path, e.absolute_path);
    }
}

} // verus!
