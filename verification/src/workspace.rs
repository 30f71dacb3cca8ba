//! The workspace: its root, and the paths below it that relative paths name.

use vstd::prelude::*;
use vstd::string::*;
use crate::containment::{lemma_join_name, lemma_join_within};
use crate::error::{copy_failure, outcome, FsError, FsErrorView};
use crate::observe::{PathKind, PathReport, PathReportView};
use crate::path::{
    has_root, is_absolute, is_plain_name, join, join_path, join_spans, lemma_body_tokens,
    lemma_tokens, lex, path_starts_with, segments, span_texts, spans_are, spans_within,
    starts_with, token_text, tokens, Segment, Span,
};
use crate::text::{
    chars_of, is_blank, is_blank_chars, joined, string_of, text_of, trim_chars, trimmed,
};

verus! {

/// The canonical root of a workspace, from the path that was configured and
/// what the file system reports of it.
pub open spec fn root_outcome(path: Seq<char>, report: PathReportView) -> Result<
    Seq<char>,
    FsErrorView,
> {
    if is_blank(path) {
        Err(FsErrorView::InvalidPath("workspace root is empty"@))
    } else if report.kind == PathKind::Missing {
        Err(FsErrorView::InvalidPath("workspace root does not exist: "@ + path))
    } else if report.kind != PathKind::Directory {
        Err(FsErrorView::InvalidPath("workspace root is not a directory: "@ + path))
    } else {
        match report.canonical {
            Ok(c) => Ok(c),
            Err(f) => Err(FsErrorView::Io(f)),
        }
    }
}

/// The canonical root of the workspace configured as `path`, of which the
/// file system reports `report`. Fails with `InvalidPath` when the path is
/// blank, when nothing is there and when it is no directory, and with the
/// failure to resolve it.
pub fn normalize_workspace_root(path: &str, report: &PathReport) -> (out: Result<String, FsError>)
    ensures
        outcome(out) == root_outcome(path@, report@),
{
    let v = chars_of(path);
    if is_blank_chars(&v) {
        return Err(FsError::InvalidPath(String::from_str("workspace root is empty")));
    }
    match report.kind {
        PathKind::Missing => Err(
            FsError::InvalidPath(String::from_str("workspace root does not exist: ").concat(path)),
        ),
        PathKind::Directory => match &report.canonical {
            Ok(c) => Ok(c.clone()),
            Err(f) => Err(FsError::Io(copy_failure(f))),
        },
        _ => Err(
            FsError::InvalidPath(
                String::from_str("workspace root is not a directory: ").concat(path),
            ),
        ),
    }
}

/// Where a walk along the segments of a relative path ends.
pub enum Walk {
    /// Inside the starting directory, at these names below it.
    Inside(Seq<Seq<char>>),
    /// Above the starting directory.
    Escapes,
    /// At a root: the path was not relative.
    Rooted,
}

/// The walk along the segments of `s` from the `i`th on, standing at `stack`:
/// a name goes down, a `..` goes up, a `.` stays.
pub open spec fn walk_from(s: Seq<char>, i: int, stack: Seq<Seq<char>>) -> Walk
    decreases tokens(s).len() - i,
{
    let toks = tokens(s);
    if i < 0 || i >= toks.len() {
        Walk::Inside(stack)
    } else {
        match toks[i].kind {
            Segment::Current => walk_from(s, i + 1, stack),
            Segment::Normal => walk_from(s, i + 1, stack.push(token_text(s, toks[i]))),
            Segment::Parent => if stack.len() == 0 {
                Walk::Escapes
            } else {
                walk_from(s, i + 1, stack.drop_last())
            },
            Segment::Root => Walk::Rooted,
        }
    }
}

/// The walk along all the segments of `s`.
pub open spec fn walk(s: Seq<char>) -> Walk {
    walk_from(s, 0, Seq::empty())
}

/// A relative path without `.` and `..`: the names at which its walk ends,
/// joined by `/`.
pub open spec fn normalized_relative(s: Seq<char>) -> Result<Seq<char>, FsErrorView> {
    match walk(s) {
        Walk::Inside(stack) => Ok(joined(stack, seq!['/'])),
        Walk::Escapes => Err(FsErrorView::OutOfWorkspace(s)),
        Walk::Rooted => Err(FsErrorView::InvalidRelativePath(s)),
    }
}

/// `relative` without its `.` and `..` segments. Fails with `OutOfWorkspace`
/// when a `..` goes above the starting directory, with `InvalidRelativePath`
/// when the path begins at the root.
pub fn normalize_relative_path(relative: &str) -> (out: Result<String, FsError>)
    ensures
        outcome(out) == normalized_relative(relative@),
{
    let s = chars_of(relative);
    let spans = lex(&s);
    let mut stack: Vec<Span> = Vec::new();
    let mut i: usize = 0;
    assert(span_texts(s@, stack@) =~= Seq::<Seq<char>>::empty());
    while i < spans.len()
        invariant
            i <= spans.len(),
            s@ == relative@,
            spans_are(spans@, tokens(s@)),
            spans_within(spans@, s@.len()),
            spans_within(stack@, s@.len()),
            walk(s@) == walk_from(s@, i as int, span_texts(s@, stack@)),
        decreases spans.len() - i,
    {
        let x = spans[i];
        assert(x@ == tokens(s@)[i as int]);
        let ghost before = span_texts(s@, stack@);
        match x.kind {
            Segment::Current => {},
            Segment::Normal => {
                stack.push(x);
                assert(span_texts(s@, stack@) =~= before.push(token_text(s@, x@)));
            },
            Segment::Parent => {
                if stack.len() == 0 {
                    return Err(FsError::OutOfWorkspace(String::from_str(relative)));
                }
                stack.pop();
                assert(span_texts(s@, stack@) =~= before.drop_last());
            },
            Segment::Root => {
                return Err(FsError::InvalidRelativePath(String::from_str(relative)));
            },
        }
        i += 1;
    }
    let text = join_spans(&s, &stack, 0);
    assert(span_texts(s@, stack@).skip(0) =~= span_texts(s@, stack@));
    Ok(string_of(&text))
}

/// The relative path that was asked for: none stands for the empty path, and
/// white space around it does not count.
pub open spec fn asked(relative: Option<&str>) -> Seq<char> {
    match relative {
        Some(r) => trimmed(r@),
        None => Seq::empty(),
    }
}

/// The path below `root` that `relative` names, before the file system is
/// looked at: none when it is the root itself.
pub open spec fn candidate(root: Seq<char>, relative: Seq<char>) -> Result<
    Option<Seq<char>>,
    FsErrorView,
> {
    if relative.len() == 0 {
        Ok(None)
    } else if has_root(relative) {
        Err(FsErrorView::InvalidRelativePath(relative))
    } else {
        match normalized_relative(relative) {
            Err(e) => Err(e),
            Ok(n) => if n.len() == 0 {
                Ok(None)
            } else {
                Ok(Some(join(root, n)))
            },
        }
    }
}

/// The view of a result that holds an optional string.
pub open spec fn option_outcome(r: Result<Option<String>, FsError>) -> Result<
    Option<Seq<char>>,
    FsErrorView,
> {
    match r {
        Ok(o) => Ok(text_of(o)),
        Err(e) => Err(e@),
    }
}

/// The path below `root` that `relative_path` names, which the caller is to
/// look at, or none when it names the root itself. Fails with
/// `InvalidRelativePath` when the relative path begins at the root, with
/// `OutOfWorkspace` when it goes above the root.
pub fn workspace_candidate(root: &str, relative_path: Option<&str>) -> (out: Result<
    Option<String>,
    FsError,
>)
    ensures
        option_outcome(out) == candidate(root@, asked(relative_path)),
{
    let relative = match relative_path {
        Some(r) => {
            let v = chars_of(r);
            let t = trim_chars(&v);
            string_of(&t)
        },
        None => String::new(),
    };
    assert(relative@ == asked(relative_path));
    let rel = chars_of(relative.as_str());
    if rel.len() == 0 {
        return Ok(None);
    }
    if is_absolute(relative.as_str()) {
        return Err(FsError::InvalidRelativePath(relative));
    }
    match normalize_relative_path(relative.as_str()) {
        Err(e) => Err(e),
        Ok(n) => {
            let nv = chars_of(n.as_str());
            if nv.len() == 0 {
                Ok(None)
            } else {
                Ok(Some(join_path(root, n.as_str())))
            }
        },
    }
}

/// The directory below `root` that `relative` names, given what the file
/// system reports of the candidate path.
pub open spec fn resolve_outcome(
    root: Seq<char>,
    relative: Seq<char>,
    report: PathReportView,
) -> Result<Seq<char>, FsErrorView> {
    match candidate(root, relative) {
        Err(e) => Err(e),
        Ok(None) => Ok(root),
        Ok(Some(c)) => if report.kind == PathKind::Missing {
            Err(FsErrorView::FileNotFound(c))
        } else {
            match report.canonical {
                Err(f) => Err(FsErrorView::Io(f)),
                Ok(k) => if starts_with(k, root) {
                    Ok(c)
                } else {
                    Err(FsErrorView::OutOfWorkspace(k))
                },
            }
        },
    }
}

/// The path below the canonical `root` that `relative_path` names, where
/// `report` is what the file system reports of the candidate path. A blank
/// relative path names the root. Fails with `InvalidRelativePath` when the
/// relative path begins at the root, `OutOfWorkspace` when it goes above the
/// root or when its canonical form lies outside the root, `FileNotFound` when
/// nothing is there, and with the failure to resolve it.
pub fn resolve_workspace_relative_path(
    root: &str,
    relative_path: Option<&str>,
    report: &PathReport,
) -> (out: Result<String, FsError>)
    ensures
        outcome(out) == resolve_outcome(root@, asked(relative_path), report@),
{
    match workspace_candidate(root, relative_path) {
        Err(e) => Err(e),
        Ok(None) => Ok(String::from_str(root)),
        Ok(Some(c)) => {
            match report.kind {
                PathKind::Missing => Err(FsError::FileNotFound(c)),
                _ => match &report.canonical {
                    Err(f) => Err(FsError::Io(copy_failure(f))),
                    Ok(k) => if path_starts_with(k.as_str(), root) {
                        Ok(c)
                    } else {
                        Err(FsError::OutOfWorkspace(k.clone()))
                    },
                },
            }
        },
    }
}

/// How far below its start a path stands after its first `k` segments: each
/// name goes one down, each `..` one up.
pub open spec fn depth(s: Seq<char>, k: int) -> int
    decreases k,
{
    if k <= 0 || k > tokens(s).len() {
        0
    } else {
        depth(s, k - 1) + match tokens(s)[k - 1].kind {
            Segment::Normal => 1int,
            Segment::Parent => -1int,
            _ => 0int,
        }
    }
}

/// Whether every name of `names` is a plain name.
pub open spec fn all_plain(names: Seq<Seq<char>>) -> bool {
    forall|j: int| 0 <= j < names.len() ==> is_plain_name(#[trigger] names[j])
}

proof fn lemma_walk_from(s: Seq<char>, i: int, stack: Seq<Seq<char>>)
    requires
        0 <= i <= tokens(s).len(),
        !has_root(s),
        all_plain(stack),
    ensures
        walk_from(s, i, stack) is Escapes <==> exists|k: int|
            i < k <= tokens(s).len() && stack.len() + #[trigger] depth(s, k) - depth(s, i) < 0,
        walk_from(s, i, stack) matches Walk::Inside(names) ==> names.len() == stack.len() + depth(
            s,
            tokens(s).len() as int,
        ) - depth(s, i) && all_plain(names),
        !(walk_from(s, i, stack) is Rooted),
    decreases tokens(s).len() - i,
{
    let toks = tokens(s);
    let n = toks.len() as int;
    let h = stack.len() as int;
    if i < n {
        lemma_tokens(s);
        lemma_body_tokens(s, 0);
        lemma_body_tokens(s, 1);
        let t = toks[i];
        assert(t.kind != Segment::Root);
        let next = match t.kind {
            Segment::Normal => stack.push(token_text(s, t)),
            Segment::Parent => stack.drop_last(),
            _ => stack,
        };
        if t.kind == Segment::Parent && h == 0 {
            assert(h + depth(s, i + 1) - depth(s, i) < 0);
        } else {
            assert(all_plain(next)) by {
                assert forall|j: int| 0 <= j < next.len() implies is_plain_name(
                    #[trigger] next[j],
                ) by {
                    if j < stack.len() {
                        assert(next[j] == stack[j]);
                    }
                }
            }
            lemma_walk_from(s, i + 1, next);
            assert(walk_from(s, i, stack) == walk_from(s, i + 1, next));
            let g = next.len() as int;
            assert(g + depth(s, i + 1) == h + depth(s, i) + (depth(s, i + 1) - depth(s, i)) + (g
                - h));
            assert(g - h == depth(s, i + 1) - depth(s, i));
            if walk_from(s, i + 1, next) is Escapes {
                let k = choose|k: int|
                    i + 1 < k <= n && g + #[trigger] depth(s, k) - depth(s, i + 1) < 0;
                assert(i < k <= n && h + depth(s, k) - depth(s, i) < 0);
            }
            if exists|k: int| i < k <= n && h + #[trigger] depth(s, k) - depth(s, i) < 0 {
                let k = choose|k: int| i < k <= n && h + #[trigger] depth(s, k) - depth(s, i) < 0;
                assert(k != i + 1);
                assert(i + 1 < k <= n && g + depth(s, k) - depth(s, i + 1) < 0);
            }
        }
    }
}

/// A relative path leaves the directory from which it starts exactly when,
/// at some point along it, it has gone up more often than down. Otherwise
/// its walk ends at plain names, as many as it has gone down more often than
/// up.
pub proof fn lemma_escape(s: Seq<char>)
    requires
        !has_root(s),
    ensures
        walk(s) is Escapes <==> exists|k: int|
            0 < k <= tokens(s).len() && #[trigger] depth(s, k) < 0,
        walk(s) matches Walk::Inside(names) ==> names.len() == depth(s, tokens(s).len() as int)
            && all_plain(names),
        normalized_relative(s) == Err::<Seq<char>, FsErrorView>(FsErrorView::OutOfWorkspace(s))
            <==> exists|k: int| 0 < k <= tokens(s).len() && #[trigger] depth(s, k) < 0,
{
    lemma_walk_from(s, 0, Seq::empty());
    if walk(s) is Escapes {
        let k = choose|k: int|
            0 < k <= tokens(s).len() && 0 + #[trigger] depth(s, k) - depth(s, 0) < 0;
        assert(0 < k <= tokens(s).len() && depth(s, k) < 0);
    }
    if exists|k: int| 0 < k <= tokens(s).len() && #[trigger] depth(s, k) < 0 {
        let k = choose|k: int| 0 < k <= tokens(s).len() && #[trigger] depth(s, k) < 0;
        assert(0 < k <= tokens(s).len() && 0 + depth(s, k) - depth(s, 0) < 0);
    }
}

/// A relative path that goes above the root is out of the workspace,
/// whatever the file system reports: resolving it fails with
/// `OutOfWorkspace`.
pub proof fn lemma_escape_is_rejected(root: Seq<char>, relative: Seq<char>, report: PathReportView)
    requires
        !has_root(relative),
        exists|k: int| 0 < k <= tokens(relative).len() && #[trigger] depth(relative, k) < 0,
    ensures
        candidate(root, relative) == Err::<Option<Seq<char>>, FsErrorView>(
            FsErrorView::OutOfWorkspace(relative),
        ),
        resolve_outcome(root, relative, report) == Err::<Seq<char>, FsErrorView>(
            FsErrorView::OutOfWorkspace(relative),
        ),
{
    lemma_escape(relative);
    let k = choose|k: int| 0 < k <= tokens(relative).len() && #[trigger] depth(relative, k) < 0;
    if relative.len() == 0 {
        assert(tokens(relative).len() == 0);
    }
}

/// Plain names joined by `/` make a path that is not empty, does not begin
/// at the root and does not end in a separator.
pub proof fn lemma_joined_names(names: Seq<Seq<char>>)
    requires
        names.len() > 0,
        all_plain(names),
    ensures
        joined(names, seq!['/']).len() > 0,
        joined(names, seq!['/']).first() != '/',
        joined(names, seq!['/']).last() != '/',
    decreases names.len(),
{
    let last = names.last();
    assert(is_plain_name(last));
    assert(last[0] != '/');
    assert(last[last.len() - 1] != '/');
    if names.len() > 1 {
        let front = names.drop_last();
        assert(all_plain(front)) by {
            assert forall|j: int| 0 <= j < front.len() implies is_plain_name(
                #[trigger] front[j],
            ) by {
                assert(front[j] == names[j]);
            }
        }
        lemma_joined_names(front);
    }
}

/// The segments of a path with plain names joined to it are the segments of
/// the path, and then the names.
pub proof fn lemma_join_names(base: Seq<char>, names: Seq<Seq<char>>)
    requires
        names.len() > 0,
        all_plain(names),
    ensures
        segments(join(base, joined(names, seq!['/']))) == segments(base) + names,
    decreases names.len(),
{
    let sep = seq!['/'];
    let last = names.last();
    assert(is_plain_name(last));
    if names.len() == 1 {
        lemma_join_name(base, last);
        assert(segments(base).push(last) =~= segments(base) + names);
    } else {
        let front = names.drop_last();
        assert(all_plain(front)) by {
            assert forall|j: int| 0 <= j < front.len() implies is_plain_name(
                #[trigger] front[j],
            ) by {
                assert(front[j] == names[j]);
            }
        }
        lemma_joined_names(front);
        lemma_joined_names(names);
        lemma_join_names(base, front);
        let text = joined(front, sep);
        let inner = join(base, text);
        assert(last[0] != '/');
        assert(inner.len() > 0 && inner.last() != '/') by {
            assert(inner.last() == text.last());
        }
        assert(join(base, joined(names, sep)) =~= join(inner, last));
        lemma_join_name(inner, last);
        assert((segments(base) + front).push(last) =~= segments(base) + names);
    }
}

/// The path that a relative path names below a root lies below the root: its
/// segments are those of the root, and then plain names only.
pub proof fn lemma_candidate_within(root: Seq<char>, relative: Seq<char>)
    requires
        candidate(root, relative) is Ok,
        candidate(root, relative)->Ok_0 is Some,
    ensures
        starts_with(candidate(root, relative)->Ok_0->Some_0, root),
        walk(relative) matches Walk::Inside(names) && all_plain(names) && segments(
            candidate(root, relative)->Ok_0->Some_0,
        ) == segments(root) + names,
{
    lemma_escape(relative);
    match walk(relative) {
        Walk::Inside(names) => {
            if names.len() == 0 {
                assert(joined(names, seq!['/']).len() == 0);
            }
            lemma_joined_names(names);
            lemma_join_names(root, names);
            lemma_join_within(root, joined(names, seq!['/']));
        },
        _ => {},
    }
}

} // verus!
