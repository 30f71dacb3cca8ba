//! Paths as text: the segments of a path, its final segment, its parent, its
//! extension, joining and containment. Nothing here touches the file system.
//!
//! A path is a string whose segments are separated by `/`. Repeated separators
//! and a trailing separator count for nothing, a `.` segment counts only at the
//! very beginning, and a leading `/` is the root.

use vstd::prelude::*;
use vstd::string::*;
use crate::error::{FsError, FsErrorView};
use crate::text::{
    append_chars, ascii_lowered, chars_of, equals_ascii_lowered, is_blank, is_blank_chars, joined,
    same_chars, slice_chars, string_of, text_of,
};

verus! {

/// The kinds of segment that a path is made of.
#[derive(Clone, Copy, Debug, PartialEq, Eq, Structural)]
pub enum Segment {
    /// The leading `/`.
    Root,
    /// A leading `.`.
    Current,
    /// A `..`.
    Parent,
    /// Any other name.
    Normal,
}

/// One segment of a path: its kind and where its text lies in the path.
pub struct Token {
    pub kind: Segment,
    pub start: int,
    pub end: int,
}

/// One segment of a path as the lexer hands it out.
#[derive(Clone, Copy, Debug)]
pub struct Span {
    pub kind: Segment,
    pub start: usize,
    pub end: usize,
}

impl View for Span {
    type V = Token;

    open spec fn view(&self) -> Token {
        Token { kind: self.kind, start: self.start as int, end: self.end as int }
    }
}

/// The end of the piece that begins at `i`: the index of the next separator, or
/// the length of the path.
pub open spec fn piece_end(s: Seq<char>, i: int) -> int
    decreases s.len() - i,
{
    if 0 <= i < s.len() && s[i] != '/' {
        piece_end(s, i + 1)
    } else {
        i
    }
}

/// The piece that begins at `i` runs up to `piece_end(s, i)`, holds no
/// separator, and ends at a separator or at the end of the path.
pub proof fn lemma_piece_end(s: Seq<char>, i: int)
    requires
        0 <= i <= s.len(),
    ensures
        i <= piece_end(s, i) <= s.len(),
        forall|k: int| i <= k < piece_end(s, i) ==> #[trigger] s[k] != '/',
        piece_end(s, i) < s.len() ==> s[piece_end(s, i)] == '/',
    decreases s.len() - i,
{
    if i < s.len() && s[i] != '/' {
        lemma_piece_end(s, i + 1);
    }
}

/// The segment that the piece from `i` to `e` stands for, if any: an empty
/// piece and a `.` stand for none.
pub open spec fn piece_token(s: Seq<char>, i: int, e: int) -> Option<Token> {
    let piece = s.subrange(i, e);
    if piece.len() == 0 || piece == seq!['.'] {
        None
    } else if piece == seq!['.', '.'] {
        Some(Token { kind: Segment::Parent, start: i, end: e })
    } else {
        Some(Token { kind: Segment::Normal, start: i, end: e })
    }
}

/// The segments of the pieces from index `i` on.
pub open spec fn body_tokens(s: Seq<char>, i: int) -> Seq<Token>
    decreases s.len() + 1 - i,
{
    if i < 0 || i >= s.len() {
        Seq::empty()
    } else {
        let e = piece_end(s, i);
        proof {
            lemma_piece_end(s, i);
        }
        let rest = body_tokens(s, e + 1);
        match piece_token(s, i, e) {
            Some(t) => seq![t] + rest,
            None => rest,
        }
    }
}

/// Whether the path begins at the root.
pub open spec fn has_root(s: Seq<char>) -> bool {
    s.len() > 0 && s[0] == '/'
}

/// Whether the path begins with a `.` segment.
pub open spec fn has_leading_dot(s: Seq<char>) -> bool {
    s.len() > 0 && s[0] == '.' && (s.len() == 1 || s[1] == '/')
}

/// The segments of a path, in order.
pub open spec fn tokens(s: Seq<char>) -> Seq<Token> {
    if has_root(s) {
        seq![Token { kind: Segment::Root, start: 0, end: 1 }] + body_tokens(s, 1)
    } else if has_leading_dot(s) {
        seq![Token { kind: Segment::Current, start: 0, end: 1 }] + body_tokens(s, 1)
    } else {
        body_tokens(s, 0)
    }
}

/// The text of a segment.
pub open spec fn token_text(s: Seq<char>, t: Token) -> Seq<char> {
    s.subrange(t.start, t.end)
}

/// The texts of the segments of a path, in order. The text tells the kind:
/// `/` is the root, `.` the leading dot, `..` a parent, anything else a name.
pub open spec fn segments(s: Seq<char>) -> Seq<Seq<char>> {
    Seq::new(tokens(s).len(), |i: int| token_text(s, tokens(s)[i]))
}

/// A name that can stand as one segment of a path: not empty, without
/// separator, and neither `.` nor `..`.
pub open spec fn is_plain_name(name: Seq<char>) -> bool {
    &&& name.len() > 0
    &&& forall|k: int| 0 <= k < name.len() ==> #[trigger] name[k] != '/'
    &&& name != seq!['.']
    &&& name != seq!['.', '.']
}

/// Every token of the body lies within the path, after `i`, and its text is a
/// plain name or `..`.
pub proof fn lemma_body_tokens(s: Seq<char>, i: int)
    requires
        0 <= i,
    ensures
        forall|k: int|
            0 <= k < body_tokens(s, i).len() ==> {
                let t = #[trigger] body_tokens(s, i)[k];
                &&& i <= t.start < t.end <= s.len()
                &&& (t.kind == Segment::Normal || t.kind == Segment::Parent)
                &&& t.end == piece_end(s, t.start)
                &&& (t.kind == Segment::Normal ==> is_plain_name(token_text(s, t)))
                &&& (t.kind == Segment::Parent ==> token_text(s, t) == seq!['.', '.'])
            },
        forall|k: int, l: int|
            0 <= k < l < body_tokens(s, i).len() ==> (#[trigger] body_tokens(s, i)[k]).end < (
            #[trigger] body_tokens(s, i)[l]).start,
    decreases s.len() + 1 - i,
{
    if i >= s.len() {
    } else {
        let e = piece_end(s, i);
        lemma_piece_end(s, i);
        lemma_body_tokens(s, e + 1);
        let rest = body_tokens(s, e + 1);
        match piece_token(s, i, e) {
            Some(t) => {
                assert(body_tokens(s, i) == seq![t] + rest);
                assert forall|k: int| 0 <= k < body_tokens(s, i).len() implies {
                    let u = #[trigger] body_tokens(s, i)[k];
                    &&& i <= u.start < u.end <= s.len()
                    &&& (u.kind == Segment::Normal || u.kind == Segment::Parent)
                    &&& u.end == piece_end(s, u.start)
                    &&& (u.kind == Segment::Normal ==> is_plain_name(token_text(s, u)))
                    &&& (u.kind == Segment::Parent ==> token_text(s, u) == seq!['.', '.'])
                } by {
                    if k == 0 {
                        assert(body_tokens(s, i)[0] == t);
                    } else {
                        assert(body_tokens(s, i)[k] == rest[k - 1]);
                    }
                }
                assert forall|k: int, l: int| 0 <= k < l < body_tokens(s, i).len() implies (
                #[trigger] body_tokens(s, i)[k]).end < (#[trigger] body_tokens(s, i)[l]).start by {
                    assert(body_tokens(s, i)[l] == rest[l - 1]);
                    if k == 0 {
                        assert(body_tokens(s, i)[0] == t);
                    } else {
                        assert(body_tokens(s, i)[k] == rest[k - 1]);
                    }
                }
            },
            None => {
                assert(body_tokens(s, i) == rest);
            },
        }
    }
}

/// Every token lies within the path; only the first can be the root or the
/// leading dot; the texts of the others are plain names or `..`.
pub proof fn lemma_tokens(s: Seq<char>)
    ensures
        forall|k: int|
            0 <= k < tokens(s).len() ==> {
                let t = #[trigger] tokens(s)[k];
                &&& 0 <= t.start < t.end <= s.len()
                &&& (t.kind == Segment::Root ==> k == 0 && token_text(s, t) == seq!['/'])
                &&& (t.kind == Segment::Current ==> k == 0 && token_text(s, t) == seq!['.'])
                &&& (t.kind == Segment::Parent ==> token_text(s, t) == seq!['.', '.'])
                &&& (t.kind == Segment::Normal ==> is_plain_name(token_text(s, t)))
            },
        forall|k: int, l: int|
            0 <= k < l < tokens(s).len() ==> (#[trigger] tokens(s)[k]).end <= (
            #[trigger] tokens(s)[l]).start,
{
    if has_root(s) || has_leading_dot(s) {
        lemma_body_tokens(s, 1);
        let rest = body_tokens(s, 1);
        let head = tokens(s)[0];
        assert(token_text(s, head) =~= seq![s[0]]);
        assert forall|k: int| 0 <= k < tokens(s).len() implies {
            let t = #[trigger] tokens(s)[k];
            &&& 0 <= t.start < t.end <= s.len()
            &&& (t.kind == Segment::Root ==> k == 0 && token_text(s, t) == seq!['/'])
            &&& (t.kind == Segment::Current ==> k == 0 && token_text(s, t) == seq!['.'])
            &&& (t.kind == Segment::Parent ==> token_text(s, t) == seq!['.', '.'])
            &&& (t.kind == Segment::Normal ==> is_plain_name(token_text(s, t)))
        } by {
            if k > 0 {
                assert(tokens(s)[k] == rest[k - 1]);
            }
        }
        assert forall|k: int, l: int| 0 <= k < l < tokens(s).len() implies (#[trigger] tokens(
            s,
        )[k]).end <= (#[trigger] tokens(s)[l]).start by {
            assert(tokens(s)[l] == rest[l - 1]);
            if k > 0 {
                assert(tokens(s)[k] == rest[k - 1]);
            }
        }
    } else {
        lemma_body_tokens(s, 0);
    }
}

/// Whether each of `spans` lies within a path of `len` characters.
pub open spec fn spans_within(spans: Seq<Span>, len: nat) -> bool {
    forall|j: int| 0 <= j < spans.len() ==> (#[trigger] spans[j]).start <= spans[j].end <= len
}

/// Whether `spans` are the tokens `toks`, one for one.
pub open spec fn spans_are(spans: Seq<Span>, toks: Seq<Token>) -> bool {
    &&& spans.len() == toks.len()
    &&& forall|k: int| 0 <= k < spans.len() ==> (#[trigger] spans[k])@ == toks[k]
}

fn scan(s: &Vec<char>) -> (out: Vec<Span>)
    ensures
        spans_are(out@, tokens(s@)),
{
    let n = s.len();
    let mut out: Vec<Span> = Vec::new();
    let mut i: usize = 0;
    let ghost mut built: Seq<Token> = Seq::empty();
    if n > 0 && s[0] == '/' {
        out.push(Span { kind: Segment::Root, start: 0, end: 1 });
        proof {
            built = seq![Token { kind: Segment::Root, start: 0, end: 1 }];
        }
        i = 1;
    } else if n > 0 && s[0] == '.' && (n == 1 || s[1] == '/') {
        out.push(Span { kind: Segment::Current, start: 0, end: 1 });
        proof {
            built = seq![Token { kind: Segment::Current, start: 0, end: 1 }];
        }
        i = 1;
    }
    while i < n
        invariant
            n == s.len(),
            i <= n,
            spans_are(out@, built),
            tokens(s@) == built + body_tokens(s@, i as int),
        decreases n - i,
    {
        let mut e: usize = i;
        while e < n && s[e] != '/'
            invariant
                n == s.len(),
                i <= e <= n,
                piece_end(s@, i as int) == piece_end(s@, e as int),
            decreases n - e,
        {
            e += 1;
        }
        let ghost piece = s@.subrange(i as int, e as int);
        let ghost rest = body_tokens(s@, e + 1);
        proof {
            lemma_piece_end(s@, i as int);
        }
        if e == i || (e - i == 1 && s[i] == '.') {
            proof {
                if e != i {
                    assert(piece =~= seq!['.']);
                }
                assert(piece_token(s@, i as int, e as int) is None);
            }
        } else if e - i == 2 && s[i] == '.' && s[i + 1] == '.' {
            out.push(Span { kind: Segment::Parent, start: i, end: e });
            proof {
                assert(piece =~= seq!['.', '.']);
                let t = Token { kind: Segment::Parent, start: i as int, end: e as int };
                assert(piece_token(s@, i as int, e as int) == Some(t));
                assert(built + (seq![t] + rest) =~= built.push(t) + rest);
                built = built.push(t);
            }
        } else {
            out.push(Span { kind: Segment::Normal, start: i, end: e });
            proof {
                let dot = seq!['.'];
                let dots = seq!['.', '.'];
                assert(dot.len() == 1 && dot[0] == '.');
                assert(dots.len() == 2 && dots[0] == '.' && dots[1] == '.');
                assert(piece.len() == e - i);
                if e - i == 1 {
                    assert(piece[0] != '.');
                } else if e - i == 2 {
                    assert(piece[0] != '.' || piece[1] != '.');
                }
                assert(piece != dot);
                assert(piece != dots);
                let t = Token { kind: Segment::Normal, start: i as int, end: e as int };
                assert(piece_token(s@, i as int, e as int) == Some(t));
                assert(built + (seq![t] + rest) =~= built.push(t) + rest);
                built = built.push(t);
            }
        }
        if e >= n {
            proof {
                assert(rest =~= Seq::<Token>::empty());
                assert(built + rest =~= built);
                assert(body_tokens(s@, n as int) =~= Seq::<Token>::empty());
                assert(built + body_tokens(s@, n as int) =~= built);
            }
            i = n;
        } else {
            i = e + 1;
        }
    }
    proof {
        assert(body_tokens(s@, i as int) =~= Seq::<Token>::empty());
        assert(built + body_tokens(s@, i as int) =~= built);
    }
    out
}

/// The final segment of a path, if it is a name: a path that is empty, or
/// that ends in the root, a leading `.` or a `..`, has none.
pub open spec fn file_name(s: Seq<char>) -> Option<Seq<char>> {
    let t = tokens(s);
    if t.len() > 0 && t.last().kind == Segment::Normal {
        Some(token_text(s, t.last()))
    } else {
        None
    }
}

/// The path without its final segment. The empty path and a path that ends
/// in the root have no parent; the parent of a single segment is the empty
/// path.
pub open spec fn parent(s: Seq<char>) -> Option<Seq<char>> {
    let t = tokens(s);
    if t.len() == 0 || t.last().kind == Segment::Root {
        None
    } else if t.len() == 1 {
        Some(Seq::empty())
    } else {
        Some(s.subrange(0, t[t.len() - 2].end))
    }
}

/// `rel` joined to `base`: a rooted `rel` replaces `base`; otherwise `rel`
/// follows `base`, with one separator between them unless `base` is empty or
/// ends in one.
pub open spec fn join(base: Seq<char>, rel: Seq<char>) -> Seq<char> {
    if has_root(rel) {
        rel
    } else if base.len() == 0 || base.last() == '/' {
        base + rel
    } else {
        base + seq!['/'] + rel
    }
}

/// Whether the segments of `path` begin with all the segments of `base`.
pub open spec fn starts_with(path: Seq<char>, base: Seq<char>) -> bool {
    let p = segments(path);
    let b = segments(base);
    &&& b.len() <= p.len()
    &&& forall|k: int| 0 <= k < b.len() ==> #[trigger] p[k] == b[k]
}

/// The segments of `path` that follow those of `root`, joined by `/`.
pub open spec fn relative_to(root: Seq<char>, path: Seq<char>) -> Seq<char> {
    joined(segments(path).skip(segments(root).len() as int), seq!['/'])
}

/// The index of the last `.` before index `j` of `name`, or -1.
pub open spec fn last_dot(name: Seq<char>, j: int) -> int
    decreases j,
{
    if j <= 0 || j > name.len() {
        -1
    } else if name[j - 1] == '.' {
        j - 1
    } else {
        last_dot(name, j - 1)
    }
}

/// The extension of a file name: what follows its last `.`, unless it has none
/// or only one at its very beginning.
pub open spec fn name_extension(name: Seq<char>) -> Option<Seq<char>> {
    let d = last_dot(name, name.len() as int);
    if d <= 0 {
        None
    } else {
        Some(name.subrange(d + 1, name.len() as int))
    }
}

/// The extension of the final segment of a path.
pub open spec fn extension(s: Seq<char>) -> Option<Seq<char>> {
    match file_name(s) {
        Some(name) => name_extension(name),
        None => None,
    }
}

/// Whether the path names a markdown file: its extension is `md` or
/// `markdown`, in any case of letters.
pub open spec fn is_markdown(s: Seq<char>) -> bool {
    match extension(s) {
        Some(e) => ascii_lowered(e) == seq!['m', 'd'] || ascii_lowered(e) == seq![
            'm',
            'a',
            'r',
            'k',
            'd',
            'o',
            'w',
            'n',
        ],
        None => false,
    }
}

/// The segments of the path `s`, each within the path.
pub fn lex(s: &Vec<char>) -> (out: Vec<Span>)
    ensures
        spans_are(out@, tokens(s@)),
        spans_within(out@, s@.len()),
{
    let out = scan(s);
    proof {
        lemma_tokens(s@);
        assert forall|k: int| 0 <= k < out@.len() implies (#[trigger] out@[k]).start
            <= out@[k].end <= s@.len() by {
            assert(out@[k]@ == tokens(s@)[k]);
        }
    }
    out
}

/// The texts of `v`, each by its view.
pub open spec fn texts(v: Seq<String>) -> Seq<Seq<char>> {
    Seq::new(v.len(), |i: int| v[i]@)
}

/// The texts of the segments of `path`, in order.
pub fn path_segments(path: &str) -> (out: Vec<String>)
    ensures
        texts(out@) == segments(path@),
{
    let v = chars_of(path);
    let spans = lex(&v);
    let mut out: Vec<String> = Vec::new();
    let mut k: usize = 0;
    while k < spans.len()
        invariant
            k <= spans.len(),
            v@ == path@,
            spans_are(spans@, tokens(v@)),
            spans_within(spans@, v@.len()),
            out.len() == k,
            texts(out@) == segments(v@).take(k as int),
        decreases spans.len() - k,
    {
        let x = spans[k];
        assert(x@ == tokens(v@)[k as int]);
        let piece = slice_chars(&v, x.start, x.end);
        let ghost before = out@;
        let text = string_of(&piece);
        out.push(text);
        proof {
            assert(text@ == segments(v@)[k as int]);
            assert forall|j: int| 0 <= j < k + 1 implies #[trigger] texts(out@)[j] == segments(
                v@,
            ).take(k + 1)[j] by {
                if j < k {
                    assert(out@[j] == before[j]);
                    assert(texts(before)[j] == segments(v@).take(k as int)[j]);
                }
            }
            assert(texts(out@) =~= segments(v@).take(k + 1));
        }
        k += 1;
    }
    assert(segments(v@).take(spans.len() as int) =~= segments(v@));
    out
}

/// The final segment of `path`, if it is a name.
pub fn file_name_of(path: &str) -> (name: Option<String>)
    ensures
        text_of(name) == file_name(path@),
{
    let v = chars_of(path);
    let spans = lex(&v);
    let n = spans.len();
    if n == 0 {
        return None;
    }
    let last = spans[n - 1];
    assert(last@ == tokens(v@)[n - 1]);
    match last.kind {
        Segment::Normal => {
            let name = slice_chars(&v, last.start, last.end);
            Some(string_of(&name))
        },
        _ => None,
    }
}

/// `path` without its final segment, if it has a parent.
pub fn parent_of(path: &str) -> (dir: Option<String>)
    ensures
        text_of(dir) == parent(path@),
{
    let v = chars_of(path);
    let spans = lex(&v);
    let n = spans.len();
    if n == 0 {
        return None;
    }
    let last = spans[n - 1];
    assert(last@ == tokens(v@)[n - 1]);
    match last.kind {
        Segment::Root => None,
        _ => {
            if n == 1 {
                Some(String::new())
            } else {
                let before = spans[n - 2];
                assert(before@ == tokens(v@)[n - 2]);
                let dir = slice_chars(&v, 0, before.end);
                Some(string_of(&dir))
            }
        },
    }
}

/// Whether `path` begins at the root.
pub fn is_absolute(path: &str) -> (rooted: bool)
    ensures
        rooted == has_root(path@),
{
    let v = chars_of(path);
    v.len() > 0 && v[0] == '/'
}

/// `rel` joined to `base`.
pub fn join_path(base: &str, rel: &str) -> (out: String)
    ensures
        out@ == join(base@, rel@),
{
    let b = chars_of(base);
    let r = chars_of(rel);
    if r.len() > 0 && r[0] == '/' {
        return string_of(&r);
    }
    let mut out = b;
    if out.len() > 0 && out[out.len() - 1] != '/' {
        out.push('/');
    }
    append_chars(&mut out, &r);
    string_of(&out)
}

fn same_text(a: &Vec<char>, x: Span, b: &Vec<char>, y: Span) -> (same: bool)
    requires
        x.start <= x.end <= a.len(),
        y.start <= y.end <= b.len(),
    ensures
        same == (token_text(a@, x@) == token_text(b@, y@)),
{
    let left = slice_chars(a, x.start, x.end);
    let right = slice_chars(b, y.start, y.end);
    same_chars(&left, &right)
}

/// Whether the segments of `path` begin with all the segments of `base`.
pub fn path_starts_with(path: &str, base: &str) -> (within: bool)
    ensures
        within == starts_with(path@, base@),
{
    let p = chars_of(path);
    let b = chars_of(base);
    let ps = lex(&p);
    let bs = lex(&b);
    if bs.len() > ps.len() {
        return false;
    }
    let mut k: usize = 0;
    while k < bs.len()
        invariant
            k <= bs.len() <= ps.len(),
            p@ == path@,
            b@ == base@,
            spans_are(ps@, tokens(p@)),
            spans_are(bs@, tokens(b@)),
            spans_within(ps@, p@.len()),
            spans_within(bs@, b@.len()),
            forall|j: int| 0 <= j < k ==> #[trigger] segments(p@)[j] == segments(b@)[j],
        decreases bs.len() - k,
    {
        let x = ps[k];
        let y = bs[k];
        assert(x@ == tokens(p@)[k as int]);
        assert(y@ == tokens(b@)[k as int]);
        if !same_text(&p, x, &b, y) {
            assert(segments(p@)[k as int] != segments(b@)[k as int]);
            return false;
        }
        k += 1;
    }
    true
}

/// The texts of `spans` in the path `s`.
pub open spec fn span_texts(s: Seq<char>, spans: Seq<Span>) -> Seq<Seq<char>> {
    Seq::new(spans.len(), |k: int| token_text(s, spans[k]@))
}

/// The texts of `spans` from index `from` on, joined by `/`.
pub fn join_spans(s: &Vec<char>, spans: &Vec<Span>, from: usize) -> (text: Vec<char>)
    requires
        from <= spans.len(),
        spans_within(spans@, s@.len()),
    ensures
        text@ == joined(span_texts(s@, spans@).skip(from as int), seq!['/']),
{
    let ghost rest = span_texts(s@, spans@).skip(from as int);
    let ghost sep = seq!['/'];
    let mut text: Vec<char> = Vec::new();
    let mut k: usize = from;
    while k < spans.len()
        invariant
            from <= k <= spans.len(),
            sep == seq!['/'],
            rest == span_texts(s@, spans@).skip(from as int),
            spans_within(spans@, s@.len()),
            text@ == joined(rest.take(k - from), sep),
        decreases spans.len() - k,
    {
        let x = spans[k];
        let piece = slice_chars(s, x.start, x.end);
        proof {
            let done = rest.take(k - from);
            let more = rest.take(k - from + 1);
            assert(rest[k - from] == piece@);
            assert(more.drop_last() =~= done);
            assert(more.last() == piece@);
            if k > from {
                assert(joined(more, sep) == joined(done, sep) + sep + piece@);
            } else {
                assert(joined(more, sep) == piece@);
                assert(joined(done, sep) =~= Seq::<char>::empty());
            }
        }
        if k > from {
            text.push('/');
            assert(text@ =~= joined(rest.take(k - from), sep) + sep);
        }
        append_chars(&mut text, &piece);
        k += 1;
    }
    assert(rest.take(spans.len() - from) =~= rest);
    text
}

/// The path of `path` below `root`, with `/` between its segments. Fails with
/// `OutOfWorkspace` when the segments of `path` do not begin with those of
/// `root`.
pub fn relative_path_string(root: &str, path: &str) -> (out: Result<String, FsError>)
    ensures
        starts_with(path@, root@) ==> (out matches Ok(text) && text@ == relative_to(
            root@,
            path@,
        )),
        !starts_with(path@, root@) ==> (out matches Err(e) && e@ == FsErrorView::OutOfWorkspace(
            path@,
        )),
{
    if !path_starts_with(path, root) {
        return Err(FsError::OutOfWorkspace(String::from_str(path)));
    }
    let p = chars_of(path);
    let r = chars_of(root);
    let ps = lex(&p);
    let rs = lex(&r);
    assert(span_texts(p@, ps@) =~= segments(p@));
    let text = join_spans(&p, &ps, rs.len());
    Ok(string_of(&text))
}

fn find_last_dot(name: &Vec<char>) -> (at: Option<usize>)
    ensures
        match at {
            Some(d) => d < name.len() && d == last_dot(name@, name.len() as int),
            None => last_dot(name@, name.len() as int) == -1,
        },
{
    let mut j: usize = name.len();
    while j > 0
        invariant
            j <= name.len(),
            last_dot(name@, name.len() as int) == last_dot(name@, j as int),
        decreases j,
    {
        if name[j - 1] == '.' {
            return Some(j - 1);
        }
        j -= 1;
    }
    None
}

/// The extension of the final segment of `path`.
pub fn extension_of(path: &str) -> (ext: Option<String>)
    ensures
        text_of(ext) == extension(path@),
{
    match file_name_of(path) {
        None => None,
        Some(name) => {
            let v = chars_of(name.as_str());
            match find_last_dot(&v) {
                None => None,
                Some(d) => {
                    if d == 0 {
                        None
                    } else {
                        let e = slice_chars(&v, d + 1, v.len());
                        Some(string_of(&e))
                    }
                },
            }
        },
    }
}

/// `s` with the extension of its final segment replaced by `ext`, or with
/// `ext` added where it has none; an empty `ext` takes the extension away. A
/// path without a file name is left as it is. What follows the file name goes.
pub open spec fn with_extension(s: Seq<char>, ext: Seq<char>) -> Seq<char> {
    let t = tokens(s);
    if t.len() == 0 || t.last().kind != Segment::Normal {
        s
    } else {
        let name = token_text(s, t.last());
        let d = last_dot(name, name.len() as int);
        let stem_end = if d <= 0 {
            t.last().end
        } else {
            t.last().start + d
        };
        if ext.len() == 0 {
            s.subrange(0, stem_end)
        } else {
            s.subrange(0, stem_end) + seq!['.'] + ext
        }
    }
}

/// `path` with the extension of its final segment replaced by `ext`.
pub fn path_with_extension(path: &str, ext: &str) -> (out: String)
    ensures
        out@ == with_extension(path@, ext@),
{
    let v = chars_of(path);
    let spans = lex(&v);
    let n = spans.len();
    if n == 0 {
        return String::from_str(path);
    }
    let last = spans[n - 1];
    assert(last@ == tokens(v@)[n - 1]);
    match last.kind {
        Segment::Normal => {
            let name = slice_chars(&v, last.start, last.end);
            let stem_end = match find_last_dot(&name) {
                None => last.end,
                Some(d) => if d == 0 {
                    last.end
                } else {
                    last.start + d
                },
            };
            let mut out = slice_chars(&v, 0, stem_end);
            let e = chars_of(ext);
            if e.len() > 0 {
                out.push('.');
                append_chars(&mut out, &e);
            }
            string_of(&out)
        },
        _ => String::from_str(path),
    }
}

/// Whether `path` names a markdown file.
pub fn is_markdown_file(path: &str) -> (markdown: bool)
    ensures
        markdown == is_markdown(path@),
{
    match extension_of(path) {
        None => false,
        Some(ext) => {
            let e = chars_of(ext.as_str());
            let md: Vec<char> = vec!['m', 'd'];
            let long: Vec<char> = vec!['m', 'a', 'r', 'k', 'd', 'o', 'w', 'n'];
            assert(md@ =~= seq!['m', 'd']);
            assert(long@ =~= seq!['m', 'a', 'r', 'k', 'd', 'o', 'w', 'n']);
            equals_ascii_lowered(&e, &md) || equals_ascii_lowered(&e, &long)
        },
    }
}

/// Checks that `path` can name a file: it is not blank and it ends in a name.
/// Fails with `EmptyPath` when the path is empty or holds only white space,
/// with `InvalidPath` when it has no final segment that is a name.
pub fn normalize_path(path: &str) -> (out: Result<String, FsError>)
    ensures
        is_blank(path@) ==> (out matches Err(e) && e@ == FsErrorView::EmptyPath),
        !is_blank(path@) && file_name(path@) is None ==> (out matches Err(e) && e@
            == FsErrorView::InvalidPath(path@)),
        !is_blank(path@) && file_name(path@) is Some ==> (out matches Ok(p) && p@ == path@),
{
    let v = chars_of(path);
    if is_blank_chars(&v) {
        return Err(FsError::EmptyPath);
    }
    match file_name_of(path) {
        None => Err(FsError::InvalidPath(String::from_str(path))),
        Some(_) => Ok(String::from_str(path)),
    }
}

} // verus!
