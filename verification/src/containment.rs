//! Laws of joining and containment: what is joined to a path lies below it.

use vstd::prelude::*;
use crate::path::{
    body_tokens, file_name, has_leading_dot, has_root, is_plain_name, join, lemma_piece_end,
    lemma_tokens, piece_end, piece_token, segments, starts_with, token_text, tokens, Segment,
    Token,
};

verus! {

/// Whether `u` begins with `s`.
pub open spec fn begins_with(u: Seq<char>, s: Seq<char>) -> bool {
    &&& s.len() <= u.len()
    &&& forall|k: int| 0 <= k < s.len() ==> #[trigger] u[k] == s[k]
}

/// The piece that begins at `i` ends at `j` when no separator lies between
/// them and `j` is a separator or the end.
pub proof fn lemma_piece_ends_at(u: Seq<char>, i: int, j: int)
    requires
        0 <= i <= j <= u.len(),
        forall|k: int| i <= k < j ==> #[trigger] u[k] != '/',
        j == u.len() || u[j] == '/',
    ensures
        piece_end(u, i) == j,
    decreases j - i,
{
    if i < j {
        assert(u[i] != '/');
        lemma_piece_ends_at(u, i + 1, j);
    }
}

/// The tokens of the body of `u` up to the end of `s`, where `u` begins with
/// `s` and `s` ends in a separator, are those of `s`.
pub proof fn lemma_body_of_beginning(s: Seq<char>, u: Seq<char>, i: int)
    requires
        begins_with(u, s),
        s.len() > 0,
        s.last() == '/',
        0 <= i <= s.len(),
    ensures
        body_tokens(u, i) == body_tokens(s, i) + body_tokens(u, s.len() as int),
    decreases s.len() - i,
{
    if i == s.len() {
        assert(body_tokens(s, i) =~= Seq::<Token>::empty());
        assert(body_tokens(u, i) =~= body_tokens(s, i) + body_tokens(u, s.len() as int));
    } else {
        let e = piece_end(s, i);
        lemma_piece_end(s, i);
        if e == s.len() {
            assert(s[s.len() - 1] != '/');
        }
        assert(e < s.len());
        assert forall|k: int| i <= k < e implies #[trigger] u[k] != '/' by {
            assert(u[k] == s[k]);
        }
        assert(u[e] == s[e]);
        lemma_piece_ends_at(u, i, e);
        assert(u.subrange(i, e) =~= s.subrange(i, e));
        assert(piece_token(u, i, e) == piece_token(s, i, e));
        lemma_body_of_beginning(s, u, e + 1);
        let tail = body_tokens(u, s.len() as int);
        match piece_token(s, i, e) {
            Some(t) => {
                assert(seq![t] + (body_tokens(s, e + 1) + tail) =~= (seq![t] + body_tokens(
                    s,
                    e + 1,
                )) + tail);
            },
            None => {},
        }
    }
}

/// The tokens of `u`, where `u` begins with `s` and `s` ends in a separator,
/// begin with the tokens of `s`.
pub proof fn lemma_tokens_of_beginning(s: Seq<char>, u: Seq<char>)
    requires
        begins_with(u, s),
        s.len() > 0,
        s.last() == '/',
    ensures
        tokens(u) == tokens(s) + body_tokens(u, s.len() as int),
{
    assert(u[0] == s[0]);
    if s.len() >= 2 {
        assert(u[1] == s[1]);
    }
    if has_root(s) {
        lemma_body_of_beginning(s, u, 1);
        let head = seq![Token { kind: Segment::Root, start: 0, end: 1 }];
        assert(head + (body_tokens(s, 1) + body_tokens(u, s.len() as int)) =~= (head + body_tokens(
            s,
            1,
        )) + body_tokens(u, s.len() as int));
    } else if has_leading_dot(s) {
        assert(has_leading_dot(u));
        lemma_body_of_beginning(s, u, 1);
        let head = seq![Token { kind: Segment::Current, start: 0, end: 1 }];
        assert(head + (body_tokens(s, 1) + body_tokens(u, s.len() as int)) =~= (head + body_tokens(
            s,
            1,
        )) + body_tokens(u, s.len() as int));
    } else {
        assert(!has_leading_dot(u));
        lemma_body_of_beginning(s, u, 0);
    }
}

proof fn lemma_body_with_slash(s: Seq<char>, i: int)
    requires
        s.len() > 0,
        s.last() != '/',
        0 <= i,
    ensures
        body_tokens(s.push('/'), i) == body_tokens(s, i),
    decreases s.len() + 1 - i,
{
    let u = s.push('/');
    if i >= s.len() {
        assert(body_tokens(s, i) =~= Seq::<Token>::empty());
        if i == s.len() {
            assert(u[i] == '/');
            assert(piece_end(u, i) == i);
            assert(u.subrange(i, i).len() == 0);
            assert(piece_token(u, i, i) is None);
            assert(body_tokens(u, i + 1) =~= Seq::<Token>::empty());
        }
    } else {
        let e = piece_end(s, i);
        lemma_piece_end(s, i);
        assert forall|k: int| i <= k < e implies #[trigger] u[k] != '/' by {
            assert(u[k] == s[k]);
        }
        if e < s.len() {
            assert(u[e] == s[e]);
        } else {
            assert(u[e] == '/');
        }
        lemma_piece_ends_at(u, i, e);
        assert(u.subrange(i, e) =~= s.subrange(i, e));
        assert(piece_token(u, i, e) == piece_token(s, i, e));
        lemma_body_with_slash(s, e + 1);
    }
}

/// A separator at the end of a path adds no segment.
pub proof fn lemma_trailing_slash(s: Seq<char>)
    requires
        s.len() > 0,
        s.last() != '/',
    ensures
        tokens(s.push('/')) == tokens(s),
{
    let u = s.push('/');
    assert(u[0] == s[0]);
    if s.len() >= 2 {
        assert(u[1] == s[1]);
    } else {
        assert(u[1] == '/');
    }
    lemma_body_with_slash(s, 0);
    lemma_body_with_slash(s, 1);
}

/// A plain name that ends the path `u` is its last segment.
pub proof fn lemma_name_at_end(u: Seq<char>, from: int)
    requires
        0 <= from < u.len(),
        is_plain_name(u.subrange(from, u.len() as int)),
    ensures
        body_tokens(u, from) == seq![
            Token { kind: Segment::Normal, start: from, end: u.len() as int },
        ],
{
    let name = u.subrange(from, u.len() as int);
    assert forall|k: int| from <= k < u.len() implies #[trigger] u[k] != '/' by {
        assert(u[k] == name[k - from]);
    }
    lemma_piece_ends_at(u, from, u.len() as int);
    assert(body_tokens(u, (u.len() + 1) as int) =~= Seq::<Token>::empty());
    let t = Token { kind: Segment::Normal, start: from, end: u.len() as int };
    assert(piece_token(u, from, u.len() as int) == Some(t));
    assert(seq![t] + Seq::<Token>::empty() =~= seq![t]);
}

/// The segments of a path with a plain name joined to it are the segments of
/// the path, and then the name.
pub proof fn lemma_join_name(base: Seq<char>, name: Seq<char>)
    requires
        is_plain_name(name),
    ensures
        segments(join(base, name)) == segments(base).push(name),
        file_name(join(base, name)) == Some(name),
{
    let u = join(base, name);
    assert(name[0] != '/');
    assert(!has_root(name));
    lemma_tokens(base);
    if base.len() == 0 {
        assert(u =~= name);
        assert(u.subrange(0, u.len() as int) =~= name);
        lemma_name_at_end(u, 0);
        if has_leading_dot(name) {
            if name.len() == 1 {
                assert(name =~= seq!['.']);
            } else {
                assert(name[1] != '/');
            }
        }
        assert(tokens(u) == body_tokens(u, 0));
        assert(tokens(base) =~= Seq::<Token>::empty());
        assert(segments(u) =~= segments(base).push(name));
    } else {
        let s = if base.last() == '/' {
            base
        } else {
            base.push('/')
        };
        if base.last() != '/' {
            lemma_trailing_slash(base);
            assert(u =~= s + name);
        }
        assert(u =~= s + name);
        assert(tokens(s) == tokens(base));
        assert(begins_with(u, s));
        lemma_tokens_of_beginning(s, u);
        assert(u.subrange(s.len() as int, u.len() as int) =~= name);
        lemma_name_at_end(u, s.len() as int);
        let last = Token { kind: Segment::Normal, start: s.len() as int, end: u.len() as int };
        assert(tokens(u) =~= tokens(base).push(last));
        assert forall|k: int| 0 <= k < segments(u).len() implies #[trigger] segments(u)[k]
            == segments(base).push(name)[k] by {
            if k < tokens(base).len() {
                let t = tokens(base)[k];
                assert(tokens(u)[k] == t);
                assert(u.subrange(t.start, t.end) =~= base.subrange(t.start, t.end));
            } else {
                assert(tokens(u)[k] == last);
            }
        }
        assert(segments(u) =~= segments(base).push(name));
    }
    assert(tokens(u).last().kind == Segment::Normal);
    assert(token_text(u, tokens(u).last()) == segments(u)[tokens(u).len() - 1]);
}

/// A relative path joined to a path lies below it: the segments of the whole
/// begin with the segments of the path.
pub proof fn lemma_join_within(base: Seq<char>, rel: Seq<char>)
    requires
        !has_root(rel),
    ensures
        starts_with(join(base, rel), base),
{
    let u = join(base, rel);
    lemma_tokens(base);
    if base.len() == 0 {
        assert(tokens(base) =~= Seq::<Token>::empty());
    } else {
        let s = if base.last() == '/' {
            base
        } else {
            base.push('/')
        };
        if base.last() != '/' {
            lemma_trailing_slash(base);
        }
        assert(u =~= s + rel);
        assert(begins_with(u, s));
        lemma_tokens_of_beginning(s, u);
        assert forall|k: int| 0 <= k < segments(base).len() implies #[trigger] segments(u)[k]
            == segments(base)[k] by {
            let t = tokens(base)[k];
            assert(tokens(u)[k] == t);
            assert(u.subrange(t.start, t.end) =~= base.subrange(t.start, t.end));
        }
    }
}

} // verus!
