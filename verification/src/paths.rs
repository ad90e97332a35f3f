//! Paths compared the way `std::path::Path` compares them: by their
//! components, so that `api/GET.ts`, `api//GET.ts` and `api/./GET.ts` name
//! one file.

use vstd::prelude::*;
use vstd::string::StrSliceExecFns;
use vstd::string::StringExecFns;

use crate::text::{is_separator, join_path, platform_separator};

verus! {

/// What identifies a path: whether it starts at the root, whether it starts
/// with the current directory `.`, and its other components (no empty ones
/// and no `.`).
pub struct PathKey {
    pub rooted: bool,
    pub cur_dir: bool,
    pub comps: Seq<Seq<char>>,
}

/// The pieces of `s` between separators, in order, with an empty piece where
/// two separators meet or at either end.
pub open spec fn pieces(s: Seq<char>, sep: char) -> Seq<Seq<char>>
    decreases s.len(),
{
    if s.len() == 0 {
        seq![Seq::<char>::empty()]
    } else if is_separator(s.last(), sep) {
        pieces(s.drop_last(), sep).push(Seq::<char>::empty())
    } else {
        let p = pieces(s.drop_last(), sep);
        p.update(p.len() - 1, p.last().push(s.last()))
    }
}

/// A piece that is a component of its own: not empty and not `.`.
pub open spec fn is_normal_piece(c: Seq<char>) -> bool {
    c.len() > 0 && c != seq!['.']
}

/// The normal pieces of `ps`, in order.
pub open spec fn normal_pieces(ps: Seq<Seq<char>>) -> Seq<Seq<char>>
    decreases ps.len(),
{
    if ps.len() == 0 {
        Seq::<Seq<char>>::empty()
    } else if is_normal_piece(ps.last()) {
        normal_pieces(ps.drop_last()).push(ps.last())
    } else {
        normal_pieces(ps.drop_last())
    }
}

/// The components of the path `s`, with `sep` the main separator (`/` is a
/// separator too): a root when `s` starts with a separator, the current
/// directory when its first piece is `.`, then its other pieces that are
/// neither empty nor `.`. Two paths are the same path when their keys are
/// equal. (Windows prefixes such as `C:` are taken as ordinary characters.)
pub open spec fn path_key(s: Seq<char>, sep: char) -> PathKey {
    let rooted = s.len() > 0 && is_separator(s[0], sep);
    PathKey {
        rooted,
        cur_dir: !rooted && pieces(s, sep)[0] == seq!['.'],
        comps: normal_pieces(pieces(s, sep)),
    }
}

/// `name` is a single component: not empty, not `.`, without a separator.
pub open spec fn is_plain_name(name: Seq<char>, sep: char) -> bool {
    &&& name.len() > 0
    &&& name != seq!['.']
    &&& forall|i: int| 0 <= i < name.len() ==> !is_separator(#[trigger] name[i], sep)
}

/// There is always a piece.
proof fn lemma_pieces_nonempty(s: Seq<char>, sep: char)
    ensures
        pieces(s, sep).len() > 0,
    decreases s.len(),
{
    if s.len() > 0 {
        lemma_pieces_nonempty(s.drop_last(), sep);
    }
}

/// Appending text without separators extends the last piece.
proof fn lemma_pieces_append(p: Seq<char>, n: Seq<char>, sep: char)
    requires
        forall|i: int| 0 <= i < n.len() ==> !is_separator(#[trigger] n[i], sep),
    ensures
        pieces(p + n, sep).len() == pieces(p, sep).len(),
        pieces(p + n, sep).drop_last() == pieces(p, sep).drop_last(),
        pieces(p + n, sep).last() == pieces(p, sep).last() + n,
    decreases n.len(),
{
    lemma_pieces_nonempty(p, sep);
    if n.len() == 0 {
        assert(p + n =~= p);
        assert(pieces(p, sep).last() + n =~= pieces(p, sep).last());
    } else {
        let m = n.drop_last();
        assert(!is_separator(n[n.len() - 1], sep));
        assert forall|i: int| 0 <= i < m.len() implies !is_separator(#[trigger] m[i], sep) by {
            assert(m[i] == n[i]);
        }
        lemma_pieces_append(p, m, sep);
        assert((p + n).drop_last() =~= p + m);
        assert((p + n).last() == n.last());
        lemma_pieces_nonempty(p + m, sep);
        let q = pieces(p + m, sep);
        assert(q.update(q.len() - 1, q.last().push(n.last())).drop_last() =~= q.drop_last());
        assert(q.last().push(n.last()) =~= pieces(p, sep).last() + n);
    }
}

/// The last normal piece is the last piece when that one is normal.
proof fn lemma_normal_last(ps: Seq<Seq<char>>)
    requires
        ps.len() > 0,
        is_normal_piece(ps.last()),
    ensures
        normal_pieces(ps).len() > 0,
        normal_pieces(ps).last() == ps.last(),
{
}

/// What comes before a name when it is joined under `dir`.
pub open spec fn join_prefix(dir: Seq<char>, sep: char) -> Seq<char> {
    join_path(dir, sep, Seq::<char>::empty())
}

/// Under one directory, names that join to the same path are equal.
pub proof fn lemma_join_same_path(dir: Seq<char>, sep: char, a: Seq<char>, b: Seq<char>)
    requires
        is_plain_name(a, sep),
        is_plain_name(b, sep),
        path_key(join_path(dir, sep, a), sep) == path_key(join_path(dir, sep, b), sep),
    ensures
        a == b,
{
    let p = join_prefix(dir, sep);
    lemma_pieces_nonempty(p, sep);
    assert(seq!['.'].len() == 1);
    assert(join_path(dir, sep, a) =~= p + a);
    assert(join_path(dir, sep, b) =~= p + b);
    lemma_pieces_append(p, a, sep);
    lemma_pieces_append(p, b, sep);
    let l = pieces(p, sep).last();
    assert((l + a).len() > 0);
    if l + a == seq!['.'] {
        assert(l.len() == 0);
        assert(a =~= l + a);
    }
    if l + b == seq!['.'] {
        assert(l.len() == 0);
        assert(b =~= l + b);
    }
    lemma_normal_last(pieces(p + a, sep));
    lemma_normal_last(pieces(p + b, sep));
    assert(l + a == l + b);
    assert(a =~= (l + a).skip(l.len() as int));
    assert(b =~= (l + b).skip(l.len() as int));
}

/// The key of a path as plain values: rooted, starting with `.`, and its
/// components.
pub open spec fn key_view(k: (bool, bool, Vec<String>)) -> PathKey {
    PathKey { rooted: k.0, cur_dir: k.1, comps: k.2@.map_values(|c: String| c@) }
}

/// Whether the piece `s[a..b]` is normal.
fn piece_is_normal(s: &str, a: usize, b: usize) -> (r: bool)
    requires
        a <= b <= s@.len(),
    ensures
        r == is_normal_piece(s@.subrange(a as int, b as int)),
{
    if a == b {
        assert(s@.subrange(a as int, b as int).len() == 0);
        false
    } else if b - a == 1 && s.get_char(a) == '.' {
        assert(s@.subrange(a as int, b as int) =~= seq!['.']);
        false
    } else {
        proof {
            assert(seq!['.'].len() == 1 && seq!['.'][0] == '.');
            if s@.subrange(a as int, b as int) == seq!['.'] {
                assert(s@.subrange(a as int, b as int)[0] == s@[a as int]);
            }
        }
        true
    }
}

/// The key of the path `s`, with `sep` the main separator.
pub fn key_of(s: &str, sep: char) -> (r: (bool, bool, Vec<String>))
    ensures
        key_view(r) == path_key(s@, sep),
{
    let n = s.unicode_len();
    let rooted = n > 0 && {
        let c = s.get_char(0);
        c == '/' || c == sep
    };
    let mut done: Vec<String> = Vec::new();
    let mut start: usize = 0;
    let mut first_dot = false;
    let mut seen_sep = false;
    let ghost mut closed: Seq<Seq<char>> = Seq::empty();
    let mut i: usize = 0;
    assert(s@.take(0) =~= Seq::<char>::empty());
    assert(s@.subrange(0, 0) =~= Seq::<char>::empty());
    while i < n
        invariant
            n == s@.len(),
            start <= i <= n,
            pieces(s@.take(i as int), sep) == closed.push(s@.subrange(start as int, i as int)),
            done@.map_values(|c: String| c@) == normal_pieces(closed),
            seen_sep == (closed.len() > 0),
            !seen_sep ==> start == 0,
            seen_sep ==> first_dot == (closed[0] == seq!['.']),
        decreases n - i,
    {
        let c = s.get_char(i);
        let ghost before = s@.take(i as int);
        assert(s@.take(i + 1).drop_last() =~= before);
        assert(s@.take(i + 1).last() == c);
        if c == '/' || c == sep {
            let normal = piece_is_normal(s, start, i);
            let piece = s.substring_char(start, i);
            if !seen_sep {
                first_dot = i == 1 && s.get_char(0) == '.';
                proof {
                    if i == 1 && s@[0] == '.' {
                        assert(s@.subrange(0, 1) =~= seq!['.']);
                    }
                    if s@.subrange(0, i as int) == seq!['.'] {
                        assert(s@.subrange(0, i as int)[0] == s@[0]);
                    }
                }
            }
            let ghost last_piece = s@.subrange(start as int, i as int);
            if normal {
                done.push(String::from_str(piece));
            }
            proof {
                let old_closed = closed;
                closed = closed.push(last_piece);
                assert(closed.drop_last() =~= old_closed);
                assert(done@.map_values(|c: String| c@) =~= normal_pieces(closed));
                assert(s@.subrange((i + 1) as int, (i + 1) as int) =~= Seq::<char>::empty());
            }
            seen_sep = true;
            start = i + 1;
        } else {
            proof {
                assert(s@.subrange(start as int, i as int).push(c) =~= s@.subrange(start as int, i + 1));
                let q = closed.push(s@.subrange(start as int, i as int));
                assert(q.update(q.len() - 1, q.last().push(c)) =~= closed.push(
                    s@.subrange(start as int, i + 1),
                ));
            }
        }
        i = i + 1;
    }
    assert(s@.take(n as int) =~= s@);
    let normal = piece_is_normal(s, start, n);
    if normal {
        let piece = s.substring_char(start, n);
        done.push(String::from_str(piece));
    }
    proof {
        let all = closed.push(s@.subrange(start as int, n as int));
        assert(all.drop_last() =~= closed);
        assert(done@.map_values(|c: String| c@) =~= normal_pieces(all));
    }
    let cur_dir = if seen_sep {
        first_dot
    } else {
        let d = n == 1 && s.get_char(0) == '.';
        proof {
            if n == 1 && s@[0] == '.' {
                assert(s@.subrange(0, 1) =~= seq!['.']);
            }
            if s@.subrange(0, n as int) == seq!['.'] {
                assert(s@.subrange(0, n as int)[0] == s@[0]);
            }
        }
        d
    };
    (rooted, !rooted && cur_dir, done)
}

/// Whether `a` and `b` are the same path, with `sep` the main separator.
pub fn same_path(a: &str, b: &str, sep: char) -> (r: bool)
    ensures
        r == (path_key(a@, sep) == path_key(b@, sep)),
{
    let ka = key_of(a, sep);
    let kb = key_of(b, sep);
    assert(key_view(ka).comps.len() == ka.2@.len());
    assert(key_view(kb).comps.len() == kb.2@.len());
    if ka.0 != kb.0 || ka.1 != kb.1 || ka.2.len() != kb.2.len() {
        return false;
    }
    let n = ka.2.len();
    let mut i: usize = 0;
    while i < n
        invariant
            n == ka.2@.len(),
            n == kb.2@.len(),
            key_view(ka) == path_key(a@, sep),
            key_view(kb) == path_key(b@, sep),
            i <= n,
            forall|j: int| 0 <= j < i ==> (#[trigger] ka.2@[j])@ == kb.2@[j]@,
        decreases n - i,
    {
        if ka.2[i] != kb.2[i] {
            assert(key_view(ka).comps[i as int] == ka.2@[i as int]@);
            assert(key_view(kb).comps[i as int] == kb.2@[i as int]@);
            assert(ka.2@[i as int]@ != kb.2@[i as int]@);
            assert(key_view(ka).comps != key_view(kb).comps);
            return false;
        }
        i = i + 1;
    }
    assert forall|j: int| 0 <= j < n implies key_view(ka).comps[j] == key_view(kb).comps[j] by {
        assert(key_view(ka).comps[j] == ka.2@[j]@);
        assert(key_view(kb).comps[j] == kb.2@[j]@);
    }
    assert(key_view(ka).comps =~= key_view(kb).comps);
    true
}

} // verus!
