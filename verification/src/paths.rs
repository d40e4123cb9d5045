//! File paths as text: joining a relative part onto a base, and path equality by
//! components, as `Path` compares paths. `/` always separates components, and so does
//! the platform's own separator `sep` (`\` on Windows); a drive prefix such as `C:`
//! counts as an ordinary first component.

use vstd::prelude::*;
use crate::text::{chars_of, joined, slice_chars, string_of};

verus! {

broadcast use vstd::seq_lib::group_seq_properties;

/// `part` joined onto `base` with separator `sep`, by the rule of `PathBuf::push`: a
/// part that starts with a separator replaces the base; otherwise a separator is put
/// between them unless the base is empty or already ends with one.
pub open spec fn joined_path(base: Seq<char>, part: Seq<char>, sep: char) -> Seq<char> {
    if part.len() > 0 && (part[0] == '/' || part[0] == sep) {
        part
    } else if base.len() == 0 {
        part
    } else if base.last() == '/' || base.last() == sep {
        base + part
    } else {
        base.push(sep) + part
    }
}

/// Join `part` onto `base` with separator `sep` (see [`joined_path`]).
pub fn join_path(base: &str, part: &str, sep: char) -> (r: String)
    ensures
        r@ == joined_path(base@, part@, sep),
{
    let b = chars_of(base);
    let p = chars_of(part);
    if p.len() > 0 && (p[0] == '/' || p[0] == sep) {
        return String::from_str(part);
    }
    if b.len() == 0 {
        return String::from_str(part);
    }
    let last = b[b.len() - 1];
    if last == '/' || last == sep {
        joined(base, part)
    } else {
        let mut bs = b;
        bs.push(sep);
        let with_sep = string_of(&bs);
        joined(with_sep.as_str(), part)
    }
}

/// Whether `c` separates path components: `/` or the platform separator `sep`.
pub open spec fn is_separator(c: char, sep: char) -> bool {
    c == '/' || c == sep
}

/// The pieces of `s` between separators (empty pieces included).
pub open spec fn split_pieces(s: Seq<char>, sep: char) -> Seq<Seq<char>>
    decreases s.len(),
{
    if s.len() == 0 {
        seq![Seq::<char>::empty()]
    } else {
        let rest = split_pieces(s.drop_last(), sep);
        if is_separator(s.last(), sep) {
            rest.push(Seq::<char>::empty())
        } else {
            rest.update(rest.len() - 1, rest.last().push(s.last()))
        }
    }
}

/// A piece that names a component after the first: neither empty nor `.`.
pub open spec fn is_inner_component(p: Seq<char>) -> bool {
    p.len() > 0 && p != seq!['.']
}

/// The components of a path: the pieces between separators, without empty pieces
/// (repeated or trailing separators) and without `.` except at the very start.
pub open spec fn path_components(s: Seq<char>, sep: char) -> Seq<Seq<char>> {
    let ps = split_pieces(s, sep);
    (if ps[0].len() > 0 {
        seq![ps[0]]
    } else {
        Seq::<Seq<char>>::empty()
    }) + ps.skip(1).filter(|p: Seq<char>| is_inner_component(p))
}

/// The path starts at the root.
pub open spec fn is_rooted(s: Seq<char>, sep: char) -> bool {
    s.len() > 0 && is_separator(s[0], sep)
}

/// Two paths name the same path: both or neither start at the root, and they have
/// the same components.
pub open spec fn same_path(a: Seq<char>, b: Seq<char>, sep: char) -> bool {
    is_rooted(a, sep) == is_rooted(b, sep) && path_components(a, sep) == path_components(b, sep)
}

/// The character sequences of a list of character vectors.
pub open spec fn views(v: Seq<Vec<char>>) -> Seq<Seq<char>> {
    v.map_values(|x: Vec<char>| x@)
}

proof fn lemma_split_nonempty(s: Seq<char>, sep: char)
    ensures
        split_pieces(s, sep).len() >= 1,
    decreases s.len(),
{
    if s.len() > 0 {
        lemma_split_nonempty(s.drop_last(), sep);
    }
}

/// The pieces of `s` between separators.
fn pieces_of(s: &str, sep: char) -> (r: Vec<Vec<char>>)
    ensures
        views(r@) == split_pieces(s@, sep),
        r@.len() >= 1,
{
    let c = chars_of(s);
    let mut done: Vec<Vec<char>> = Vec::new();
    let mut cur: Vec<char> = Vec::new();
    let mut i: usize = 0;
    proof {
        assert(s@.take(0) =~= Seq::<char>::empty());
        assert(views(done@).push(cur@) =~= seq![Seq::<char>::empty()]);
    }
    while i < c.len()
        invariant
            c@ == s@,
            i <= c@.len(),
            split_pieces(s@.take(i as int), sep) == views(done@).push(cur@),
        decreases c@.len() - i,
    {
        let ch = c[i];
        proof {
            assert(s@.take(i + 1).drop_last() == s@.take(i as int));
            assert(s@.take(i + 1).last() == ch);
        }
        if ch == '/' || ch == sep {
            let piece = cur;
            let ghost before_done = done@;
            done.push(piece);
            cur = Vec::new();
            proof {
                assert(views(done@) =~= views(before_done).push(piece@));
            }
        } else {
            cur.push(ch);
        }
        i = i + 1;
        proof {
            assert(views(done@).push(cur@) =~= split_pieces(s@.take(i as int), sep));
        }
    }
    proof {
        assert(s@.take(c@.len() as int) == s@);
    }
    let ghost before = done@;
    done.push(cur);
    proof {
        assert(views(done@) =~= views(before).push(done@.last()@));
    }
    done
}

/// The components of a path (see [`path_components`]).
pub fn components_of(s: &str, sep: char) -> (r: Vec<Vec<char>>)
    ensures
        views(r@) == path_components(s@, sep),
{
    let pieces = pieces_of(s, sep);
    let ghost ps = split_pieces(s@, sep);
    let mut out: Vec<Vec<char>> = Vec::new();
    let first_len = pieces[0].len();
    if first_len > 0 {
        out.push(slice_chars(&pieces[0], 0, first_len));
    }
    let ghost head = views(out@);
    proof {
        assert(pieces[0]@ == ps[0]);
        assert(pieces[0]@.subrange(0, first_len as int) == pieces[0]@);
        assert(head == (if ps[0].len() > 0 {
            seq![ps[0]]
        } else {
            Seq::<Seq<char>>::empty()
        }));
    }
    let ghost pred = |p: Seq<char>| is_inner_component(p);
    let mut j: usize = 1;
    while j < pieces.len()
        invariant
            views(pieces@) == ps,
            1 <= j <= pieces@.len(),
            views(out@) == head + ps.skip(1).take(j - 1).filter(pred),
            pred == (|p: Seq<char>| is_inner_component(p)),
        decreases pieces@.len() - j,
    {
        let p = &pieces[j];
        let keep = p.len() > 0 && !(p.len() == 1 && p[0] == '.');
        proof {
            assert(ps[j as int] == p@);
            if p@.len() == 1 {
                assert((p@ == seq!['.']) == (p@[0] == '.')) by {
                    if p@[0] == '.' {
                        assert(p@ =~= seq!['.']);
                    }
                }
            }
            assert(keep == pred(p@));
            reveal_with_fuel(Seq::filter, 1);
            assert(ps.skip(1).take(j as int).drop_last() == ps.skip(1).take(j - 1));
            assert(ps.skip(1).take(j as int).last() == p@);
        }
        let ghost before = out@;
        if keep {
            out.push(slice_chars(p, 0, p.len()));
            proof {
                assert(p@.subrange(0, p@.len() as int) == p@);
                assert(views(out@) =~= views(before).push(p@));
            }
        }
        j = j + 1;
    }
    proof {
        assert(ps.skip(1).take(pieces@.len() - 1) == ps.skip(1));
    }
    out
}

/// Whether two character vectors hold the same characters.
fn same_chars(a: &Vec<char>, b: &Vec<char>) -> (r: bool)
    ensures
        r == (a@ == b@),
{
    if a.len() != b.len() {
        return false;
    }
    let mut i: usize = 0;
    while i < a.len()
        invariant
            a@.len() == b@.len(),
            i <= a@.len(),
            forall|k: int| 0 <= k < i ==> a@[k] == b@[k],
        decreases a@.len() - i,
    {
        if a[i] != b[i] {
            return false;
        }
        i = i + 1;
    }
    proof {
        assert(a@ =~= b@);
    }
    true
}

/// Whether two lists of components are equal.
fn same_components(a: &Vec<Vec<char>>, b: &Vec<Vec<char>>) -> (r: bool)
    ensures
        r == (views(a@) == views(b@)),
{
    if a.len() != b.len() {
        proof {
            assert(views(a@).len() != views(b@).len());
        }
        return false;
    }
    let mut i: usize = 0;
    while i < a.len()
        invariant
            a@.len() == b@.len(),
            i <= a@.len(),
            forall|k: int| 0 <= k < i ==> a@[k]@ == b@[k]@,
        decreases a@.len() - i,
    {
        if !same_chars(&a[i], &b[i]) {
            proof {
                assert(views(a@)[i as int] != views(b@)[i as int]);
            }
            return false;
        }
        i = i + 1;
    }
    proof {
        assert(views(a@) =~= views(b@));
    }
    true
}

/// Whether two paths name the same path (see [`same_path`]), as `PathBuf` equality
/// decides it.
pub fn paths_equal(a: &str, b: &str, sep: char) -> (r: bool)
    ensures
        r == same_path(a@, b@, sep),
{
    let ca = chars_of(a);
    let cb = chars_of(b);
    let ra = ca.len() > 0 && (ca[0] == '/' || ca[0] == sep);
    let rb = cb.len() > 0 && (cb[0] == '/' || cb[0] == sep);
    if ra != rb {
        return false;
    }
    let pa = components_of(a, sep);
    let pb = components_of(b, sep);
    same_components(&pa, &pb)
}

} // verus!
