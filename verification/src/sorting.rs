//! Stable sorting of items by a text key.

use vstd::prelude::*;
use crate::text::{lex_lt, lex_le, lex_less, lemma_lex_total, lemma_lex_transitive, lemma_lex_irreflexive};

verus! {

broadcast use vstd::seq_lib::group_seq_properties;

/// Items that are ordered by a text key.
pub trait TextKeyed {
    /// The key, as characters.
    spec fn text_key(&self) -> Seq<char>;

    /// The key, computed.
    fn key_chars(&self) -> (r: Vec<char>)
        ensures
            r@ == self.text_key(),
    ;
}

/// The items of `s` whose key is `k`, in their order in `s`.
pub open spec fn with_key<T: TextKeyed>(s: Seq<T>, k: Seq<char>) -> Seq<T> {
    s.filter(|y: T| y.text_key() == k)
}

/// The keys of `s` never decrease.
pub open spec fn keys_sorted<T: TextKeyed>(s: Seq<T>) -> bool {
    forall|i: int, j: int| 0 <= i < j < s.len() ==> lex_le(#[trigger] s[i].text_key(), #[trigger] s[j].text_key())
}

/// `out` is the stable sort of `inp` by key: keys never decrease, and the items of
/// each key come in the order they had in `inp`.
pub open spec fn stably_sorted<T: TextKeyed>(out: Seq<T>, inp: Seq<T>) -> bool {
    &&& keys_sorted(out)
    &&& forall|k: Seq<char>| #[trigger] with_key(out, k) == with_key(inp, k)
}

/// When no item of `s` has key `k`, none is kept.
proof fn lemma_with_key_none<T: TextKeyed>(s: Seq<T>, k: Seq<char>)
    requires
        forall|i: int| 0 <= i < s.len() ==> s[i].text_key() != k,
    ensures
        with_key(s, k) == Seq::<T>::empty(),
    decreases s.len(),
{
    reveal(Seq::filter);
    if s.len() > 0 {
        lemma_with_key_none(s.drop_last(), k);
    }
}

/// Filtering a one-item sequence.
proof fn lemma_with_key_single<T: TextKeyed>(x: T, k: Seq<char>)
    ensures
        with_key(seq![x], k) == (if x.text_key() == k {
            seq![x]
        } else {
            Seq::<T>::empty()
        }),
{
    reveal_with_fuel(Seq::filter, 2);
    assert(seq![x].drop_last() == Seq::<T>::empty());
}

/// Inserting `x` at position `p` of a sorted sequence, where every key before `p` is at
/// most `x`'s and every key from `p` on is greater, keeps it sorted and adds `x` at the
/// end of the items with its key.
proof fn lemma_insert_sorted<T: TextKeyed>(out: Seq<T>, p: int, x: T)
    requires
        0 <= p <= out.len(),
        keys_sorted(out),
        forall|j: int| 0 <= j < p ==> lex_le(#[trigger] out[j].text_key(), x.text_key()),
        forall|j: int| p <= j < out.len() ==> lex_lt(x.text_key(), #[trigger] out[j].text_key()),
    ensures
        keys_sorted(out.insert(p, x)),
        forall|k: Seq<char>| #[trigger] with_key(out.insert(p, x), k) == (if x.text_key() == k {
            with_key(out, k).push(x)
        } else {
            with_key(out, k)
        }),
{
    let n = out.insert(p, x);
    assert forall|i: int, j: int| 0 <= i < j < n.len() implies lex_le(
        #[trigger] n[i].text_key(),
        #[trigger] n[j].text_key(),
    ) by {
        if i < p && j > p {
            if lex_lt(out[i].text_key(), x.text_key()) {
                lemma_lex_transitive(out[i].text_key(), x.text_key(), out[j - 1].text_key());
            }
        }
    }
    let a = out.take(p);
    let b = out.skip(p);
    assert(out == a + b);
    assert(n == a + seq![x] + b);
    assert forall|k: Seq<char>| #[trigger] with_key(n, k) == (if x.text_key() == k {
        with_key(out, k).push(x)
    } else {
        with_key(out, k)
    }) by {
        let pred = |y: T| y.text_key() == k;
        Seq::filter_distributes_over_add(a + seq![x], b, pred);
        Seq::filter_distributes_over_add(a, seq![x], pred);
        Seq::filter_distributes_over_add(a, b, pred);
        lemma_with_key_single(x, k);
        if x.text_key() == k {
            assert forall|i: int| 0 <= i < b.len() implies b[i].text_key() != k by {
                assert(b[i] == out[p + i]);
                lemma_lex_irreflexive(x.text_key());
            }
            lemma_with_key_none(b, k);
            assert(with_key(b, k) == Seq::<T>::empty());
            assert(with_key(out, k) == with_key(a, k));
            assert(with_key(n, k) == with_key(a, k) + seq![x]);
        } else {
            assert(with_key(n, k) == with_key(a, k) + with_key(b, k));
        }
    }
}

/// The items of `v`, stably sorted by key.
pub fn sort_by_text_key<T: TextKeyed>(v: Vec<T>) -> (r: Vec<T>)
    ensures
        stably_sorted(r@, v@),
        r@.len() == v@.len(),
{
    let ghost inp = v@;
    let mut rest = v;
    // Move the items into `reversed`, last item first, so that popping from it
    // yields them in input order.
    let mut reversed: Vec<T> = Vec::new();
    while rest.len() > 0
        invariant
            inp == rest@ + reversed@.reverse(),
        decreases rest@.len(),
    {
        let x = rest.pop().unwrap();
        proof {
            assert(reversed@.push(x).reverse() == seq![x] + reversed@.reverse());
        }
        reversed.push(x);
        proof {
            assert(inp == rest@ + reversed@.reverse());
        }
    }
    let ghost order = reversed@.reverse();
    assert(order == inp);
    let mut out: Vec<T> = Vec::new();
    let mut keys: Vec<Vec<char>> = Vec::new();
    let mut taken: usize = 0;
    while reversed.len() > 0
        invariant
            order == inp,
            taken + reversed@.len() == inp.len(),
            reversed@.reverse() == inp.skip(taken as int),
            keys@.len() == out@.len(),
            forall|i: int| 0 <= i < out@.len() ==> (#[trigger] keys@[i])@ == out@[i].text_key(),
            keys_sorted(out@),
            forall|k: Seq<char>| #[trigger] with_key(out@, k) == with_key(inp.take(taken as int), k),
            out@.len() == taken,
        decreases reversed@.len(),
    {
        let ghost before = out@;
        let x = reversed.pop().unwrap();
        proof {
            assert(inp.skip(taken as int)[0] == x);
            assert(reversed@.reverse() == inp.skip(taken + 1));
        }
        let xk = x.key_chars();
        let mut p: usize = 0;
        while p < out.len() && !lex_less(&xk, &keys[p])
            invariant
                keys@.len() == out@.len(),
                forall|i: int| 0 <= i < out@.len() ==> (#[trigger] keys@[i])@ == out@[i].text_key(),
                xk@ == x.text_key(),
                p <= out@.len(),
                forall|j: int| 0 <= j < p ==> lex_le(#[trigger] out@[j].text_key(), x.text_key()),
            decreases out@.len() - p,
        {
            proof {
                lemma_lex_total(out@[p as int].text_key(), x.text_key());
            }
            p = p + 1;
        }
        proof {
            assert forall|j: int| p <= j < out@.len() implies lex_lt(
                x.text_key(),
                #[trigger] out@[j].text_key(),
            ) by {
                let kp = out@[p as int].text_key();
                assert(lex_lt(x.text_key(), kp));
                if j > p {
                    assert(lex_le(kp, out@[j].text_key()));
                    if lex_lt(kp, out@[j].text_key()) {
                        lemma_lex_transitive(x.text_key(), kp, out@[j].text_key());
                    }
                }
            }
            lemma_insert_sorted(out@, p as int, x);
            assert(inp.take(taken + 1) == inp.take(taken as int).push(x));
            assert forall|k: Seq<char>| #[trigger] with_key(inp.take(taken + 1), k) == (if x.text_key()
                == k {
                with_key(inp.take(taken as int), k).push(x)
            } else {
                with_key(inp.take(taken as int), k)
            }) by {
                reveal(Seq::filter);
                assert(inp.take(taken + 1).drop_last() == inp.take(taken as int));
            }
        }
        let ghost keys_before = keys@;
        out.insert(p, x);
        keys.insert(p, xk);
        taken = out.len();
        proof {
            assert forall|i: int| 0 <= i < out@.len() implies (#[trigger] keys@[i])@
                == out@[i].text_key() by {
                if i < p {
                    assert(keys@[i] == keys_before[i] && out@[i] == before[i]);
                } else if i > p {
                    assert(keys@[i] == keys_before[i - 1] && out@[i] == before[i - 1]);
                }
            }
        }
    }
    proof {
        assert(inp.take(inp.len() as int) == inp);
    }
    out
}

} // verus!
