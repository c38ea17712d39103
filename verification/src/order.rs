//! Ordering by a text key: the entries that carry a given key, and why
//! inserting after every entry whose key is not greater keeps the order among
//! equal keys.
use vstd::prelude::*;
use crate::argmap::{lemma_text_lt_irreflexive, text_lt};

verus! {

/// The entries whose key is `k`, in their order.
pub open spec fn with_key<T>(s: Seq<T>, key: spec_fn(T) -> Seq<char>, k: Seq<char>) -> Seq<T>
    decreases s.len(),
{
    if s.len() == 0 {
        Seq::empty()
    } else {
        let r = with_key(s.drop_last(), key, k);
        if key(s.last()) == k {
            r.push(s.last())
        } else {
            r
        }
    }
}

proof fn lemma_with_key_concat<T>(a: Seq<T>, b: Seq<T>, key: spec_fn(T) -> Seq<char>, k: Seq<char>)
    ensures
        with_key(a + b, key, k) == with_key(a, key, k) + with_key(b, key, k),
    decreases b.len(),
{
    if b.len() == 0 {
        assert(a + b =~= a);
        assert(with_key(a, key, k) + with_key(b, key, k) =~= with_key(a, key, k));
    } else {
        lemma_with_key_concat(a, b.drop_last(), key, k);
        assert((a + b).drop_last() =~= a + b.drop_last());
        assert((a + b).last() == b.last());
        if key(b.last()) == k {
            assert(with_key(a, key, k) + with_key(b, key, k) =~= (with_key(a, key, k) + with_key(
                b.drop_last(),
                key,
                k,
            )).push(b.last()));
        }
    }
}

proof fn lemma_with_key_none<T>(s: Seq<T>, key: spec_fn(T) -> Seq<char>, k: Seq<char>)
    requires
        forall|j: int| 0 <= j < s.len() ==> key(s[j]) != k,
    ensures
        with_key(s, key, k) == Seq::<T>::empty(),
    decreases s.len(),
{
    if s.len() > 0 {
        assert forall|j: int| 0 <= j < s.drop_last().len() implies key(s.drop_last()[j]) != k by {
            assert(s.drop_last()[j] == s[j]);
        }
        lemma_with_key_none(s.drop_last(), key, k);
        assert(key(s[s.len() - 1]) != k);
    }
}

/// Inserting `x` after every entry whose key is not greater, and before every
/// entry whose key is greater, appends `x` to the entries of its key and
/// leaves the entries of every other key as they were.
pub proof fn lemma_insert_keeps_order<T>(s: Seq<T>, p: int, x: T, key: spec_fn(T) -> Seq<char>, k: Seq<char>)
    requires
        0 <= p <= s.len(),
        forall|j: int| p <= j < s.len() ==> text_lt(key(x), key(s[j])),
    ensures
        with_key(s.insert(p, x), key, k) == (if key(x) == k {
            with_key(s, key, k).push(x)
        } else {
            with_key(s, key, k)
        }),
{
    let a = s.subrange(0, p);
    let b = s.subrange(p, s.len() as int);
    assert(s =~= a + b);
    assert(s.insert(p, x) =~= a.push(x) + b);
    lemma_with_key_concat(a, b, key, k);
    lemma_with_key_concat(a.push(x), b, key, k);
    assert(a.push(x).drop_last() =~= a);
    if key(x) == k {
        assert forall|j: int| 0 <= j < b.len() implies key(b[j]) != k by {
            assert(b[j] == s[p + j]);
            lemma_text_lt_irreflexive(key(x));
        }
        lemma_with_key_none(b, key, k);
        assert(with_key(a, key, k) + with_key(b, key, k) =~= with_key(a, key, k));
        assert(with_key(a.push(x), key, k) + with_key(b, key, k) =~= with_key(a, key, k).push(x));
    }
}

} // verus!
