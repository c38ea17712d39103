//! A string-to-string map kept sorted by key, as `BTreeMap<String, String>` keeps it.
//!
//! Keys are ordered lexicographically by code point, which is the order of
//! `String`'s `Ord` (UTF-8 byte order coincides with code point order).
use vstd::prelude::*;

verus! {

/// Lexicographic "less than" on character sequences, by code point.
pub open spec fn text_lt(a: Seq<char>, b: Seq<char>) -> bool
    decreases a.len(),
{
    if a.len() == 0 {
        b.len() > 0
    } else if b.len() == 0 {
        false
    } else if a[0] == b[0] {
        text_lt(a.drop_first(), b.drop_first())
    } else {
        a[0] < b[0]
    }
}

pub proof fn lemma_text_lt_irreflexive(a: Seq<char>)
    ensures
        !text_lt(a, a),
    decreases a.len(),
{
    if a.len() > 0 {
        lemma_text_lt_irreflexive(a.drop_first());
    }
}

pub proof fn lemma_text_lt_transitive(a: Seq<char>, b: Seq<char>, c: Seq<char>)
    requires
        text_lt(a, b),
        text_lt(b, c),
    ensures
        text_lt(a, c),
    decreases a.len(),
{
    if a.len() > 0 && b.len() > 0 && c.len() > 0 {
        if a[0] == b[0] && b[0] == c[0] {
            lemma_text_lt_transitive(a.drop_first(), b.drop_first(), c.drop_first());
        }
    }
}

pub proof fn lemma_text_lt_total(a: Seq<char>, b: Seq<char>)
    ensures
        a == b || text_lt(a, b) || text_lt(b, a),
    decreases a.len(),
{
    if a.len() > 0 && b.len() > 0 {
        if a[0] == b[0] {
            lemma_text_lt_total(a.drop_first(), b.drop_first());
            if a.drop_first() == b.drop_first() {
                assert(a =~= seq![a[0]] + a.drop_first());
                assert(b =~= seq![b[0]] + b.drop_first());
            }
        }
    } else if a.len() == 0 && b.len() == 0 {
        assert(a =~= b);
    }
}

pub proof fn lemma_text_lt_asymmetric(a: Seq<char>, b: Seq<char>)
    requires
        text_lt(a, b),
    ensures
        !text_lt(b, a),
{
    if text_lt(b, a) {
        lemma_text_lt_transitive(a, b, a);
        lemma_text_lt_irreflexive(a);
    }
}

proof fn lemma_text_lt_skip(a: Seq<char>, b: Seq<char>, i: int)
    requires
        0 <= i < a.len(),
        i < b.len(),
        a[i] == b[i],
    ensures
        text_lt(a.skip(i), b.skip(i)) == text_lt(a.skip(i + 1), b.skip(i + 1)),
{
    assert(a.skip(i).drop_first() =~= a.skip(i + 1));
    assert(b.skip(i).drop_first() =~= b.skip(i + 1));
}

/// `a` sorts strictly before `b`.
pub fn text_less(a: &str, b: &str) -> (r: bool)
    ensures
        r == text_lt(a@, b@),
{
    let n = a.unicode_len();
    let m = b.unicode_len();
    let mut i: usize = 0;
    proof {
        assert(a@.skip(0) =~= a@);
        assert(b@.skip(0) =~= b@);
    }
    while i < n && i < m
        invariant
            n == a@.len(),
            m == b@.len(),
            i <= n,
            i <= m,
            text_lt(a@, b@) == text_lt(a@.skip(i as int), b@.skip(i as int)),
        decreases n - i,
    {
        let x = a.get_char(i);
        let y = b.get_char(i);
        if x != y {
            proof {
                assert(a@.skip(i as int)[0] == x);
                assert(b@.skip(i as int)[0] == y);
            }
            return x < y;
        }
        proof {
            lemma_text_lt_skip(a@, b@, i as int);
        }
        i = i + 1;
    }
    proof {
        assert(i == n ==> a@.skip(i as int).len() == 0);
        assert(i == m ==> b@.skip(i as int).len() == 0);
    }
    i < m
}

/// Keys of `entries` in order.
pub open spec fn keys_of(entries: Seq<(String, String)>) -> Seq<Seq<char>> {
    entries.map_values(|e: (String, String)| e.0@)
}

/// Keys strictly increasing.
pub open spec fn sorted_keys(keys: Seq<Seq<char>>) -> bool {
    forall|i: int, j: int| 0 <= i < j < keys.len() ==> text_lt(keys[i], keys[j])
}

/// The map that sorted, duplicate-free `entries` stand for.
pub open spec fn map_of(entries: Seq<(String, String)>) -> Map<Seq<char>, Seq<char>> {
    Map::new(
        |k: Seq<char>| keys_of(entries).contains(k),
        |k: Seq<char>| entries[keys_of(entries).index_of(k)].1@,
    )
}

/// An ordered map from text keys to text values.
#[derive(Debug)]
pub struct ArgMap {
    entries: Vec<(String, String)>,
}

impl View for ArgMap {
    type V = Map<Seq<char>, Seq<char>>;

    closed spec fn view(&self) -> Map<Seq<char>, Seq<char>> {
        map_of(self.entries@)
    }
}

/// What a lookup of `key` finds in parameter contents `m`.
pub open spec fn param_lookup(m: Map<Seq<char>, Seq<char>>, key: Seq<char>) -> Option<Seq<char>> {
    if m.contains_key(key) {
        Some(m[key])
    } else {
        None
    }
}

impl ArgMap {
    /// The contents after storing `value` under `key`.
    pub open spec fn with_param(self, key: Seq<char>, value: Seq<char>) -> Map<Seq<char>, Seq<char>> {
        self@.insert(key, value)
    }
}

proof fn lemma_sorted_distinct(keys: Seq<Seq<char>>, i: int, j: int)
    requires
        sorted_keys(keys),
        0 <= i < keys.len(),
        0 <= j < keys.len(),
        keys[i] == keys[j],
    ensures
        i == j,
{
    if i < j {
        lemma_text_lt_irreflexive(keys[i]);
    } else if j < i {
        lemma_text_lt_irreflexive(keys[i]);
    }
}

proof fn lemma_index_of(keys: Seq<Seq<char>>, i: int)
    requires
        sorted_keys(keys),
        0 <= i < keys.len(),
    ensures
        keys.index_of(keys[i]) == i,
{
    assert(keys.contains(keys[i]));
    let j = keys.index_of(keys[i]);
    lemma_sorted_distinct(keys, i, j);
}

impl ArgMap {
    #[verifier::type_invariant]
    spec fn inv(self) -> bool {
        sorted_keys(keys_of(self.entries@))
    }

    /// The keys, in increasing order.
    pub closed spec fn key_list(&self) -> Seq<Seq<char>> {
        keys_of(self.entries@)
    }

    /// Facts that hold of a map whose keys are sorted: the keys are its domain.
    proof fn lemma_keys(&self)
        requires
            sorted_keys(self.key_list()),
        ensures
            sorted_keys(self.key_list()),
            forall|k: Seq<char>| self@.contains_key(k) <==> self.key_list().contains(k),
            self@.dom().finite(),
            self@.dom().len() == self.key_list().len(),
    {
        let keys = self.key_list();
        assert(self@.dom() =~= keys.to_set());
        self.lemma_no_dups();
        keys.unique_seq_to_set();
    }

    proof fn lemma_no_dups(&self)
        requires
            sorted_keys(self.key_list()),
        ensures
            self.key_list().no_duplicates(),
    {
        let keys = self.key_list();
        assert forall|i: int, j: int| 0 <= i < keys.len() && 0 <= j < keys.len() && i != j implies keys[i] != keys[j] by {
            if keys[i] == keys[j] {
                lemma_sorted_distinct(keys, i, j);
            }
        }
    }

    /// An empty map.
    pub fn new() -> (m: ArgMap)
        ensures
            m@ == Map::<Seq<char>, Seq<char>>::empty(),
            m.key_list() == Seq::<Seq<char>>::empty(),
    {
        let m = ArgMap { entries: Vec::new() };
        assert(m@ =~= Map::<Seq<char>, Seq<char>>::empty());
        assert(m.key_list() =~= Seq::<Seq<char>>::empty());
        m
    }

    /// Number of entries.
    pub fn len(&self) -> (n: usize)
        ensures
            n == self@.dom().len(),
            n == self.key_list().len(),
            sorted_keys(self.key_list()),
            forall|k: Seq<char>| self@.contains_key(k) <==> self.key_list().contains(k),
    {
        proof {
            use_type_invariant(self);
            self.lemma_keys();
        }
        self.entries.len()
    }

    /// Position of `key` among the sorted keys, or the position where it would go.
    fn locate(&self, key: &str) -> (r: (usize, bool))
        ensures
            r.0 <= self.key_list().len(),
            r.1 ==> r.0 < self.key_list().len() && self.key_list()[r.0 as int] == key@,
            !r.1 ==> (forall|j: int| 0 <= j < r.0 ==> text_lt(#[trigger] self.key_list()[j], key@)),
            !r.1 ==> (forall|j: int| r.0 <= j < self.key_list().len() ==> text_lt(key@, #[trigger] self.key_list()[j])),
    {
        proof {
            use_type_invariant(self);
        }
        let ghost keys = self.key_list();
        let n = self.entries.len();
        let mut i: usize = 0;
        while i < n
            invariant
                n == keys.len(),
                keys == keys_of(self.entries@),
                sorted_keys(keys),
                i <= n,
                forall|j: int| 0 <= j < i ==> text_lt(#[trigger] keys[j], key@),
            decreases n - i,
        {
            let k = self.entries[i].0.as_str();
            if !text_less(k, key) {
                proof {
                    lemma_text_lt_total(keys[i as int], key@);
                }
                if text_less(key, k) {
                    assert forall|j: int| i <= j < n implies text_lt(key@, #[trigger] keys[j]) by {
                        if j > i {
                            lemma_text_lt_transitive(key@, keys[i as int], keys[j]);
                        }
                    }
                    return (i, false);
                } else {
                    return (i, true);
                }
            }
            i = i + 1;
        }
        (i, false)
    }

    /// The value stored under `key`.
    pub fn get(&self, key: &str) -> (r: Option<&String>)
        ensures
            r is Some <==> self@.contains_key(key@),
            r matches Some(v) ==> v@ == self@[key@],
            (match r {
                Some(v) => Some(v@),
                None => None,
            }) == param_lookup(self@, key@),
    {
        proof {
            use_type_invariant(self);
            self.lemma_keys();
        }
        let (i, found) = self.locate(key);
        if found {
            proof {
                lemma_index_of(self.key_list(), i as int);
            }
            Some(&self.entries[i].1)
        } else {
            proof {
                let keys = self.key_list();
                if keys.contains(key@) {
                    let j = keys.index_of(key@);
                    lemma_text_lt_irreflexive(key@);
                    assert(keys[j] == key@);
                }
            }
            None
        }
    }

    /// `key` has an entry.
    pub fn contains_key(&self, key: &str) -> (r: bool)
        ensures
            r == self@.contains_key(key@),
    {
        self.get(key).is_some()
    }

    /// Stores `value` under `key`, replacing an earlier value.
    pub fn insert(&mut self, key: String, value: String)
        ensures
            final(self)@ == old(self).with_param(key@, value@),
    {
        proof {
            use_type_invariant(&*self);
        }
        let (i, found) = self.locate(key.as_str());
        let ghost old_entries = self.entries@;
        let ghost old_keys = keys_of(old_entries);
        proof {
            assert(old_keys == self.key_list());
            assert forall|j: int| i <= j < old_keys.len() && !found implies text_lt(key@, old_keys[j]) by {
                assert(text_lt(key@, self.key_list()[j]));
            }
            assert forall|j: int| 0 <= j < i && !found implies text_lt(old_keys[j], key@) by {
                assert(text_lt(self.key_list()[j], key@));
            }
        }
        let mut v: Vec<(String, String)> = Vec::new();
        std::mem::swap(&mut v, &mut self.entries);
        if found {
            v.set(i, (key, value));
            let ghost new_keys = keys_of(v@);
            proof {
                assert(new_keys =~= old_keys.update(i as int, old_keys[i as int]));
                assert(sorted_keys(new_keys));
                assert forall|k: Seq<char>| #[trigger] new_keys.contains(k) <==> old_keys.contains(k) by {
                    if old_keys.contains(k) {
                        let j = old_keys.index_of(k);
                        assert(new_keys[j] == k);
                    }
                    if new_keys.contains(k) {
                        let j = new_keys.index_of(k);
                        assert(old_keys[j] == k);
                    }
                }
                assert forall|k: Seq<char>| #[trigger] new_keys.contains(k) implies map_of(v@)[k] == map_of(old_entries).insert(key@, value@)[k] by {
                    let j = new_keys.index_of(k);
                    lemma_index_of(new_keys, j);
                    lemma_index_of(old_keys, j);
                    if j == i {
                        assert(v@[j].1@ == value@);
                    } else {
                        assert(v@[j] == old_entries[j]);
                        assert(k != key@) by {
                            if k == key@ {
                                lemma_sorted_distinct(new_keys, j, i as int);
                            }
                        }
                    }
                }
                assert(map_of(v@) =~= map_of(old_entries).insert(key@, value@));
            }
            self.entries = v;
        } else {
            v.insert(i, (key, value));
            let ghost new_keys = keys_of(v@);
            proof {
                assert(new_keys =~= old_keys.insert(i as int, key@));
                assert forall|a: int, b: int| 0 <= a < b < new_keys.len() implies text_lt(new_keys[a], new_keys[b]) by {
                    if b < i {
                    } else if b == i {
                    } else if a == i {
                    } else if a < i {
                        assert(new_keys[b] == old_keys[b - 1]);
                        if a + 1 < b {
                            assert(text_lt(old_keys[a], old_keys[b - 1]));
                        } else {
                            lemma_text_lt_transitive(old_keys[a], key@, old_keys[b - 1]);
                        }
                    } else {
                        assert(new_keys[a] == old_keys[a - 1]);
                        assert(new_keys[b] == old_keys[b - 1]);
                    }
                }
                assert(sorted_keys(new_keys));
                assert forall|k: Seq<char>| #[trigger] new_keys.contains(k) <==> (old_keys.contains(k) || k == key@) by {
                    if old_keys.contains(k) {
                        let j = old_keys.index_of(k);
                        if j < i {
                            assert(new_keys[j] == k);
                        } else {
                            assert(new_keys[j + 1] == k);
                        }
                    }
                    if k == key@ {
                        assert(new_keys[i as int] == k);
                    }
                    if new_keys.contains(k) {
                        let j = new_keys.index_of(k);
                        if j < i {
                            assert(old_keys[j] == k);
                        } else if j > i {
                            assert(old_keys[j - 1] == k);
                        }
                    }
                }
                assert forall|k: Seq<char>| #[trigger] new_keys.contains(k) implies map_of(v@)[k] == map_of(old_entries).insert(key@, value@)[k] by {
                    let j = new_keys.index_of(k);
                    lemma_index_of(new_keys, j);
                    if j < i {
                        lemma_index_of(old_keys, j);
                        assert(k == old_keys[j]);
                        assert(text_lt(old_keys[j], key@));
                        assert(k != key@) by {
                            lemma_text_lt_irreflexive(key@);
                        }
                    } else if j > i {
                        lemma_index_of(old_keys, j - 1);
                        assert(k == old_keys[j - 1]);
                        assert(text_lt(key@, old_keys[j - 1]));
                        assert(k != key@) by {
                            lemma_text_lt_irreflexive(key@);
                        }
                    }
                }
                assert(map_of(v@) =~= map_of(old_entries).insert(key@, value@));
            }
            self.entries = v;
        }
    }

    /// The keys in increasing order.
    pub fn keys(&self) -> (r: Vec<String>)
        ensures
            r@.map_values(|s: String| s@) == self.key_list(),
            sorted_keys(self.key_list()),
            forall|k: Seq<char>| self@.contains_key(k) <==> self.key_list().contains(k),
    {
        proof {
            use_type_invariant(self);
            self.lemma_keys();
        }
        let mut out: Vec<String> = Vec::new();
        let n = self.entries.len();
        let mut i: usize = 0;
        while i < n
            invariant
                n == self.entries@.len(),
                i <= n,
                out@.len() == i,
                out@.map_values(|s: String| s@) == self.key_list().subrange(0, i as int),
            decreases n - i,
        {
            let k = self.entries[i].0.clone();
            out.push(k);
            proof {
                assert(out@[i as int]@ == self.key_list()[i as int]);
                assert(out@.map_values(|s: String| s@) =~= self.key_list().subrange(0, i + 1));
            }
            i = i + 1;
        }
        proof {
            assert(self.key_list().subrange(0, n as int) =~= self.key_list());
        }
        out
    }

    /// The entry at position `i` in key order.
    pub fn entry_at(&self, i: usize) -> (r: (&String, &String))
        requires
            i < self.key_list().len(),
        ensures
            r.0@ == self.key_list()[i as int],
            r.1@ == self@[r.0@],
    {
        proof {
            use_type_invariant(self);
            lemma_index_of(self.key_list(), i as int);
        }
        (&self.entries[i].0, &self.entries[i].1)
    }
}

impl Clone for ArgMap {
    fn clone(&self) -> (r: Self)
        ensures
            r@ == self@,
            r.key_list() == self.key_list(),
    {
        proof {
            use_type_invariant(self);
        }
        let mut out: Vec<(String, String)> = Vec::new();
        let n = self.entries.len();
        let mut i: usize = 0;
        while i < n
            invariant
                n == self.entries@.len(),
                i <= n,
                out@.len() == i,
                forall|j: int| 0 <= j < i ==> (#[trigger] out@[j]).0@ == self.entries@[j].0@
                    && out@[j].1@ == self.entries@[j].1@,
            decreases n - i,
        {
            let k = self.entries[i].0.clone();
            let v = self.entries[i].1.clone();
            out.push((k, v));
            i = i + 1;
        }
        proof {
            assert(keys_of(out@) =~= keys_of(self.entries@));
            assert(map_of(out@) =~= map_of(self.entries@));
        }
        ArgMap { entries: out }
    }
}

/// The map built by inserting `pairs` in order (a later key overwrites an earlier one).
pub open spec fn map_from_pairs(pairs: Seq<(Seq<char>, Seq<char>)>) -> Map<Seq<char>, Seq<char>>
    decreases pairs.len(),
{
    if pairs.len() == 0 {
        Map::empty()
    } else {
        map_from_pairs(pairs.drop_last()).insert(pairs.last().0, pairs.last().1)
    }
}

} // verus!
