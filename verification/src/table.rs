//! Small maps and sets over vectors, compared by what their keys stand for.

use vstd::prelude::*;

use crate::text::{bytes_eq, str_eq};

verus! {

/// A type that can be the key of a [`Table`] or the member of a [`KeySet`].
pub trait Key: View + Sized {
    /// Whether two keys stand for the same value.
    fn same(&self, other: &Self) -> (r: bool)
        ensures
            r == (self@ == other@),
    ;

    /// A second key that stands for the same value.
    fn duplicate(&self) -> (r: Self)
        ensures
            r@ == self@,
    ;
}

impl Key for String {
    fn same(&self, other: &Self) -> (r: bool) {
        str_eq(self.as_str(), other.as_str())
    }

    fn duplicate(&self) -> (r: Self) {
        self.clone()
    }
}

impl Key for Vec<u8> {
    fn same(&self, other: &Self) -> (r: bool) {
        bytes_eq(self.as_slice(), other.as_slice())
    }

    fn duplicate(&self) -> (r: Self) {
        vstd::slice::slice_to_vec(self.as_slice())
    }
}

impl Key for u64 {
    fn same(&self, other: &Self) -> (r: bool) {
        *self == *other
    }

    fn duplicate(&self) -> (r: Self) {
        *self
    }
}

/// The map that a list of pairs spells; a later pair wins.
pub open spec fn pairs_map<K: View, V: View>(s: Seq<(K, V)>) -> Map<K::V, V::V>
    decreases s.len(),
{
    if s.len() == 0 {
        Map::empty()
    } else {
        pairs_map(s.drop_last()).insert(s.last().0@, s.last().1@)
    }
}

/// No two pairs have the same key.
pub open spec fn keys_distinct<K: View, V: View>(s: Seq<(K, V)>) -> bool {
    forall|i: int, j: int|
        #![trigger s[i], s[j]]
        0 <= i < j < s.len() ==> s[i].0@ != s[j].0@
}

impl Key for u32 {
    fn same(&self, other: &Self) -> (r: bool) {
        *self == *other
    }

    fn duplicate(&self) -> (r: Self) {
        *self
    }
}

/// The part of a map whose entries satisfy `p`.
pub open spec fn kept<A, B>(m: Map<A, B>, p: spec_fn(A, B) -> bool) -> Map<A, B> {
    Map::new(|k: A| m.dom().contains(k) && p(k, m[k]), |k: A| m[k])
}

pub proof fn lemma_pairs_map<K: View, V: View>(s: Seq<(K, V)>)
    requires
        keys_distinct(s),
    ensures
        pairs_map(s).dom().finite(),
        pairs_map(s).dom().len() == s.len(),
        forall|i: int|
            0 <= i < s.len() ==> {
                &&& pairs_map(s).dom().contains(#[trigger] s[i].0@)
                &&& pairs_map(s)[s[i].0@] == s[i].1@
            },
        forall|k: K::V| #[trigger]
            pairs_map(s).dom().contains(k) ==> exists|i: int|
                0 <= i < s.len() && #[trigger] s[i].0@ == k,
    decreases s.len(),
{
    if s.len() > 0 {
        let t = s.drop_last();
        assert forall|i: int, j: int|
            #![trigger t[i], t[j]]
            0 <= i < j < t.len() implies t[i].0@ != t[j].0@ by {
            assert(t[i] == s[i] && t[j] == s[j]);
        }
        lemma_pairs_map(t);
        let last = s.len() - 1;
        if pairs_map(t).dom().contains(s.last().0@) {
            let i = choose|i: int| 0 <= i < t.len() && #[trigger] t[i].0@ == s.last().0@;
            assert(s[i] == t[i]);
            assert(s[i].0@ != s[last].0@);
        }
        assert forall|i: int| 0 <= i < s.len() implies {
            &&& pairs_map(s).dom().contains(#[trigger] s[i].0@)
            &&& pairs_map(s)[s[i].0@] == s[i].1@
        } by {
            if i < last {
                assert(t[i] == s[i]);
                assert(s[i].0@ != s[last].0@);
                assert(pairs_map(t).dom().contains(t[i].0@));
            }
        }
        assert forall|k: K::V| #[trigger] pairs_map(s).dom().contains(k) implies exists|i: int|
            0 <= i < s.len() && #[trigger] s[i].0@ == k by {
            if k == s.last().0@ {
                assert(s[last].0@ == k);
            } else {
                assert(pairs_map(t).dom().contains(k));
                let i = choose|i: int| 0 <= i < t.len() && #[trigger] t[i].0@ == k;
                assert(s[i].0@ == k);
            }
        }
    }
}

/// What a sequence contains after an item was appended.
pub proof fn lemma_push_contains<A>(s: Seq<A>, x: A)
    ensures
        forall|y: A| #[trigger] s.push(x).contains(y) <==> s.contains(y) || y == x,
{
    assert forall|y: A| #[trigger] s.push(x).contains(y) <==> s.contains(y) || y == x by {
        if s.contains(y) {
            let i = choose|i: int| 0 <= i < s.len() && s[i] == y;
            assert(s.push(x)[i] == y);
        }
        if y == x {
            assert(s.push(x)[s.len() as int] == y);
        }
    }
}

/// A map with few entries. Its view is the map from what the keys stand for
/// to what the values stand for.
pub struct Table<K: Key, V: View> {
    entries: Vec<(K, V)>,
}

impl<K: Key, V: View> View for Table<K, V> {
    type V = Map<K::V, V::V>;

    closed spec fn view(&self) -> Map<K::V, V::V> {
        pairs_map(self.entries@)
    }
}

impl<K: Key, V: View> Table<K, V> {
    /// No key occurs twice.
    #[verifier::type_invariant]
    spec fn inv(self) -> bool {
        keys_distinct(self.entries@)
    }

    /// The keys, in the order in which they are stored.
    pub closed spec fn keys(&self) -> Seq<K::V> {
        self.entries@.map_values(|e: (K, V)| e.0@)
    }

    /// What holds of the keys and entries of a table.
    proof fn lemma_entries(&self)
        requires
            keys_distinct(self.entries@),
        ensures
            self@.dom().finite(),
            self@.dom().len() == self.keys().len(),
            self.keys().no_duplicates(),
            forall|i: int|
                0 <= i < self.keys().len() ==> self@.dom().contains(#[trigger] self.keys()[i]),
            forall|k: K::V| #[trigger]
                self@.dom().contains(k) ==> exists|i: int|
                    0 <= i < self.keys().len() && #[trigger] self.keys()[i] == k,
            self.keys().to_set() == self@.dom(),
    {
        lemma_pairs_map(self.entries@);
        assert forall|i: int, j: int|
            0 <= i < self.keys().len() && 0 <= j < self.keys().len() && i
                != j implies self.keys()[i] != self.keys()[j] by {
            if i < j {
                assert(self.entries@[i].0@ != self.entries@[j].0@);
            } else {
                assert(self.entries@[j].0@ != self.entries@[i].0@);
            }
        }
        assert forall|i: int| 0 <= i < self.keys().len() implies self@.dom().contains(
            #[trigger] self.keys()[i],
        ) by {
            assert(self.keys()[i] == self.entries@[i].0@);
        }
        assert forall|k: K::V| #[trigger] self@.dom().contains(k) implies exists|i: int|
            0 <= i < self.keys().len() && #[trigger] self.keys()[i] == k by {
            let i = choose|i: int|
                0 <= i < self.entries@.len() && #[trigger] self.entries@[i].0@ == k;
            assert(self.keys()[i] == k);
        }
        assert(self.keys().to_set() =~= self@.dom());
    }

    /// An empty table.
    pub fn new() -> (t: Self)
        ensures
            t@ == Map::<K::V, V::V>::empty(),
    {
        Table { entries: Vec::new() }
    }

    /// Whether there are no entries.
    pub fn is_empty(&self) -> (r: bool)
        ensures
            r == (self@ == Map::<K::V, V::V>::empty()),
    {
        let n: usize = self.len();
        proof {
            if n == 0 {
                assert(self@.dom() =~= Set::empty());
                assert(self@ =~= Map::empty());
            } else {
                assert(self@.dom().len() != Map::<K::V, V::V>::empty().dom().len());
            }
        }
        n == 0
    }

    /// The number of entries. Each key is stored once.
    pub fn len(&self) -> (n: usize)
        ensures
            n == self@.dom().len(),
            n == self.keys().len(),
            self@.dom().finite(),
            self.keys().no_duplicates(),
            self.keys().to_set() == self@.dom(),
    {
        proof {
            use_type_invariant(self);
            self.lemma_entries();
        }
        self.entries.len()
    }

    /// The position of a key, or the number of entries where it is absent.
    fn position(&self, k: &K) -> (p: usize)
        ensures
            p <= self.entries@.len(),
            p < self.entries@.len() ==> self.entries@[p as int].0@ == k@,
            p < self.entries@.len() <==> self@.dom().contains(k@),
            p < self.entries@.len() ==> self@[k@] == self.entries@[p as int].1@,
    {
        proof {
            use_type_invariant(self);
            lemma_pairs_map(self.entries@);
        }
        let mut i: usize = 0;
        while i < self.entries.len()
            invariant
                i <= self.entries@.len(),
                keys_distinct(self.entries@),
                forall|j: int| 0 <= j < i ==> (#[trigger] self.entries@[j]).0@ != k@,
            decreases self.entries.len() - i,
        {
            if self.entries[i].0.same(k) {
                proof {
                    lemma_pairs_map(self.entries@);
                }
                return i;
            }
            i = i + 1;
        }
        proof {
            lemma_pairs_map(self.entries@);
        }
        i
    }

    /// Whether the table has an entry for `k`.
    pub fn contains(&self, k: &K) -> (r: bool)
        ensures
            r == self@.dom().contains(k@),
    {
        self.position(k) < self.entries.len()
    }

    /// The value of `k`.
    pub fn get(&self, k: &K) -> (r: Option<&V>)
        ensures
            r is Some <==> self@.dom().contains(k@),
            r matches Some(v) ==> self@[k@] == v@,
    {
        let p: usize = self.position(k);
        if p < self.entries.len() {
            Some(&self.entries[p].1)
        } else {
            None
        }
    }

    /// The entry at a position.
    pub fn entry(&self, i: usize) -> (r: (&K, &V))
        requires
            i < self.keys().len(),
        ensures
            r.0@ == self.keys()[i as int],
            self@.dom().contains(r.0@),
            self@[r.0@] == r.1@,
    {
        proof {
            use_type_invariant(self);
            lemma_pairs_map(self.entries@);
            assert(self.keys()[i as int] == self.entries@[i as int].0@);
        }
        (&self.entries[i].0, &self.entries[i].1)
    }

    /// Sets the value of `k`.
    pub fn insert(&mut self, k: K, v: V)
        ensures
            final(self)@ == old(self)@.insert(k@, v@),
    {
        proof {
            use_type_invariant(&*self);
        }
        let p: usize = self.position(&k);
        let ghost before = self.entries@;
        let ghost key = k@;
        let ghost value = v@;
        proof {
            lemma_pairs_map(before);
        }
        let mut entries: Vec<(K, V)> = Vec::new();
        std::mem::swap(&mut entries, &mut self.entries);
        if p < entries.len() {
            entries[p] = (k, v);
        } else {
            entries.push((k, v));
        }
        proof {
            let after = entries@;
            assert forall|i: int, j: int|
                #![trigger after[i], after[j]]
                0 <= i < j < after.len() implies after[i].0@ != after[j].0@ by {
                if j < before.len() {
                    assert(before[i].0@ != before[j].0@);
                } else {
                    assert(after[i] == before[i]);
                    assert(pairs_map(before).dom().contains(before[i].0@));
                }
            }
            lemma_pairs_map(after);
            assert forall|x: K::V| pairs_map(after).dom().contains(x) <==> pairs_map(before).insert(
                key,
                value,
            ).dom().contains(x) by {
                if pairs_map(after).dom().contains(x) {
                    let i = choose|i: int| 0 <= i < after.len() && #[trigger] after[i].0@ == x;
                    if i < before.len() && i != p {
                        assert(after[i] == before[i]);
                        assert(pairs_map(before).dom().contains(before[i].0@));
                    }
                }
                if pairs_map(before).dom().contains(x) {
                    let i = choose|i: int| 0 <= i < before.len() && #[trigger] before[i].0@ == x;
                    assert(pairs_map(after).dom().contains(after[i].0@));
                }
                if x == key {
                    assert(pairs_map(after).dom().contains(after[p as int].0@));
                }
            }
            assert forall|x: K::V| pairs_map(after).dom().contains(x) implies pairs_map(after)[x]
                == pairs_map(before).insert(key, value)[x] by {
                let i = choose|i: int| 0 <= i < after.len() && #[trigger] after[i].0@ == x;
                assert(pairs_map(after)[after[i].0@] == after[i].1@);
                if x == key {
                    assert(pairs_map(after)[after[p as int].0@] == after[p as int].1@);
                } else {
                    assert(after[i] == before[i]);
                    assert(pairs_map(before)[before[i].0@] == before[i].1@);
                }
            }
            assert(pairs_map(after) =~= pairs_map(before).insert(key, value));
        }
        self.entries = entries;
    }

    /// Removes the entry at a position and returns its value.
    fn remove_at(&mut self, p: usize) -> (removed: V)
        requires
            p < old(self).entries@.len(),
        ensures
            final(self).entries@ == old(self).entries@.remove(p as int),
            final(self)@ == old(self)@.remove(old(self).entries@[p as int].0@),
            removed@ == old(self)@[old(self).entries@[p as int].0@],
    {
        proof {
            use_type_invariant(&*self);
        }
        let ghost before = self.entries@;
        let ghost key = before[p as int].0@;
        let mut entries: Vec<(K, V)> = Vec::new();
        std::mem::swap(&mut entries, &mut self.entries);
        let removed = entries.remove(p);
        proof {
            let after = entries@;
            lemma_pairs_map(before);
            assert forall|i: int| 0 <= i < after.len() implies #[trigger] after[i] == if i < p {
                before[i]
            } else {
                before[i + 1]
            } by {}
            assert forall|i: int, j: int|
                #![trigger after[i], after[j]]
                0 <= i < j < after.len() implies after[i].0@ != after[j].0@ by {
                let bi = if i < p { i } else { i + 1 };
                let bj = if j < p { j } else { j + 1 };
                assert(before[bi].0@ != before[bj].0@);
            }
            lemma_pairs_map(after);
            assert forall|x: K::V| pairs_map(after).dom().contains(x) implies (pairs_map(
                before,
            ).remove(key).dom().contains(x) && pairs_map(after)[x] == pairs_map(before)[x]) by {
                let i = choose|i: int| 0 <= i < after.len() && #[trigger] after[i].0@ == x;
                let bi = if i < p { i } else { i + 1 };
                assert(before[bi] == after[i]);
                assert(pairs_map(before).dom().contains(before[bi].0@));
                assert(pairs_map(after)[after[i].0@] == after[i].1@);
                if bi < p {
                    assert(before[bi].0@ != before[p as int].0@);
                } else {
                    assert(before[p as int].0@ != before[bi].0@);
                }
            }
            assert forall|x: K::V| pairs_map(before).remove(key).dom().contains(x) implies pairs_map(
                after,
            ).dom().contains(x) by {
                let i = choose|i: int| 0 <= i < before.len() && #[trigger] before[i].0@ == x;
                assert(i != p);
                let ai = if i < p { i } else { i - 1 };
                assert(after[ai] == before[i]);
                assert(pairs_map(after).dom().contains(after[ai].0@));
            }
            assert(pairs_map(after) =~= pairs_map(before).remove(key));
        }
        self.entries = entries;
        removed.1
    }

    /// Removes the entry of `k` and returns its value.
    pub fn remove(&mut self, k: &K) -> (r: Option<V>)
        ensures
            final(self)@ == old(self)@.remove(k@),
            r is Some <==> old(self)@.dom().contains(k@),
            r matches Some(v) ==> old(self)@[k@] == v@,
    {
        let p: usize = self.position(k);
        if p >= self.entries.len() {
            assert(self@ =~= self@.remove(k@));
            return None;
        }
        Some(self.remove_at(p))
    }

    /// Keeps the entries that satisfy `f` and removes the others.
    pub fn retain<F: Fn(&K, &V) -> bool>(
        &mut self,
        f: F,
        Ghost(p): Ghost<spec_fn(K::V, V::V) -> bool>,
    )
        requires
            forall|k: &K, v: &V| #[trigger] call_requires(f, (k, v)),
            forall|k: &K, v: &V, r: bool| #[trigger]
                call_ensures(f, (k, v), r) ==> r == p(k@, v@),
        ensures
            final(self)@ == kept(old(self)@, p),
    {
        let ghost all = self@;
        let mut i: usize = 0;
        while i < self.entries.len()
            invariant
                i <= self.entries@.len(),
                forall|k: &K, v: &V| #[trigger] call_requires(f, (k, v)),
                forall|k: &K, v: &V, r: bool| #[trigger]
                    call_ensures(f, (k, v), r) ==> r == p(k@, v@),
                forall|x: K::V| #[trigger]
                    self@.dom().contains(x) ==> all.dom().contains(x) && self@[x] == all[x],
                forall|x: K::V|
                    all.dom().contains(x) && p(x, all[x]) ==> #[trigger] self@.dom().contains(x),
                forall|j: int|
                    0 <= j < i ==> p(
                        (#[trigger] self.entries@[j]).0@,
                        self.entries@[j].1@,
                    ),
            decreases self.entries.len() - i,
        {
            proof {
                use_type_invariant(&*self);
                lemma_pairs_map(self.entries@);
            }
            let keep = f(&self.entries[i].0, &self.entries[i].1);
            if keep {
                i = i + 1;
            } else {
                let ghost before = self.entries@;
                let _ = self.remove_at(i);
                proof {
                    assert forall|j: int| 0 <= j < i implies p(
                        (#[trigger] self.entries@[j]).0@,
                        self.entries@[j].1@,
                    ) by {
                        assert(self.entries@[j] == before[j]);
                    }
                }
            }
        }
        proof {
            use_type_invariant(&*self);
            lemma_pairs_map(self.entries@);
            assert forall|x: K::V| self@.dom().contains(x) implies p(x, all[x]) by {
                let j = choose|j: int|
                    0 <= j < self.entries@.len() && #[trigger] self.entries@[j].0@ == x;
                assert(p(self.entries@[j].0@, self.entries@[j].1@));
            }
            assert(self@ =~= kept(all, p));
        }
    }
}

proof fn lemma_same_pairs<K: View, V: View>(a: Seq<(K, V)>, b: Seq<(K, V)>)
    requires
        a.len() == b.len(),
        forall|i: int|
            #![trigger a[i]]
            0 <= i < a.len() ==> a[i].0@ == b[i].0@ && a[i].1@ == b[i].1@,
    ensures
        pairs_map(a) == pairs_map(b),
    decreases a.len(),
{
    if a.len() > 0 {
        assert forall|i: int|
            #![trigger a.drop_last()[i]]
            0 <= i < a.drop_last().len() implies a.drop_last()[i].0@ == b.drop_last()[i].0@
            && a.drop_last()[i].1@ == b.drop_last()[i].1@ by {
            assert(a.drop_last()[i] == a[i]);
        }
        lemma_same_pairs(a.drop_last(), b.drop_last());
        assert(a[a.len() - 1].0@ == b[b.len() - 1].0@);
    }
}

impl<K: Key, V: Key> Table<K, V> {
    /// A second table with the same entries.
    pub fn duplicate(&self) -> (t: Self)
        ensures
            t@ == self@,
            t.keys() == self.keys(),
    {
        proof {
            use_type_invariant(self);
        }
        let mut entries: Vec<(K, V)> = Vec::new();
        let mut i: usize = 0;
        while i < self.entries.len()
            invariant
                i == entries@.len(),
                i <= self.entries@.len(),
                forall|j: int|
                    #![trigger entries@[j]]
                    0 <= j < i ==> entries@[j].0@ == self.entries@[j].0@ && entries@[j].1@
                        == self.entries@[j].1@,
            decreases self.entries.len() - i,
        {
            let copy = (self.entries[i].0.duplicate(), self.entries[i].1.duplicate());
            entries.push(copy);
            i = i + 1;
        }
        proof {
            lemma_same_pairs(entries@, self.entries@);
            assert forall|i: int, j: int|
                #![trigger entries@[i], entries@[j]]
                0 <= i < j < entries@.len() implies entries@[i].0@ != entries@[j].0@ by {
                assert(self.entries@[i].0@ != self.entries@[j].0@);
            }
        }
        let t = Table { entries };
        assert(t.keys() =~= self.keys());
        t
    }
}

/// A set with few members. Its view is the set of what the members stand for.
pub struct KeySet<K: Key> {
    items: Vec<K>,
}

impl<K: Key> View for KeySet<K> {
    type V = Set<K::V>;

    closed spec fn view(&self) -> Set<K::V> {
        self.members().to_set()
    }
}

impl<K: Key> KeySet<K> {
    /// No member is stored twice.
    #[verifier::type_invariant]
    spec fn inv(self) -> bool {
        self.members().no_duplicates()
    }

    /// The members, in the order in which they are stored.
    pub closed spec fn members(&self) -> Seq<K::V> {
        self.items@.map_values(|k: K| k@)
    }

    /// How the members of a set relate to its view.
    proof fn lemma_members(&self)
        requires
            self.members().no_duplicates(),
        ensures
            self@.finite(),
            self@.len() == self.members().len(),
            self.members().no_duplicates(),
            self.members().to_set() == self@,
    {
        self.members().unique_seq_to_set();
        vstd::seq_lib::seq_to_set_is_finite(self.members());
    }

    /// An empty set.
    pub fn new() -> (s: Self)
        ensures
            s@ == Set::<K::V>::empty(),
    {
        let s = KeySet { items: Vec::new() };
        assert(s@ =~= Set::<K::V>::empty());
        s
    }

    /// The number of members. Each member is stored once.
    pub fn len(&self) -> (n: usize)
        ensures
            n == self@.len(),
            n == self.members().len(),
            self@.finite(),
            self.members().no_duplicates(),
            self.members().to_set() == self@,
            n == 0 <==> self@ == Set::<K::V>::empty(),
    {
        proof {
            use_type_invariant(self);
            self.lemma_members();
            if self@.len() == 0 {
                self@.lemma_len0_is_empty();
            }
        }
        self.items.len()
    }

    /// The position of a member, or the number of members where it is absent.
    fn position(&self, k: &K) -> (p: usize)
        ensures
            p <= self.items@.len(),
            p < self.items@.len() ==> self.items@[p as int]@ == k@,
            p < self.items@.len() <==> self@.contains(k@),
    {
        let mut i: usize = 0;
        while i < self.items.len()
            invariant
                i <= self.items@.len(),
                forall|j: int| 0 <= j < i ==> (#[trigger] self.items@[j])@ != k@,
            decreases self.items.len() - i,
        {
            if self.items[i].same(k) {
                assert(self.members()[i as int] == k@);
                return i;
            }
            i = i + 1;
        }
        proof {
            if self@.contains(k@) {
                let j = choose|j: int| 0 <= j < self.members().len() && self.members()[j] == k@;
                assert(self.items@[j]@ == k@);
            }
        }
        i
    }

    /// Whether `k` is a member.
    pub fn contains(&self, k: &K) -> (r: bool)
        ensures
            r == self@.contains(k@),
    {
        self.position(k) < self.items.len()
    }

    /// The member at a position.
    pub fn item(&self, i: usize) -> (k: &K)
        requires
            i < self.members().len(),
        ensures
            k@ == self.members()[i as int],
    {
        &self.items[i]
    }

    /// Makes `k` a member.
    pub fn insert(&mut self, k: K)
        ensures
            final(self)@ == old(self)@.insert(k@),
    {
        proof {
            use_type_invariant(&*self);
        }
        let p: usize = self.position(&k);
        let ghost key = k@;
        let ghost before = self.members();
        if p < self.items.len() {
            assert(self@ =~= self@.insert(key));
        } else {
            let mut items: Vec<K> = Vec::new();
            std::mem::swap(&mut items, &mut self.items);
            items.push(k);
            proof {
                assert(items@.map_values(|k: K| k@) =~= before.push(key));
                assert forall|x: K::V| before.push(key).contains(x) <==> before.contains(x) || x
                    == key by {
                    if before.contains(x) {
                        let i = choose|i: int| 0 <= i < before.len() && before[i] == x;
                        assert(before.push(key)[i] == x);
                    }
                    if x == key {
                        assert(before.push(key)[before.len() as int] == x);
                    }
                }
                assert(before.push(key).to_set() =~= before.to_set().insert(key));
            }
            self.items = items;
        }
    }

    /// Removes `k`; tells whether it was a member.
    pub fn remove(&mut self, k: &K) -> (r: bool)
        ensures
            final(self)@ == old(self)@.remove(k@),
            r == old(self)@.contains(k@),
    {
        proof {
            use_type_invariant(&*self);
        }
        let p: usize = self.position(k);
        let ghost before = self.members();
        if p >= self.items.len() {
            assert(self@ =~= self@.remove(k@));
            return false;
        }
        let mut items: Vec<K> = Vec::new();
        std::mem::swap(&mut items, &mut self.items);
        let _ = items.remove(p);
        proof {
            let after = items@.map_values(|k: K| k@);
            assert(after =~= before.remove(p as int));
            assert forall|x: K::V| after.contains(x) <==> (before.contains(x) && x != k@) by {
                if after.contains(x) {
                    let i = choose|i: int| 0 <= i < after.len() && after[i] == x;
                    let bi = if i < p { i } else { i + 1 };
                    assert(before[bi] == x);
                    assert(before[p as int] == k@);
                    assert(before[bi] != before[p as int]);
                }
                if before.contains(x) && x != k@ {
                    let i = choose|i: int| 0 <= i < before.len() && before[i] == x;
                    if i < p {
                        assert(after[i] == x);
                    } else {
                        assert(after[i - 1] == x);
                    }
                }
            }
            assert(after.to_set() =~= before.to_set().remove(k@));
        }
        self.items = items;
        true
    }
}

} // verus!
