//! Verified map and set containers keyed by 64-bit identifiers.
//!
//! Every top-level table of the cache, and every nested table inside a cached
//! guild, is an [`IdMap`]: an association list with pairwise-distinct keys.
//! Its abstract value is a `Map<u64, V::V>` over the views of the stored
//! values, so contracts throughout the crate speak in terms of mathematical
//! maps. [`IdSet`] plays the same role for plain identifier sets.

use vstd::prelude::*;

verus! {

/// A map from 64-bit identifiers to values, with a `Map` view.
pub struct IdMap<V> {
    entries: Vec<(u64, V)>,
}

/// The abstract value of an association list: later entries shadow earlier
/// ones, though the invariant keeps all keys distinct anyway.
pub open spec fn assoc_view<V: View>(s: Seq<(u64, V)>) -> Map<u64, V::V>
    decreases s.len(),
{
    if s.len() == 0 {
        Map::empty()
    } else {
        assoc_view(s.drop_last()).insert(s.last().0, s.last().1@)
    }
}

/// Pairwise distinctness of the keys of an association list.
pub open spec fn distinct_keys<V>(s: Seq<(u64, V)>) -> bool {
    forall|i: int, j: int| 0 <= i < j < s.len() ==> s[i].0 != s[j].0
}

/// A key is bound in the view exactly when some entry carries it.
proof fn lemma_assoc_contains<V: View>(s: Seq<(u64, V)>, k: u64)
    ensures
        assoc_view(s).contains_key(k) <==> exists|i: int| 0 <= i < s.len() && s[i].0 == k,
    decreases s.len(),
{
    if s.len() > 0 {
        lemma_assoc_contains(s.drop_last(), k);
        if s.last().0 == k {
            assert(s[s.len() - 1].0 == k);
        } else if assoc_view(s).contains_key(k) {
            let i = choose|i: int| 0 <= i < s.drop_last().len() && s.drop_last()[i].0 == k;
            assert(s[i].0 == k);
        } else if exists|i: int| 0 <= i < s.len() && s[i].0 == k {
            let i = choose|i: int| 0 <= i < s.len() && s[i].0 == k;
            assert(s.drop_last()[i].0 == k);
        }
    }
}

/// Under distinctness, the entry carrying a key decides its image.
proof fn lemma_assoc_index<V: View>(s: Seq<(u64, V)>, i: int)
    requires
        distinct_keys(s),
        0 <= i < s.len(),
    ensures
        assoc_view(s).contains_key(s[i].0),
        assoc_view(s)[s[i].0] == s[i].1@,
    decreases s.len(),
{
    lemma_assoc_contains(s, s[i].0);
    if i < s.len() - 1 {
        assert(s[i].0 != s.last().0);
        assert(s.drop_last()[i] == s[i]);
        lemma_assoc_index(s.drop_last(), i);
    }
}

/// Under distinctness, the view has exactly as many keys as entries.
proof fn lemma_assoc_len<V: View>(s: Seq<(u64, V)>)
    requires
        distinct_keys(s),
    ensures
        assoc_view(s).dom().finite(),
        assoc_view(s).dom().len() == s.len(),
    decreases s.len(),
{
    if s.len() > 0 {
        lemma_assoc_len(s.drop_last());
        lemma_assoc_contains(s.drop_last(), s.last().0);
        assert(forall|i: int| 0 <= i < s.drop_last().len() ==> s[i].0 != s.last().0);
        assert(!assoc_view(s.drop_last()).contains_key(s.last().0));
    }
}

/// Removing the entry at one index removes exactly its key from the view.
proof fn lemma_assoc_remove<V: View>(s: Seq<(u64, V)>, i: int)
    requires
        distinct_keys(s),
        0 <= i < s.len(),
    ensures
        assoc_view(s.remove(i)) =~= assoc_view(s).remove(s[i].0),
    decreases s.len(),
{
    lemma_assoc_contains(s, s[i].0);
    lemma_assoc_index(s, i);
    if i == s.len() - 1 {
        assert(s.remove(i) =~= s.drop_last());
        lemma_assoc_contains(s.drop_last(), s[i].0);
        assert(!assoc_view(s.drop_last()).contains_key(s[i].0));
        assert(assoc_view(s.drop_last()) =~= assoc_view(s).remove(s[i].0));
    } else {
        lemma_assoc_remove(s.drop_last(), i);
        assert(s.remove(i).drop_last() =~= s.drop_last().remove(i));
        assert(s.remove(i).last() == s.last());
        assert(assoc_view(s.remove(i)) =~= assoc_view(s.drop_last().remove(i)).insert(
            s.last().0,
            s.last().1@,
        ));
        assert(s[i].0 != s.last().0);
    }
}

impl<V> IdMap<V> {
    /// The keys of the entries, in their storage order.
    pub closed spec fn key_seq(self) -> Seq<u64> {
        self.entries@.map_values(|p: (u64, V)| p.0)
    }

    #[verifier::type_invariant]
    spec fn inv(self) -> bool {
        distinct_keys(self.entries@)
    }
}

impl<V: View> View for IdMap<V> {
    type V = Map<u64, V::V>;

    closed spec fn view(&self) -> Map<u64, V::V> {
        assoc_view(self.entries@)
    }
}

impl<V: View> IdMap<V> {
    /// An empty map.
    pub fn new() -> (r: Self)
        ensures
            r@ == Map::<u64, V::V>::empty(),
    {
        IdMap { entries: Vec::new() }
    }

    /// The position of the entry carrying `k`, if one does.
    fn position(&self, k: u64) -> (r: Option<usize>)
        ensures
            match r {
                Some(i) => i < self.entries@.len() && self.entries@[i as int].0 == k
                    && self@.contains_key(k),
                None => !self@.contains_key(k),
            },
    {
        proof {
            use_type_invariant(&*self);
            lemma_assoc_contains(self.entries@, k);
        }
        let mut i: usize = 0;
        while i < self.entries.len()
            invariant
                i <= self.entries@.len(),
                forall|j: int| 0 <= j < i ==> self.entries@[j].0 != k,
                self@.contains_key(k) <==> exists|j: int|
                    0 <= j < self.entries@.len() && self.entries@[j].0 == k,
            decreases self.entries@.len() - i,
        {
            if self.entries[i].0 == k {
                return Some(i);
            }
            i = i + 1;
        }
        None
    }

    /// Whether `k` is bound.
    pub fn contains_key(&self, k: u64) -> (r: bool)
        ensures
            r == self@.contains_key(k),
    {
        self.position(k).is_some()
    }

    /// The number of entries.
    pub fn len(&self) -> (r: usize)
        ensures
            r == self@.dom().len(),
            self@.dom().finite(),
    {
        proof {
            use_type_invariant(&*self);
            lemma_assoc_len(self.entries@);
        }
        self.entries.len()
    }

    /// A borrow of the value bound to `k`, if one is.
    pub fn get(&self, k: u64) -> (r: Option<&V>)
        ensures
            match r {
                Some(v) => self@.contains_key(k) && v@ == self@[k],
                None => !self@.contains_key(k),
            },
    {
        proof {
            use_type_invariant(&*self);
        }
        match self.position(k) {
            Some(i) => {
                proof {
                    lemma_assoc_index(self.entries@, i as int);
                }
                let p: &(u64, V) = &self.entries[i];
                Some(&p.1)
            },
            None => None,
        }
    }

    /// Removes the binding of `k`, handing back the stored value.
    pub fn remove(&mut self, k: u64) -> (r: Option<V>)
        ensures
            final(self)@ == old(self)@.remove(k),
            match r {
                Some(v) => old(self)@.contains_key(k) && v@ == old(self)@[k],
                None => !old(self)@.contains_key(k) && final(self)@ == old(self)@,
            },
    {
        proof {
            use_type_invariant(&*self);
        }
        match self.position(k) {
            Some(i) => {
                proof {
                    lemma_assoc_index(self.entries@, i as int);
                    lemma_assoc_remove(self.entries@, i as int);
                }
                let mut entries: Vec<(u64, V)> = Vec::new();
                std::mem::swap(&mut entries, &mut self.entries);
                let p = entries.remove(i);
                self.entries = entries;
                proof {
                    assert(final(self)@ =~= old(self)@.remove(k));
                }
                Some(p.1)
            },
            None => {
                proof {
                    assert(old(self)@.remove(k) =~= old(self)@);
                }
                None
            },
        }
    }

    /// Binds `k` to `v`, handing back the value it replaced, if any.
    pub fn insert(&mut self, k: u64, v: V) -> (r: Option<V>)
        ensures
            final(self)@ == old(self)@.insert(k, v@),
            match r {
                Some(o) => old(self)@.contains_key(k) && o@ == old(self)@[k],
                None => !old(self)@.contains_key(k),
            },
    {
        proof {
            use_type_invariant(&*self);
        }
        let r = self.remove(k);
        proof {
            use_type_invariant(&*self);
            lemma_assoc_contains(self.entries@, k);
        }
        let ghost pre_push = self.entries@;
        let mut entries: Vec<(u64, V)> = Vec::new();
        std::mem::swap(&mut entries, &mut self.entries);
        entries.push((k, v));
        self.entries = entries;
        proof {
            assert(self.entries@.drop_last() =~= pre_push);
            assert(forall|i: int| 0 <= i < pre_push.len() ==> pre_push[i].0 != k);
            assert(final(self)@ =~= old(self)@.insert(k, v@));
        }
        r
    }

    /// All bound keys, in storage order.
    pub fn keys(&self) -> (r: Vec<u64>)
        ensures
            r@ == self.key_seq(),
            r@.no_duplicates(),
            r@.to_set() == self@.dom(),
    {
        proof {
            use_type_invariant(&*self);
        }
        let mut r: Vec<u64> = Vec::new();
        let mut i: usize = 0;
        while i < self.entries.len()
            invariant
                i <= self.entries@.len(),
                r@ =~= self.entries@.subrange(0, i as int).map_values(|p: (u64, V)| p.0),
            decreases self.entries@.len() - i,
        {
            let p: &(u64, V) = &self.entries[i];
            r.push(p.0);
            proof {
                assert(r@ =~= self.entries@.subrange(0, i + 1 as int).map_values(
                    |p: (u64, V)| p.0,
                ));
            }
            i = i + 1;
        }
        proof {
            assert(self.entries@.subrange(0, self.entries@.len() as int) =~= self.entries@);
            assert(r@ =~= self.key_seq());
            assert forall|j: int, l: int| 0 <= j < l < r@.len() implies r@[j] != r@[l] by {
                assert(r@[j] == self.entries@[j].0);
            }
            assert forall|k: u64| r@.to_set().contains(k) implies self@.dom().contains(k) by {
                let j = choose|j: int| 0 <= j < r@.len() && r@[j] == k;
                lemma_assoc_index(self.entries@, j);
            }
            assert forall|k: u64| self@.dom().contains(k) implies r@.to_set().contains(k) by {
                lemma_assoc_contains(self.entries@, k);
                let j = choose|j: int|
                    0 <= j < self.entries@.len() && self.entries@[j].0 == k;
                assert(r@[j] == k);
            }
            assert(r@.to_set() =~= self@.dom());
        }
        r
    }
}

/// A set of 64-bit identifiers, with a `Set` view.
pub struct IdSet {
    ids: Vec<u64>,
}

impl View for IdSet {
    type V = Set<u64>;

    closed spec fn view(&self) -> Set<u64> {
        self.ids@.to_set()
    }
}

impl IdSet {
    #[verifier::type_invariant]
    spec fn inv(self) -> bool {
        self.ids@.no_duplicates()
    }

    /// The members, in storage order.
    pub closed spec fn id_seq(self) -> Seq<u64> {
        self.ids@
    }

    /// An empty set.
    pub fn new() -> (r: Self)
        ensures
            r@ == Set::<u64>::empty(),
    {
        let r = IdSet { ids: Vec::new() };
        proof {
            assert(r@ =~= Set::<u64>::empty());
        }
        r
    }

    /// The position of `k` among the members, if it is one.
    fn position(&self, k: u64) -> (r: Option<usize>)
        ensures
            match r {
                Some(i) => i < self.ids@.len() && self.ids@[i as int] == k && self@.contains(k),
                None => !self@.contains(k),
            },
    {
        let mut i: usize = 0;
        while i < self.ids.len()
            invariant
                i <= self.ids@.len(),
                forall|j: int| 0 <= j < i ==> self.ids@[j] != k,
            decreases self.ids@.len() - i,
        {
            if self.ids[i] == k {
                return Some(i);
            }
            i = i + 1;
        }
        None
    }

    /// Whether `k` is a member.
    pub fn contains(&self, k: u64) -> (r: bool)
        ensures
            r == self@.contains(k),
    {
        self.position(k).is_some()
    }

    /// The number of members.
    pub fn len(&self) -> (r: usize)
        ensures
            r == self@.len(),
            self@.finite(),
    {
        proof {
            use_type_invariant(&*self);
            self.ids@.unique_seq_to_set();
        }
        self.ids.len()
    }

    /// Adds `k` to the set.
    pub fn insert(&mut self, k: u64)
        ensures
            final(self)@ == old(self)@.insert(k),
    {
        proof {
            use_type_invariant(&*self);
        }
        match self.position(k) {
            Some(_) => {
                proof {
                    assert(final(self)@ =~= old(self)@.insert(k));
                }
            },
            None => {
                let mut ids: Vec<u64> = Vec::new();
                std::mem::swap(&mut ids, &mut self.ids);
                ids.push(k);
                self.ids = ids;
                proof {
                    let s_old = old(self).ids@;
                    let s_new = self.ids@;
                    assert forall|x: u64| s_new.contains(x) implies (s_old.contains(x) || x == k) by {
                        let i = choose|i: int| 0 <= i < s_new.len() && s_new[i] == x;
                        if i < s_old.len() {
                            assert(s_old[i] == x);
                        }
                    }
                    assert forall|x: u64| s_old.contains(x) implies s_new.contains(x) by {
                        let i = choose|i: int| 0 <= i < s_old.len() && s_old[i] == x;
                        assert(s_new[i] == x);
                    }
                    assert(s_new[s_old.len() as int] == k);
                    assert(s_new.contains(k));
                    assert(final(self)@ =~= old(self)@.insert(k));
                }
            },
        }
    }

    /// Removes `k` from the set.
    pub fn remove(&mut self, k: u64)
        ensures
            final(self)@ == old(self)@.remove(k),
    {
        proof {
            use_type_invariant(&*self);
        }
        match self.position(k) {
            Some(i) => {
                let mut ids: Vec<u64> = Vec::new();
                std::mem::swap(&mut ids, &mut self.ids);
                ids.remove(i);
                self.ids = ids;
                proof {
                    let s_old = old(self).ids@;
                    let s_new = self.ids@;
                    assert forall|x: u64| s_new.contains(x) implies (s_old.contains(x) && x != k)
                        by {
                        let j = choose|j: int| 0 <= j < s_new.len() && s_new[j] == x;
                        if j < i {
                            assert(s_old[j] == x);
                            assert(j != i);
                        } else {
                            assert(s_old[j + 1] == x);
                            assert(j + 1 != i);
                        }
                    }
                    assert forall|x: u64| s_old.contains(x) && x != k implies s_new.contains(x)
                        by {
                        let j = choose|j: int| 0 <= j < s_old.len() && s_old[j] == x;
                        if j < i {
                            assert(s_new[j] == x);
                        } else {
                            assert(j != i);
                            assert(s_new[j - 1] == x);
                        }
                    }
                    assert(final(self)@ =~= old(self)@.remove(k));
                }
            },
            None => {
                proof {
                    assert(final(self)@ =~= old(self)@.remove(k));
                }
            },
        }
    }

    /// All members, in storage order.
    pub fn members(&self) -> (r: Vec<u64>)
        ensures
            r@ == self.id_seq(),
            r@.no_duplicates(),
            r@.to_set() == self@,
    {
        proof {
            use_type_invariant(&*self);
        }
        let mut r: Vec<u64> = Vec::new();
        let mut i: usize = 0;
        while i < self.ids.len()
            invariant
                i <= self.ids@.len(),
                r@ =~= self.ids@.subrange(0, i as int),
            decreases self.ids@.len() - i,
        {
            r.push(self.ids[i]);
            i = i + 1;
        }
        proof {
            assert(r@ =~= self.ids@);
        }
        r
    }
}

} // verus!
