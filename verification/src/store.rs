//! A component store: a mapping from entity id to a component value, kept as
//! an association vector with pairwise-distinct keys. Iteration order is the
//! insertion order, which makes broadcasts reproducible within a process run.

use vstd::prelude::*;

verus! {

use vstd::pervasive::VecAdditionalExecFns;

/// Distinctness of the keys of an association sequence.
pub open spec fn unique_keys<V>(s: Seq<(usize, V)>) -> bool {
    forall|i: int, j: int| 0 <= i < j < s.len() ==> (#[trigger] s[i]).0 != (#[trigger] s[j]).0
}

/// The mathematical map an association sequence denotes (later entries shadow
/// earlier ones; with `unique_keys` there is nothing to shadow).
pub open spec fn map_of<V>(s: Seq<(usize, V)>) -> Map<usize, V>
    decreases s.len(),
{
    if s.len() == 0 {
        Map::empty()
    } else {
        map_of(s.drop_first()).insert(s[0].0, s[0].1)
    }
}

/// The association sequence after binding `k` to `v`: the first entry with
/// key `k` is replaced in place, or a new entry is appended.
pub open spec fn insert_key<V>(s: Seq<(usize, V)>, k: usize, v: V) -> Seq<(usize, V)>
    decreases s.len(),
{
    if s.len() == 0 {
        seq![(k, v)]
    } else if s[0].0 == k {
        seq![(k, v)] + s.drop_first()
    } else {
        seq![s[0]] + insert_key(s.drop_first(), k, v)
    }
}

/// The association sequence after unbinding `k`: the first entry with key `k`
/// is dropped; other entries keep their order.
pub open spec fn remove_key<V>(s: Seq<(usize, V)>, k: usize) -> Seq<(usize, V)>
    decreases s.len(),
{
    if s.len() == 0 {
        s
    } else if s[0].0 == k {
        s.drop_first()
    } else {
        seq![s[0]] + remove_key(s.drop_first(), k)
    }
}

pub proof fn lemma_map_of_contains<V>(s: Seq<(usize, V)>, k: usize)
    ensures
        map_of(s).dom().contains(k) <==> exists|i: int| 0 <= i < s.len() && (#[trigger] s[i]).0 == k,
    decreases s.len(),
{
    if s.len() > 0 {
        lemma_map_of_contains(s.drop_first(), k);
        if s[0].0 == k {
            assert(s[0].0 == k);
        } else if map_of(s).dom().contains(k) {
            let i = choose|i: int| 0 <= i < s.drop_first().len() && (#[trigger] s.drop_first()[i]).0 == k;
            assert(s[i + 1].0 == k);
        } else {
            assert forall|i: int| 0 <= i < s.len() implies (#[trigger] s[i]).0 != k by {
                if i > 0 {
                    assert(s.drop_first()[i - 1] == s[i]);
                }
            }
        }
    }
}

pub proof fn lemma_map_of_index<V>(s: Seq<(usize, V)>, i: int)
    requires
        unique_keys(s),
        0 <= i < s.len(),
    ensures
        map_of(s).dom().contains(s[i].0),
        map_of(s)[s[i].0] == s[i].1,
    decreases s.len(),
{
    lemma_map_of_contains(s, s[i].0);
    if i > 0 {
        assert(s.drop_first()[i - 1] == s[i]);
        assert(unique_keys(s.drop_first())) by {
            assert forall|p: int, q: int| 0 <= p < q < s.drop_first().len()
                implies (#[trigger] s.drop_first()[p]).0 != (#[trigger] s.drop_first()[q]).0 by {
                assert(s.drop_first()[p] == s[p + 1]);
                assert(s.drop_first()[q] == s[q + 1]);
            }
        }
        lemma_map_of_index(s.drop_first(), i - 1);
        assert(s[0].0 != s[i].0);
    }
}

pub proof fn lemma_drop_first_unique<V>(s: Seq<(usize, V)>)
    requires
        unique_keys(s),
        s.len() > 0,
    ensures
        unique_keys(s.drop_first()),
{
    assert forall|p: int, q: int| 0 <= p < q < s.drop_first().len()
        implies (#[trigger] s.drop_first()[p]).0 != (#[trigger] s.drop_first()[q]).0 by {
        assert(s.drop_first()[p] == s[p + 1]);
        assert(s.drop_first()[q] == s[q + 1]);
    }
}

pub proof fn lemma_insert_key<V>(s: Seq<(usize, V)>, k: usize, v: V)
    requires
        unique_keys(s),
    ensures
        unique_keys(insert_key(s, k, v)),
        map_of(insert_key(s, k, v)) == map_of(s).insert(k, v),
    decreases s.len(),
{
    let t = insert_key(s, k, v);
    if s.len() == 0 {
        assert(t =~= seq![(k, v)]);
        assert(t.drop_first() =~= Seq::<(usize, V)>::empty());
        assert(map_of(t.drop_first()) =~= Map::<usize, V>::empty());
        assert(map_of(t) == map_of(t.drop_first()).insert(t[0].0, t[0].1));
        assert(map_of(t) =~= map_of(s).insert(k, v));
    } else if s[0].0 == k {
        assert(t =~= seq![(k, v)] + s.drop_first());
        assert(t.drop_first() =~= s.drop_first());
        lemma_drop_first_unique(s);
        assert forall|p: int, q: int| 0 <= p < q < t.len()
            implies (#[trigger] t[p]).0 != (#[trigger] t[q]).0 by {
            if p == 0 {
                assert(t[q] == s[q]);
                assert(s[0].0 != s[q].0);
            } else {
                assert(t[p] == s[p]);
                assert(t[q] == s[q]);
            }
        }
        assert(map_of(t) == map_of(s.drop_first()).insert(k, v));
        assert(map_of(s) == map_of(s.drop_first()).insert(k, s[0].1));
        assert(map_of(t) =~= map_of(s).insert(k, v));
    } else {
        lemma_drop_first_unique(s);
        lemma_insert_key(s.drop_first(), k, v);
        let u = insert_key(s.drop_first(), k, v);
        assert(t =~= seq![s[0]] + u);
        assert(t.drop_first() =~= u);
        lemma_map_of_contains(s.drop_first(), s[0].0);
        lemma_insert_key_contains(s.drop_first(), k, v, s[0].0);
        assert forall|p: int, q: int| 0 <= p < q < t.len()
            implies (#[trigger] t[p]).0 != (#[trigger] t[q]).0 by {
            if p == 0 {
                assert(t[q] == u[q - 1]);
                if u[q - 1].0 == s[0].0 {
                    assert(exists|i: int| 0 <= i < u.len() && (#[trigger] u[i]).0 == s[0].0);
                    lemma_map_of_contains(u, s[0].0);
                    assert(map_of(u).dom().contains(s[0].0));
                    assert(false);
                }
            } else {
                assert(t[p] == u[p - 1]);
                assert(t[q] == u[q - 1]);
            }
        }
        assert(map_of(t) == map_of(u).insert(s[0].0, s[0].1));
        assert(map_of(s) == map_of(s.drop_first()).insert(s[0].0, s[0].1));
        assert(map_of(t) =~= map_of(s).insert(k, v));
    }
}

proof fn lemma_insert_key_contains<V>(s: Seq<(usize, V)>, k: usize, v: V, other: usize)
    requires
        other != k,
    ensures
        map_of(insert_key(s, k, v)).dom().contains(other) <==> map_of(s).dom().contains(other),
{
    lemma_map_of_contains(s, other);
    lemma_map_of_contains(insert_key(s, k, v), other);
    lemma_insert_key_positions(s, k, v, other);
}

proof fn lemma_insert_key_positions<V>(s: Seq<(usize, V)>, k: usize, v: V, other: usize)
    requires
        other != k,
    ensures
        (exists|i: int| 0 <= i < insert_key(s, k, v).len() && (#[trigger] insert_key(s, k, v)[i]).0 == other)
            <==> (exists|i: int| 0 <= i < s.len() && (#[trigger] s[i]).0 == other),
    decreases s.len(),
{
    let t = insert_key(s, k, v);
    if s.len() == 0 {
        assert forall|i: int| 0 <= i < t.len() implies (#[trigger] t[i]).0 != other by {}
    } else if s[0].0 == k {
        assert forall|i: int| 0 <= i < t.len() && (#[trigger] t[i]).0 == other
            implies exists|j: int| 0 <= j < s.len() && (#[trigger] s[j]).0 == other by {
            assert(t[i] == s.drop_first()[i - 1]);
            assert(s[i] == t[i]);
        }
        if exists|j: int| 0 <= j < s.len() && (#[trigger] s[j]).0 == other {
            let j = choose|j: int| 0 <= j < s.len() && (#[trigger] s[j]).0 == other;
            assert(j > 0);
            assert(t[j] == s.drop_first()[j - 1]);
            assert(t[j].0 == other);
        }
    } else {
        lemma_insert_key_positions(s.drop_first(), k, v, other);
        let u = insert_key(s.drop_first(), k, v);
        assert(t =~= seq![s[0]] + u);
        if exists|i: int| 0 <= i < t.len() && (#[trigger] t[i]).0 == other {
            let i = choose|i: int| 0 <= i < t.len() && (#[trigger] t[i]).0 == other;
            if i == 0 {
                assert(s[0].0 == other);
            } else {
                assert(u[i - 1].0 == other);
                let j = choose|j: int| 0 <= j < s.drop_first().len() && (#[trigger] s.drop_first()[j]).0 == other;
                assert(s[j + 1].0 == other);
            }
        }
        if exists|j: int| 0 <= j < s.len() && (#[trigger] s[j]).0 == other {
            let j = choose|j: int| 0 <= j < s.len() && (#[trigger] s[j]).0 == other;
            if j == 0 {
                assert(t[0].0 == other);
            } else {
                assert(s.drop_first()[j - 1].0 == other);
                let i = choose|i: int| 0 <= i < u.len() && (#[trigger] u[i]).0 == other;
                assert(t[i + 1].0 == other);
            }
        }
    }
}

pub proof fn lemma_remove_key<V>(s: Seq<(usize, V)>, k: usize)
    requires
        unique_keys(s),
    ensures
        unique_keys(remove_key(s, k)),
        map_of(remove_key(s, k)) == map_of(s).remove(k),
    decreases s.len(),
{
    let t = remove_key(s, k);
    if s.len() == 0 {
        assert(map_of(t) =~= map_of(s).remove(k));
    } else if s[0].0 == k {
        lemma_drop_first_unique(s);
        assert(t == s.drop_first());
        lemma_map_of_contains(s.drop_first(), k);
        assert(!map_of(s.drop_first()).dom().contains(k)) by {
            if map_of(s.drop_first()).dom().contains(k) {
                let i = choose|i: int| 0 <= i < s.drop_first().len() && (#[trigger] s.drop_first()[i]).0 == k;
                assert(s[i + 1].0 == k);
                assert(false);
            }
        }
        assert(map_of(t) =~= map_of(s).remove(k));
    } else {
        lemma_drop_first_unique(s);
        lemma_remove_key(s.drop_first(), k);
        let u = remove_key(s.drop_first(), k);
        assert(t =~= seq![s[0]] + u);
        assert(t.drop_first() =~= u);
        assert forall|p: int, q: int| 0 <= p < q < t.len()
            implies (#[trigger] t[p]).0 != (#[trigger] t[q]).0 by {
            if p == 0 {
                assert(t[q] == u[q - 1]);
                if u[q - 1].0 == s[0].0 {
                    lemma_map_of_contains(u, s[0].0);
                    lemma_map_of_contains(s.drop_first(), s[0].0);
                    assert(map_of(u).dom().contains(s[0].0));
                    assert(false);
                }
            } else {
                assert(t[p] == u[p - 1]);
                assert(t[q] == u[q - 1]);
            }
        }
        assert(map_of(t) == map_of(u).insert(s[0].0, s[0].1));
        assert(map_of(s) == map_of(s.drop_first()).insert(s[0].0, s[0].1));
        assert(map_of(t) =~= map_of(s).remove(k));
    }
}

/// Removing the sole entry with key `k`, standing at index `i`, is the same
/// as dropping index `i`.
pub proof fn lemma_remove_key_at<V>(s: Seq<(usize, V)>, k: usize, i: int)
    requires
        unique_keys(s),
        0 <= i < s.len(),
        s[i].0 == k,
    ensures
        remove_key(s, k) == s.remove(i),
    decreases s.len(),
{
    if i == 0 {
        assert(remove_key(s, k) == s.drop_first());
        assert(s.drop_first() =~= s.remove(0));
    } else {
        lemma_drop_first_unique(s);
        assert(s.drop_first()[i - 1] == s[i]);
        lemma_remove_key_at(s.drop_first(), k, i - 1);
        assert(s[0].0 != k);
        assert(remove_key(s, k) == seq![s[0]] + s.drop_first().remove(i - 1));
        assert(seq![s[0]] + s.drop_first().remove(i - 1) =~= s.remove(i));
    }
}

/// Replacing the sole entry with key `k`, standing at index `i`, is the same
/// as updating index `i`.
pub proof fn lemma_insert_key_at<V>(s: Seq<(usize, V)>, k: usize, v: V, i: int)
    requires
        unique_keys(s),
        0 <= i < s.len(),
        s[i].0 == k,
    ensures
        insert_key(s, k, v) == s.update(i, (k, v)),
    decreases s.len(),
{
    if i == 0 {
        assert(insert_key(s, k, v) == seq![(k, v)] + s.drop_first());
        assert(seq![(k, v)] + s.drop_first() =~= s.update(0, (k, v)));
    } else {
        lemma_drop_first_unique(s);
        assert(s.drop_first()[i - 1] == s[i]);
        lemma_insert_key_at(s.drop_first(), k, v, i - 1);
        assert(s[0].0 != k);
        assert(insert_key(s, k, v) == seq![s[0]] + s.drop_first().update(i - 1, (k, v)));
        assert(seq![s[0]] + s.drop_first().update(i - 1, (k, v)) =~= s.update(i, (k, v)));
    }
}

/// On a sequence that lacks key `k`, binding `k` appends.
pub proof fn lemma_absent_key_insert<V>(s: Seq<(usize, V)>, k: usize, v: V)
    requires
        forall|i: int| 0 <= i < s.len() ==> (#[trigger] s[i]).0 != k,
    ensures
        insert_key(s, k, v) == s.push((k, v)),
    decreases s.len(),
{
    if s.len() == 0 {
        assert(insert_key(s, k, v) =~= s.push((k, v)));
    } else {
        assert forall|i: int| 0 <= i < s.drop_first().len()
            implies (#[trigger] s.drop_first()[i]).0 != k by {
            assert(s.drop_first()[i] == s[i + 1]);
        }
        lemma_absent_key_insert(s.drop_first(), k, v);
        assert(insert_key(s, k, v) == seq![s[0]] + s.drop_first().push((k, v)));
        assert(seq![s[0]] + s.drop_first().push((k, v)) =~= s.push((k, v)));
    }
}

/// On a sequence that lacks key `k`, unbinding `k` changes nothing.
pub proof fn lemma_absent_key_remove<V>(s: Seq<(usize, V)>, k: usize)
    requires
        forall|i: int| 0 <= i < s.len() ==> (#[trigger] s[i]).0 != k,
    ensures
        remove_key(s, k) == s,
    decreases s.len(),
{
    if s.len() == 0 {
        assert(remove_key(s, k) =~= s);
    } else {
        assert forall|i: int| 0 <= i < s.drop_first().len()
            implies (#[trigger] s.drop_first()[i]).0 != k by {
            assert(s.drop_first()[i] == s[i + 1]);
        }
        lemma_absent_key_remove(s.drop_first(), k);
        assert(remove_key(s, k) == seq![s[0]] + s.drop_first());
        assert(seq![s[0]] + s.drop_first() =~= s);
    }
}

/// Every entry after binding `k` is either the new binding or one of the old
/// entries.
pub proof fn lemma_insert_key_entries<V>(s: Seq<(usize, V)>, k: usize, v: V, i: int)
    requires
        0 <= i < insert_key(s, k, v).len(),
    ensures
        insert_key(s, k, v)[i] == (k, v) || exists|j: int|
            0 <= j < s.len() && #[trigger] s[j] == insert_key(s, k, v)[i],
    decreases s.len(),
{
    let t = insert_key(s, k, v);
    if s.len() == 0 {
        assert(t[i] == (k, v));
    } else if s[0].0 == k {
        if i > 0 {
            assert(t[i] == s.drop_first()[i - 1]);
            assert(s[i] == t[i]);
        }
    } else {
        if i == 0 {
            assert(t[0] == s[0]);
        } else {
            lemma_insert_key_entries(s.drop_first(), k, v, i - 1);
            assert(t[i] == insert_key(s.drop_first(), k, v)[i - 1]);
            if insert_key(s.drop_first(), k, v)[i - 1] != (k, v) {
                let j = choose|j: int|
                    0 <= j < s.drop_first().len() && #[trigger] s.drop_first()[j] == insert_key(
                        s.drop_first(),
                        k,
                        v,
                    )[i - 1];
                assert(s[j + 1] == t[i]);
            }
        }
    }
}

/// Every entry after unbinding `k` is one of the old entries.
pub proof fn lemma_remove_key_entries<V>(s: Seq<(usize, V)>, k: usize, i: int)
    requires
        0 <= i < remove_key(s, k).len(),
    ensures
        exists|j: int| 0 <= j < s.len() && #[trigger] s[j] == remove_key(s, k)[i],
    decreases s.len(),
{
    let t = remove_key(s, k);
    if s.len() == 0 {
    } else if s[0].0 == k {
        assert(s[i + 1] == t[i]);
    } else {
        if i == 0 {
            assert(t[0] == s[0]);
        } else {
            lemma_remove_key_entries(s.drop_first(), k, i - 1);
            assert(t[i] == remove_key(s.drop_first(), k)[i - 1]);
            let j = choose|j: int|
                0 <= j < s.drop_first().len() && #[trigger] s.drop_first()[j] == remove_key(
                    s.drop_first(),
                    k,
                )[i - 1];
            assert(s[j + 1] == t[i]);
        }
    }
}

/// One component store: entity id to component value, absence meaning the
/// entity lacks that component.
pub struct ComponentMap<V> {
    pub entries: Vec<(usize, V)>,
}

impl<V> ComponentMap<V> {
    /// The entries in iteration order.
    pub open spec fn pairs(&self) -> Seq<(usize, V)> {
        self.entries@
    }

    /// The mapping the store denotes.
    pub open spec fn m(&self) -> Map<usize, V> {
        map_of(self.pairs())
    }

    pub open spec fn wf(&self) -> bool {
        unique_keys(self.pairs())
    }

    pub fn new() -> (r: Self)
        ensures
            r.wf(),
            r.pairs() == Seq::<(usize, V)>::empty(),
            r.m() == Map::<usize, V>::empty(),
    {
        let r = ComponentMap { entries: Vec::new() };
        proof {
            assert(r.m() =~= Map::<usize, V>::empty());
        }
        r
    }

    pub fn len(&self) -> (r: usize)
        ensures
            r == self.pairs().len(),
    {
        self.entries.len()
    }

    pub fn entry_at(&self, i: usize) -> (r: &(usize, V))
        requires
            i < self.pairs().len(),
        ensures
            *r == self.pairs()[i as int],
    {
        &self.entries[i]
    }

    /// The index of the entry with key `k`, if it is bound.
    fn position_of(&self, k: usize) -> (r: Option<usize>)
        ensures
            match r {
                Some(i) => i < self.pairs().len() && self.pairs()[i as int].0 == k
                    && forall|j: int| 0 <= j < i ==> (#[trigger] self.pairs()[j]).0 != k,
                None => forall|j: int| 0 <= j < self.pairs().len() ==> (#[trigger] self.pairs()[j]).0 != k,
            },
    {
        let mut i: usize = 0;
        while i < self.entries.len()
            invariant
                i <= self.pairs().len(),
                forall|j: int| 0 <= j < i ==> (#[trigger] self.pairs()[j]).0 != k,
            decreases self.pairs().len() - i,
        {
            if self.entries[i].0 == k {
                return Some(i);
            }
            i = i + 1;
        }
        None
    }

    pub fn contains_key(&self, k: usize) -> (r: bool)
        requires
            self.wf(),
        ensures
            r == self.m().dom().contains(k),
    {
        let p = self.position_of(k);
        proof {
            lemma_map_of_contains(self.pairs(), k);
        }
        match p {
            Some(i) => {
                proof {
                    assert(self.pairs()[i as int].0 == k);
                }
                true
            },
            None => false,
        }
    }

    pub fn get(&self, k: usize) -> (r: Option<&V>)
        requires
            self.wf(),
        ensures
            match r {
                Some(v) => self.m().dom().contains(k) && *v == self.m()[k],
                None => !self.m().dom().contains(k),
            },
    {
        let p = self.position_of(k);
        proof {
            lemma_map_of_contains(self.pairs(), k);
        }
        match p {
            Some(i) => {
                proof {
                    lemma_map_of_index(self.pairs(), i as int);
                }
                Some(&self.entries[i].1)
            },
            None => None,
        }
    }

    pub fn insert(&mut self, k: usize, v: V)
        requires
            old(self).wf(),
        ensures
            final(self).wf(),
            final(self).pairs() == insert_key(old(self).pairs(), k, v),
            final(self).m() == old(self).m().insert(k, v),
    {
        proof {
            lemma_insert_key(self.pairs(), k, v);
        }
        let p = self.position_of(k);
        match p {
            Some(i) => {
                proof {
                    lemma_insert_key_at(old(self).pairs(), k, v, i as int);
                }
                self.entries.set(i, (k, v));
            },
            None => {
                proof {
                    lemma_absent_key_insert(old(self).pairs(), k, v);
                }
                self.entries.push((k, v));
            },
        }
    }

    pub fn remove(&mut self, k: usize)
        requires
            old(self).wf(),
        ensures
            final(self).wf(),
            final(self).pairs() == remove_key(old(self).pairs(), k),
            final(self).m() == old(self).m().remove(k),
    {
        proof {
            lemma_remove_key(self.pairs(), k);
        }
        let p = self.position_of(k);
        match p {
            Some(i) => {
                proof {
                    lemma_remove_key_at(old(self).pairs(), k, i as int);
                }
                let _ = self.entries.remove(i);
            },
            None => {
                proof {
                    lemma_absent_key_remove(old(self).pairs(), k);
                }
            },
        }
    }
}

} // verus!
