//! Reactions: declarative (trigger event kind, parameters) pairs attached to
//! an entity. The event dispatcher interprets them; they execute nothing by
//! themselves. A stored reaction list is never empty: storing an empty list
//! is the same as absence.

use vstd::prelude::*;

verus! {

use crate::EntityId;
use crate::notification::NotificationHandler;
use crate::store::ComponentMap;
use crate::store::insert_key;
use crate::store::lemma_insert_key;
use crate::store::lemma_insert_key_entries;
use crate::store::lemma_remove_key;
use crate::store::lemma_remove_key_entries;
use crate::store::remove_key;
use crate::store::unique_keys;

/// A reaction descriptor: a closed set of kinds, each carrying a numeric
/// parameter.
#[derive(Clone, Copy, PartialEq, Eq, Structural, Debug)]
pub enum Reaction {
    OpportunityAttack { damage_amount: i64 },
    Reinforce { armor_amount: i64 },
    Spite { damage_amount: i64 },
}

/// A reaction is storable when its parameter lies in the domain the engine
/// works on: an armor gain is non-negative.
pub open spec fn reaction_wf(r: Reaction) -> bool {
    match r {
        Reaction::Reinforce { armor_amount } => armor_amount >= 0,
        _ => true,
    }
}

pub open spec fn rlist_wf(l: Seq<Reaction>) -> bool {
    forall|j: int| 0 <= j < l.len() ==> reaction_wf(#[trigger] l[j])
}

/// A reaction store as plain pairs: each entry a reactor id with its list.
pub open spec fn pairs_deep(s: Seq<(usize, Vec<Reaction>)>) -> Seq<(usize, Seq<Reaction>)> {
    s.map_values(|p: (usize, Vec<Reaction>)| (p.0, p.1@))
}

pub proof fn lemma_pairs_deep_insert(s: Seq<(usize, Vec<Reaction>)>, k: usize, v: Vec<Reaction>)
    ensures
        pairs_deep(insert_key(s, k, v)) == insert_key(pairs_deep(s), k, v@),
    decreases s.len(),
{
    if s.len() == 0 {
        assert(pairs_deep(insert_key(s, k, v)) =~= insert_key(pairs_deep(s), k, v@));
    } else if s[0].0 == k {
        assert(pairs_deep(s)[0].0 == k);
        assert(insert_key(pairs_deep(s), k, v@) == seq![(k, v@)] + pairs_deep(s).drop_first());
        assert(pairs_deep(insert_key(s, k, v)) =~= insert_key(pairs_deep(s), k, v@));
    } else {
        lemma_pairs_deep_insert(s.drop_first(), k, v);
        assert(pairs_deep(s.drop_first()) =~= pairs_deep(s).drop_first());
        assert(pairs_deep(s)[0].0 == s[0].0);
        assert(insert_key(pairs_deep(s), k, v@) == seq![pairs_deep(s)[0]] + insert_key(
            pairs_deep(s).drop_first(),
            k,
            v@,
        ));
        assert(pairs_deep(insert_key(s, k, v)) =~= insert_key(pairs_deep(s), k, v@));
    }
}

pub proof fn lemma_pairs_deep_remove(s: Seq<(usize, Vec<Reaction>)>, k: usize)
    ensures
        pairs_deep(remove_key(s, k)) == remove_key(pairs_deep(s), k),
    decreases s.len(),
{
    if s.len() == 0 {
        assert(pairs_deep(remove_key(s, k)) =~= remove_key(pairs_deep(s), k));
    } else if s[0].0 == k {
        assert(pairs_deep(s)[0].0 == k);
        assert(remove_key(pairs_deep(s), k) == pairs_deep(s).drop_first());
        assert(pairs_deep(remove_key(s, k)) =~= remove_key(pairs_deep(s), k));
    } else {
        lemma_pairs_deep_remove(s.drop_first(), k);
        assert(pairs_deep(s.drop_first()) =~= pairs_deep(s).drop_first());
        assert(pairs_deep(s)[0].0 == s[0].0);
        assert(remove_key(pairs_deep(s), k) == seq![pairs_deep(s)[0]] + remove_key(
            pairs_deep(s).drop_first(),
            k,
        ));
        assert(pairs_deep(remove_key(s, k)) =~= remove_key(pairs_deep(s), k));
    }
}

/// A verified deep copy of a reaction list.
pub fn clone_reactions(v: &Vec<Reaction>) -> (r: Vec<Reaction>)
    ensures
        r@ == v@,
{
    let mut r: Vec<Reaction> = Vec::new();
    let mut i: usize = 0;
    while i < v.len()
        invariant
            i <= v@.len(),
            r@ == v@.subrange(0, i as int),
        decreases v@.len() - i,
    {
        r.push(v[i]);
        proof {
            assert(r@ =~= v@.subrange(0, i + 1));
        }
        i = i + 1;
    }
    proof {
        assert(v@.subrange(0, v@.len() as int) =~= v@);
    }
    r
}

pub struct ReactionSystem<H> {
    pub notification_handler: H,
    pub reactions_map: ComponentMap<Vec<Reaction>>,
}

impl<H: NotificationHandler> ReactionSystem<H> {
    /// The stored reactor lists, in iteration order.
    pub open spec fn lists(&self) -> Seq<(usize, Seq<Reaction>)> {
        pairs_deep(self.reactions_map.pairs())
    }

    pub open spec fn wf(&self) -> bool {
        &&& self.reactions_map.wf()
        &&& unique_keys(self.lists())
        &&& forall|i: int| 0 <= i < self.lists().len() ==> (#[trigger] self.lists()[i]).1.len() > 0
            && rlist_wf(self.lists()[i].1)
    }

    pub fn new(notification_handler: H) -> (r: Self)
        ensures
            r.wf(),
            r.lists() == Seq::<(usize, Seq<Reaction>)>::empty(),
    {
        let r = ReactionSystem { notification_handler, reactions_map: ComponentMap::new() };
        proof {
            assert(r.lists() =~= Seq::<(usize, Seq<Reaction>)>::empty());
        }
        r
    }

    pub fn get(&self, entity: &EntityId) -> (r: Option<&Vec<Reaction>>)
        requires
            self.wf(),
        ensures
            match r {
                Some(l) => self.reactions_map.m().dom().contains(entity.0) && *l
                    == self.reactions_map.m()[entity.0],
                None => !self.reactions_map.m().dom().contains(entity.0),
            },
    {
        self.reactions_map.get(entity.0)
    }

    /// Store the target's reaction list; an empty list is not stored.
    pub fn insert(&mut self, entity: EntityId, reactions: Vec<Reaction>)
        requires
            old(self).wf(),
            rlist_wf(reactions@),
        ensures
            final(self).wf(),
            final(self).lists() == if reactions@.len() == 0 {
                old(self).lists()
            } else {
                insert_key(old(self).lists(), entity.0, reactions@)
            },
    {
        if reactions.is_empty() {
            return ;
        }
        let ghost old_pairs = self.reactions_map.pairs();
        self.reactions_map.insert(entity.0, reactions);
        proof {
            lemma_pairs_deep_insert(old_pairs, entity.0, reactions);
            lemma_insert_key(old(self).lists(), entity.0, reactions@);
            assert forall|i: int| 0 <= i < self.lists().len()
                implies (#[trigger] self.lists()[i]).1.len() > 0
                    && rlist_wf(self.lists()[i].1) by {
                lemma_insert_key_entries(old(self).lists(), entity.0, reactions@, i);
                if self.lists()[i] != (entity.0, reactions@) {
                    let j = choose|j: int|
                        0 <= j < old(self).lists().len() && #[trigger] old(self).lists()[j]
                            == self.lists()[i];
                }
            }
        }
    }

    pub fn remove(&mut self, entity: &EntityId)
        requires
            old(self).wf(),
        ensures
            final(self).wf(),
            final(self).lists() == remove_key(old(self).lists(), entity.0),
    {
        let ghost old_pairs = self.reactions_map.pairs();
        self.reactions_map.remove(entity.0);
        proof {
            lemma_pairs_deep_remove(old_pairs, entity.0);
            lemma_remove_key(old(self).lists(), entity.0);
            assert forall|i: int| 0 <= i < self.lists().len()
                implies (#[trigger] self.lists()[i]).1.len() > 0
                    && rlist_wf(self.lists()[i].1) by {
                lemma_remove_key_entries(old(self).lists(), entity.0, i);
                let j = choose|j: int|
                    0 <= j < old(self).lists().len() && #[trigger] old(self).lists()[j]
                        == self.lists()[i];
            }
        }
    }

    /// A snapshot of the whole store, taken at the moment of an event
    /// broadcast: reactions added or removed during the broadcast must not
    /// affect it.
    pub fn snapshot(&self) -> (r: Vec<(usize, Vec<Reaction>)>)
        requires
            self.wf(),
        ensures
            pairs_deep(r@) == self.lists(),
    {
        let mut out: Vec<(usize, Vec<Reaction>)> = Vec::new();
        let n = self.reactions_map.len();
        let mut i: usize = 0;
        while i < n
            invariant
                self.wf(),
                n == self.reactions_map.pairs().len(),
                i <= n,
                pairs_deep(out@) == self.lists().subrange(0, i as int),
            decreases n - i,
        {
            let entry = self.reactions_map.entry_at(i);
            let cloned = clone_reactions(&entry.1);
            let key = entry.0;
            let ghost pre = out@;
            out.push((key, cloned));
            proof {
                assert(self.lists()[i as int] == (
                    self.reactions_map.pairs()[i as int].0,
                    self.reactions_map.pairs()[i as int].1@,
                ));
                assert(out@ == pre.push((key, cloned)));
                assert(pairs_deep(pre) == self.lists().subrange(0, i as int));
                assert(pairs_deep(pre).len() == pre.len());
                assert(self.lists().subrange(0, i as int).len() == i as int);
                assert(pre.len() == i as int);
                assert(pairs_deep(out@).len() == i + 1);
                assert((key, cloned@) == self.lists()[i as int]);
                assert forall|j: int| 0 <= j < i + 1 implies pairs_deep(out@)[j]
                    == self.lists().subrange(0, i + 1)[j] by {
                    if j < i {
                        assert(out@[j] == pre[j]);
                        assert(pairs_deep(out@)[j] == pairs_deep(pre)[j]);
                        assert(pairs_deep(pre)[j] == self.lists().subrange(0, i as int)[j]);
                    } else {
                        assert(out@[j] == (key, cloned));
                        assert(pairs_deep(out@)[j] == (key, cloned@));
                    }
                }
                assert(pairs_deep(out@) =~= self.lists().subrange(0, i + 1));
            }
            i = i + 1;
        }
        proof {
            assert(self.lists().subrange(0, n as int) =~= self.lists());
        }
        out
    }
}

} // verus!
