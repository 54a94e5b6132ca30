//! The set of identities that a filtered migration may move.

use crate::channel::Member;
use vstd::prelude::*;

verus! {

/// A finite set of member identities. A member belongs to it by identity
/// alone, whatever else was known of the member when the set was built.
pub struct FilterSet {
    ids: Vec<u64>,
}

impl View for FilterSet {
    type V = Set<u64>;

    closed spec fn view(&self) -> Set<u64> {
        self.ids@.to_set()
    }
}

/// The identities of `members`, as a set.
pub open spec fn identities(members: Seq<Member>) -> Set<u64> {
    Set::new(|id: u64| exists|i: int| 0 <= i < members.len() && members[i].id == id)
}

impl FilterSet {
    /// No identity is stored twice, so the number of stored identities is
    /// the size of the set.
    #[verifier::type_invariant]
    spec fn distinct(&self) -> bool {
        self.ids@.no_duplicates()
    }

    /// Every filter set is finite.
    pub proof fn lemma_finite(&self)
        ensures
            self@.finite(),
    {
        vstd::seq_lib::seq_to_set_is_finite(self.ids@);
    }

    /// The empty set.
    pub fn new() -> (filter: FilterSet)
        ensures
            filter@ == Set::<u64>::empty(),
    {
        let filter = FilterSet { ids: Vec::new() };
        assert(filter.ids@.to_set() =~= Set::<u64>::empty());
        filter
    }

    /// Whether `id` is in the set.
    pub fn contains(&self, id: u64) -> (found: bool)
        ensures
            found == self@.contains(id),
    {
        let mut i: usize = 0;
        while i < self.ids.len()
            invariant
                i <= self.ids.len(),
                forall|j: int| 0 <= j < i ==> self.ids@[j] != id,
            decreases self.ids.len() - i,
        {
            if self.ids[i] == id {
                return true;
            }
            i += 1;
        }
        false
    }

    /// Adds `id` to the set. Returns whether the set grew, that is, whether
    /// `id` was not in it before.
    pub fn insert(&mut self, id: u64) -> (added: bool)
        ensures
            final(self)@ == old(self)@.insert(id),
            added == !old(self)@.contains(id),
    {
        proof {
            use_type_invariant(&*self);
        }
        if self.contains(id) {
            assert(self@.insert(id) =~= self@);
            false
        } else {
            proof {
                self.ids@.lemma_push_to_set_commute(id);
            }
            let mut ids: Vec<u64> = Vec::new();
            std::mem::swap(&mut ids, &mut self.ids);
            ids.push(id);
            self.ids = ids;
            true
        }
    }

    /// The number of identities in the set.
    pub fn len(&self) -> (n: usize)
        ensures
            n == self@.len(),
    {
        proof {
            use_type_invariant(self);
            self.ids@.unique_seq_to_set();
        }
        self.ids.len()
    }

    /// Whether the set holds no identity.
    pub fn is_empty(&self) -> (empty: bool)
        ensures
            empty == (self@.len() == 0),
    {
        self.len() == 0
    }

    /// The set of the identities of `members`. A member listed twice counts
    /// once.
    pub fn from_members(members: &Vec<Member>) -> (filter: FilterSet)
        ensures
            filter@ == identities(members@),
    {
        let mut filter = FilterSet::new();
        let mut i: usize = 0;
        while i < members.len()
            invariant
                i <= members.len(),
                filter@ == identities(members@.take(i as int)),
            decreases members.len() - i,
        {
            let id = members[i].id;
            filter.insert(id);
            proof {
                let before = members@.take(i as int);
                let after = members@.take(i + 1);
                assert(after =~= before.push(members@[i as int]));
                assert forall|x: u64| identities(after).contains(x) <==> identities(before).insert(
                    id,
                ).contains(x) by {
                    if identities(after).contains(x) {
                        let k = choose|k: int| 0 <= k < after.len() && after[k].id == x;
                        if k < i {
                            assert(before[k].id == x);
                        }
                    }
                    if identities(before).contains(x) {
                        let k = choose|k: int| 0 <= k < before.len() && before[k].id == x;
                        assert(after[k].id == x);
                    }
                    if x == id {
                        assert(after[i as int].id == x);
                    }
                }
                assert(identities(after) =~= identities(before).insert(id));
            }
            i += 1;
        }
        assert(members@.take(members.len() as int) =~= members@);
        filter
    }
}

} // verus!
