use vstd::prelude::*;

verus! {

/// Process-unique widget identifier.
pub type Id = usize;

/// Hands out identifiers in increasing order, never the same one twice.
pub struct IdRegistry {
    counter: usize,
}

impl IdRegistry {
    /// The identifier that the next call of `next` returns.
    pub closed spec fn upcoming(&self) -> nat {
        self.counter as nat
    }

    /// Every identifier handed out so far.
    pub open spec fn issued(&self) -> Set<Id> {
        Set::new(|i: Id| (i as nat) < self.upcoming())
    }

    pub fn new() -> (r: IdRegistry)
        ensures
            r.upcoming() == 0,
            r.issued() == Set::<Id>::empty(),
    {
        let r = IdRegistry { counter: 0 };
        assert(r.issued() =~= Set::<Id>::empty());
        r
    }

    /// Whether another identifier can be handed out.
    pub fn can_issue(&self) -> (r: bool)
        ensures
            r == (self.upcoming() < usize::MAX),
    {
        self.counter < usize::MAX
    }

    /// Takes the next identifier.
    pub fn next(&mut self) -> (r: Id)
        requires
            old(self).upcoming() < usize::MAX,
        ensures
            r as nat == old(self).upcoming(),
            final(self).upcoming() == old(self).upcoming() + 1,
            !old(self).issued().contains(r),
            final(self).issued() == old(self).issued().insert(r),
    {
        let r = self.counter;
        self.counter = self.counter + 1;
        assert(self.issued() =~= old(self).issued().insert(r));
        r
    }
}

/// Identifiers taken one after another from one registry are pairwise
/// distinct: `states[k]` is the registry before the `k`-th call and
/// `ids[k]` what that call returned.
pub proof fn lemma_ids_distinct(states: Seq<IdRegistry>, ids: Seq<Id>)
    requires
        states.len() == ids.len() + 1,
        forall|k: int| 0 <= k < ids.len() ==> ids[k] as nat == #[trigger] states[k].upcoming(),
        forall|k: int|
            0 <= k < ids.len() ==> #[trigger] states[k + 1].upcoming() == states[k].upcoming() + 1,
    ensures
        forall|a: int, b: int| 0 <= a < b < ids.len() ==> ids[a] != ids[b],
{
    assert forall|a: int, b: int| 0 <= a < b < ids.len() implies ids[a] != ids[b] by {
        lemma_step(states, ids, a, b);
        assert(ids[a] as nat == states[a].upcoming());
        assert(ids[b] as nat == states[b].upcoming());
    }
}

proof fn lemma_step(states: Seq<IdRegistry>, ids: Seq<Id>, a: int, k: int)
    requires
        states.len() == ids.len() + 1,
        forall|k: int|
            0 <= k < ids.len() ==> #[trigger] states[k + 1].upcoming() == states[k].upcoming() + 1,
        0 <= a <= k < states.len(),
    ensures
        states[k].upcoming() == states[a].upcoming() + (k - a),
    decreases k - a,
{
    if k > a {
        lemma_step(states, ids, a, k - 1);
        assert(states[(k - 1) + 1].upcoming() == states[k - 1].upcoming() + 1);
    }
}

} // verus!
