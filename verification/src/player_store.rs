//! Which players changed since the last broadcast.
use vstd::prelude::*;

verus! {

/// The players of the server and, per player id, whether the player changed
/// since the changes were last taken.
pub struct PlayerStore {
    pub players: Vec<u8>,
    pub dirty: Vec<bool>,
}

/// The indices `i < n` whose flag is set, in increasing order.
pub open spec fn set_indices(flags: Seq<bool>, n: nat) -> Seq<usize>
    decreases n,
{
    if n == 0 {
        seq![]
    } else {
        set_indices(flags, (n - 1) as nat) + if flags[n - 1] {
            seq![(n - 1) as usize]
        } else {
            seq![]
        }
    }
}

impl PlayerStore {
    /// Marks player `id` as changed.
    pub fn set_dirty(&mut self, id: i32)
        requires
            0 <= id < old(self).dirty@.len(),
        ensures
            final(self).dirty@ == old(self).dirty@.update(id as int, true),
    {
        self.dirty.set(id as usize, true);
    }

    /// The ids of the players that changed, in increasing order; every
    /// player is unmarked.
    pub fn take_dirty(&mut self) -> (ids: Vec<usize>)
        ensures
            ids@ == set_indices(old(self).dirty@, old(self).dirty@.len()),
            final(self).dirty@ == Seq::new(old(self).dirty@.len(), |i: int| false),
    {
        let ghost before = self.dirty@;
        let mut ids: Vec<usize> = Vec::new();
        let mut i: usize = 0;
        while i < self.dirty.len()
            invariant
                i <= self.dirty@.len(),
                self.dirty@.len() == before.len(),
                ids@ == set_indices(before, i as nat),
                forall|k: int| 0 <= k < i ==> !#[trigger] self.dirty@[k],
                forall|k: int| i <= k < before.len() ==> #[trigger] self.dirty@[k] == before[k],
            decreases before.len() - i,
        {
            if self.dirty[i] {
                ids.push(i);
                self.dirty.set(i, false);
            }
            proof {
                assert(ids@ =~= set_indices(before, (i + 1) as nat));
            }
            i = i + 1;
        }
        assert(self.dirty@ =~= Seq::new(before.len(), |k: int| false));
        ids
    }
}

/// Taking the changes twice gives nothing the second time: each change is
/// reported once.
pub proof fn law_changes_taken_once(flags: Seq<bool>)
    ensures
        set_indices(Seq::new(flags.len(), |i: int| false), flags.len()).len() == 0,
{
    lemma_no_set_indices(Seq::new(flags.len(), |i: int| false), flags.len());
}

proof fn lemma_no_set_indices(flags: Seq<bool>, n: nat)
    requires
        n <= flags.len(),
        forall|i: int| 0 <= i < flags.len() ==> !#[trigger] flags[i],
    ensures
        set_indices(flags, n).len() == 0,
    decreases n,
{
    if n > 0 {
        lemma_no_set_indices(flags, (n - 1) as nat);
    }
}

} // verus!
