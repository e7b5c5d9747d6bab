//! Entity identifiers and the monotonic id allocator.
//!
//! Every entity class (window, workspace, monitor) draws its ids from its own
//! [`IdGenerator`].  Ids start at 1 (0 is reserved as a sentinel for "no id"),
//! are strictly increasing and are never reissued.

use vstd::prelude::*;

verus! {

/// An opaque unsigned identifier, unique within its entity class.
pub type Id = u64;

/// Monotonic unique-id allocator.  Starts at 1 and never reissues a value.
#[derive(Debug)]
pub struct IdGenerator {
    next_id: Id,
}

impl IdGenerator {
    /// The counter value the next call of `next_id` will return.
    pub closed spec fn spec_next_id(self) -> Id {
        self.next_id
    }

    /// A freshly constructed generator hands out ids from 1 upwards.
    pub open spec fn wf(self) -> bool {
        self.spec_next_id() >= 1
    }

    pub fn new() -> (r: IdGenerator)
        ensures
            r.spec_next_id() == 1,
            r.wf(),
    {
        IdGenerator { next_id: 1 }
    }

    /// Returns the current counter value and advances the counter by one.
    pub fn next_id(&mut self) -> (id: Id)
        requires
            old(self).spec_next_id() < Id::MAX,
        ensures
            id == old(self).spec_next_id(),
            final(self).spec_next_id() == old(self).spec_next_id() + 1,
            old(self).wf() ==> final(self).wf() && id >= 1,
    {
        let id = self.next_id;
        self.next_id = id + 1;
        id
    }
}

/// The sequence of ids a generator whose counter stands at `c` hands out over
/// `n` successive calls of `next_id`: each call returns the counter and
/// advances it by one.
pub open spec fn ids_issued(c: Id, n: nat) -> Seq<Id>
    decreases n,
{
    if n == 0 {
        Seq::empty()
    } else {
        seq![c] + ids_issued((c + 1) as Id, (n - 1) as nat)
    }
}

/// Law: `n` successive calls of `next_id` on a generator whose counter stands
/// at `c` yield the values `c, c + 1, ..., c + n - 1`, so for a fresh
/// generator (`c == 1`) they are `n` distinct, strictly increasing values
/// starting at 1.
pub proof fn lemma_ids_issued(c: Id, n: nat)
    requires
        c + n <= Id::MAX + 1,
    ensures
        ids_issued(c, n).len() == n,
        forall|k: int| 0 <= k < n ==> ids_issued(c, n)[k] == c + k,
        forall|k1: int, k2: int|
            0 <= k1 < k2 < n ==> ids_issued(c, n)[k1] < ids_issued(c, n)[k2],
        forall|k1: int, k2: int|
            0 <= k1 < n && 0 <= k2 < n && k1 != k2
                ==> ids_issued(c, n)[k1] != ids_issued(c, n)[k2],
        c == 1 && n > 0 ==> ids_issued(c, n)[0] == 1,
    decreases n,
{
    if n > 0 {
        lemma_ids_issued((c + 1) as Id, (n - 1) as nat);
    }
}

} // verus!
