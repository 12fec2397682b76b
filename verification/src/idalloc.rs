//! Allocation of JSON-RPC request ids.
//!
//! Every outbound request carries an id that is unique for the lifetime of
//! the session; responses are correlated to requests by that id.  The
//! allocator hands out consecutive integers starting at 1 and never reuses
//! one.

use vstd::prelude::*;

verus! {

/// Produces the ids for outbound requests: a monotonically increasing
/// counter starting at 1, owned by the session.
pub struct RequestIdAllocator {
    next: i64,
}

impl RequestIdAllocator {
    /// The id the next call to `next_id` will return.
    pub closed spec fn next_spec(&self) -> int {
        self.next as int
    }

    /// All ids handed out so far lie strictly below `next_spec`, and every
    /// future id lies at or above it; 1 is the first id ever produced.
    pub closed spec fn wf(&self) -> bool {
        1 <= self.next
    }

    /// The id the next allocation will return, without allocating it:
    /// lets a caller test the counter's headroom.
    pub fn peek(&self) -> (r: i64)
        ensures
            r as int == self.next_spec(),
    {
        self.next
    }

    pub fn new() -> (r: RequestIdAllocator)
        ensures
            r.wf(),
            r.next_spec() == 1,
    {
        RequestIdAllocator { next: 1 }
    }

    /// Hand out the next id.  The result is exactly the allocator's current
    /// counter, and the counter moves one past it, so no two calls can ever
    /// return the same id.
    pub fn next_id(&mut self) -> (id: i64)
        requires
            old(self).wf(),
            old(self).next_spec() < i64::MAX,
        ensures
            final(self).wf(),
            id == old(self).next_spec(),
            final(self).next_spec() == old(self).next_spec() + 1,
            1 <= id,
    {
        let id = self.next;
        self.next = self.next + 1;
        id
    }
}

/// The sequence of ids that `n` successive allocations starting from counter
/// value `start` will return: `start, start + 1, ...`.
pub open spec fn allocated_ids(start: int, n: nat) -> Seq<int> {
    Seq::new(n, |i: int| start + i)
}

/// Ids from one allocator are pairwise distinct and strictly increasing: for
/// `n` sequential allocations, the id of an earlier allocation is strictly
/// below the id of every later one.
pub proof fn lemma_allocated_ids_unique(start: int, n: nat)
    ensures
        forall|i: int, j: int|
            0 <= i < j < n ==> #[trigger] allocated_ids(start, n)[i] < #[trigger] allocated_ids(
                start,
                n,
            )[j],
        forall|i: int, j: int|
            0 <= i < n && 0 <= j < n && i != j ==> #[trigger] allocated_ids(start, n)[i]
                != #[trigger] allocated_ids(start, n)[j],
{
}

} // verus!
