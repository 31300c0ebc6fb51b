//! Identifiers that tell gates apart.

use vstd::prelude::*;

verus! {

/// The identity of a gate, handed out in increasing order by a
/// [`GateIdCounter`].
#[derive(Debug, Clone, Copy, PartialEq, Eq, Hash, Structural)]
pub struct GateId(u64);

/// The source of fresh gate identifiers: it holds the number that the next
/// identifier will carry, and steps it (wrapping, like an atomic
/// `fetch_add`) each time one is handed out.
#[derive(Debug)]
pub struct GateIdCounter {
    next: u64,
}

impl GateId {
    /// The number that this identifier carries.
    pub closed spec fn spec_value(&self) -> u64 {
        self.0
    }

    /// The number that this identifier carries.
    #[verifier::when_used_as_spec(spec_value)]
    pub fn value(&self) -> (v: u64)
        ensures
            v == self.spec_value(),
    {
        self.0
    }

    /// Identifiers that carry the same number are the same identifier.
    pub proof fn lemma_value_injective(a: GateId, b: GateId)
        ensures
            a.spec_value() == b.spec_value() <==> a == b,
    {
    }

    /// Hands out the counter's current number as an identifier and steps
    /// the counter on by one, wrapping at `u64::MAX`.
    pub fn next(counter: &mut GateIdCounter) -> (id: GateId)
        ensures
            id.spec_value() == old(counter).spec_next(),
            final(counter).spec_next() == (if old(counter).spec_next() == u64::MAX {
                0
            } else {
                (old(counter).spec_next() + 1) as u64
            }),
    {
        let id = GateId(counter.next);
        counter.next = counter.next.wrapping_add(1);
        id
    }
}

impl GateIdCounter {
    /// The number that the next identifier will carry.
    pub closed spec fn spec_next(self) -> u64 {
        self.next
    }

    /// A counter whose first identifier carries `0`.
    pub fn new() -> (counter: GateIdCounter)
        ensures
            counter.spec_next() == 0,
    {
        GateIdCounter { next: 0 }
    }

    /// The number that the next identifier will carry.
    pub fn peek(&self) -> (n: u64)
        ensures
            n == self.spec_next(),
    {
        self.next
    }
}

} // verus!
