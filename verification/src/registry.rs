//! The fan-out side of the broker: one task owns the registry of all live
//! connections' write halves and broadcasts every response to each of them.
//! A write half whose connection has closed is removed from the registry at
//! that broadcast; other write failures are tolerated and change nothing.
//! The registry models each write half by an opaque handle; the caller,
//! which performs the actual writes, reports one outcome per handle.

use vstd::prelude::*;

verus! {

/// What one write of a broadcast to one connection came to.
#[derive(Clone, Copy, Debug, PartialEq, Eq, Structural)]
pub enum WriteOutcome {
    /// The message reached the connection.
    Delivered,
    /// The connection is closed; its write half must leave the registry.
    Closed,
    /// The write failed some other way; the connection stays registered.
    Failed,
}

/// The handles that survive a broadcast: everything but the closed ones, in
/// their registry order.
pub open spec fn spec_survivors(conns: Seq<u64>, outcomes: Seq<WriteOutcome>) -> Seq<u64>
    decreases conns.len(),
{
    if conns.len() == 0 {
        Seq::empty()
    } else {
        let front = spec_survivors(conns.drop_last(), outcomes.drop_last());
        if outcomes[conns.len() - 1] is Closed {
            front
        } else {
            front.push(conns.last())
        }
    }
}

/// The handles a broadcast actually reached, in their registry order.
pub open spec fn spec_delivered(conns: Seq<u64>, outcomes: Seq<WriteOutcome>) -> Seq<u64>
    decreases conns.len(),
{
    if conns.len() == 0 {
        Seq::empty()
    } else {
        let front = spec_delivered(conns.drop_last(), outcomes.drop_last());
        if outcomes[conns.len() - 1] is Delivered {
            front.push(conns.last())
        } else {
            front
        }
    }
}

/// The registry of live connections, owned exclusively by the fan-out task.
/// Each entry is an opaque handle standing for one connection's write half.
pub struct ConnRegistry {
    conns: Vec<u64>,
}

impl View for ConnRegistry {
    type V = Seq<u64>;

    closed spec fn view(&self) -> Seq<u64> {
        self.conns@
    }
}

impl ConnRegistry {
    /// An empty registry.
    pub fn new() -> (s: Self)
        ensures
            s@ == Seq::<u64>::empty(),
    {
        let s = ConnRegistry { conns: Vec::new() };
        proof {
            assert(s@ =~= Seq::<u64>::empty());
        }
        s
    }

    /// How many connections are registered.
    pub fn len(&self) -> (n: usize)
        ensures
            n == self@.len(),
    {
        self.conns.len()
    }

    /// The handle at one registry position.
    pub fn handle_at(&self, i: usize) -> (h: u64)
        requires
            i < self@.len(),
        ensures
            h == self@[i as int],
    {
        self.conns[i]
    }

    /// Register one accepted connection's write half.
    pub fn register(&mut self, conn: u64)
        ensures
            final(self)@ == old(self)@.push(conn),
    {
        self.conns.push(conn);
    }

    /// Settle one broadcast: given the outcome of writing the response to
    /// each registered connection, drop exactly the closed connections and
    /// report which connections received the message. Nothing else changes:
    /// one closed or failing connection never affects delivery to the rest.
    pub fn broadcast(&mut self, outcomes: &Vec<WriteOutcome>) -> (delivered: Vec<u64>)
        requires
            outcomes@.len() == old(self)@.len(),
        ensures
            final(self)@ == spec_survivors(old(self)@, outcomes@),
            delivered@ == spec_delivered(old(self)@, outcomes@),
    {
        let ghost conns0 = self.conns@;
        let mut kept: Vec<u64> = Vec::new();
        let mut delivered: Vec<u64> = Vec::new();
        let mut i: usize = 0;
        while i < self.conns.len()
            invariant
                i <= self.conns@.len(),
                self.conns@ == conns0,
                outcomes@.len() == conns0.len(),
                kept@ == spec_survivors(conns0.take(i as int), outcomes@.take(i as int)),
                delivered@ == spec_delivered(conns0.take(i as int), outcomes@.take(i as int)),
            decreases self.conns@.len() - i,
        {
            let conn = self.conns[i];
            match outcomes[i] {
                WriteOutcome::Delivered => {
                    kept.push(conn);
                    delivered.push(conn);
                },
                WriteOutcome::Closed => {},
                WriteOutcome::Failed => {
                    kept.push(conn);
                },
            }
            proof {
                assert(conns0.take(i + 1).drop_last() =~= conns0.take(i as int));
                assert(outcomes@.take(i + 1).drop_last() =~= outcomes@.take(i as int));
                assert(conns0.take(i + 1).last() == conns0[i as int]);
                assert(outcomes@.take(i + 1)[conns0.take(i + 1).len() - 1] == outcomes@[i as int]);
            }
            i = i + 1;
        }
        proof {
            assert(conns0.take(conns0.len() as int) =~= conns0);
            assert(outcomes@.take(outcomes@.len() as int) =~= outcomes@);
        }
        self.conns = kept;
        delivered
    }
}

/// The isolation law of the fan-out: broadcasting to a registry in which
/// exactly one connection's write half has closed removes that connection
/// and no other, and every one of the remaining connections receives the
/// message.
pub proof fn lemma_broadcast_one_closed(conns: Seq<u64>, outcomes: Seq<WriteOutcome>, c: int)
    requires
        outcomes.len() == conns.len(),
        0 <= c < conns.len(),
        outcomes[c] is Closed,
        forall|i: int| 0 <= i < outcomes.len() && i != c ==> (#[trigger] outcomes[i]) is Delivered,
    ensures
        spec_survivors(conns, outcomes) == conns.remove(c),
        spec_delivered(conns, outcomes) == conns.remove(c),
        spec_survivors(conns, outcomes).len() == conns.len() - 1,
    decreases conns.len(),
{
    let n = conns.len() as int;
    if c == n - 1 {
        lemma_all_delivered(conns.drop_last(), outcomes.drop_last());
        assert(conns.remove(c) =~= conns.drop_last());
    } else {
        lemma_broadcast_one_closed(conns.drop_last(), outcomes.drop_last(), c);
        assert(conns.drop_last().remove(c) =~= conns.remove(c).drop_last());
        assert(spec_survivors(conns, outcomes) =~= conns.remove(c));
        assert(spec_delivered(conns, outcomes) =~= conns.remove(c));
    }
}

/// When every write succeeds, the registry and the delivered set are the
/// whole registry, unchanged.
pub proof fn lemma_all_delivered(conns: Seq<u64>, outcomes: Seq<WriteOutcome>)
    requires
        outcomes.len() == conns.len(),
        forall|i: int| 0 <= i < outcomes.len() ==> (#[trigger] outcomes[i]) is Delivered,
    ensures
        spec_survivors(conns, outcomes) == conns,
        spec_delivered(conns, outcomes) == conns,
    decreases conns.len(),
{
    if conns.len() > 0 {
        lemma_all_delivered(conns.drop_last(), outcomes.drop_last());
        assert(spec_survivors(conns, outcomes) =~= conns);
        assert(spec_delivered(conns, outcomes) =~= conns);
    }
}

} // verus!
