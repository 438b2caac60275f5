use vstd::prelude::*;

verus! {

/// Live throughput counters: `sent` is incremented by dispatch workers;
/// `received` and `timed_out` by the collaborating receiver. All three only
/// ever grow, and none is coupled to any other state, so a reporting path may
/// read them at any time.
#[derive(Clone, Copy, Debug, PartialEq, Eq, Structural)]
pub struct Counters {
    pub sent: u64,
    pub received: u64,
    pub timed_out: u64,
}

/// One counter event, named by the counter it bumps.
#[derive(Clone, Copy, Debug, PartialEq, Eq, Structural)]
pub enum CounterOp {
    Sent,
    Received,
    TimedOut,
}

/// The value of the `sent` counter after a sequence of counter events has
/// been applied, in order, starting from `start`: each `Sent` event adds one,
/// every other event leaves it alone.
pub open spec fn sent_after(start: int, ops: Seq<CounterOp>) -> int
    decreases ops.len(),
{
    if ops.len() == 0 {
        start
    } else {
        sent_after(
            if ops[0] is Sent {
                start + 1
            } else {
                start
            },
            ops.drop_first(),
        )
    }
}

/// How many of the events bump the `sent` counter.
pub open spec fn sent_count(ops: Seq<CounterOp>) -> int
    decreases ops.len(),
{
    if ops.len() == 0 {
        0
    } else {
        (if ops[0] is Sent {
            1int
        } else {
            0int
        }) + sent_count(ops.drop_first())
    }
}

/// However `k` increments of the `sent` counter are interleaved with any
/// other counter events, the counter ends at exactly its start plus `k`: the
/// order of events never changes the total.
pub proof fn lemma_sent_after_counts(start: int, ops: Seq<CounterOp>)
    ensures
        sent_after(start, ops) == start + sent_count(ops),
    decreases ops.len(),
{
    if ops.len() == 0 {
    } else {
        let first = if ops[0] is Sent {
            start + 1
        } else {
            start
        };
        lemma_sent_after_counts(first, ops.drop_first());
    }
}

impl Counters {
    /// All counters at zero.
    pub fn new() -> (c: Counters)
        ensures
            c == (Counters { sent: 0, received: 0, timed_out: 0 }),
    {
        Counters { sent: 0, received: 0, timed_out: 0 }
    }

    /// Bump the `sent` counter by one; nothing else moves.
    pub fn increment_sent(&mut self)
        requires
            old(self).sent < u64::MAX,
        ensures
            *final(self) == (Counters { sent: (old(self).sent + 1) as u64, ..*old(self) }),
    {
        self.sent = self.sent + 1;
    }

    /// Bump the `received` counter by one; nothing else moves.
    pub fn increment_received(&mut self)
        requires
            old(self).received < u64::MAX,
        ensures
            *final(self) == (Counters { received: (old(self).received + 1) as u64, ..*old(self) }),
    {
        self.received = self.received + 1;
    }

    /// Bump the `timed_out` counter by one; nothing else moves.
    pub fn increment_timed_out(&mut self)
        requires
            old(self).timed_out < u64::MAX,
        ensures
            *final(self) == (Counters { timed_out: (old(self).timed_out + 1) as u64, ..*old(self) }),
    {
        self.timed_out = self.timed_out + 1;
    }
}

} // verus!
