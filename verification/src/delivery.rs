//! What is counted when records are handed over and written, and how long a
//! shutdown waits for the last of them.

use vstd::prelude::*;

verus! {

/// The counters of the audit trail.
#[derive(Debug, Clone, Copy, PartialEq, Eq, Structural)]
pub enum Counter {
    /// Records offered to the sink.
    Events,
    /// Records lost to a full buffer.
    EventsDropped,
    /// Records that the sink failed to write.
    SinkWriteErrors,
}

impl Counter {
    /// The name under which the counter is published.
    pub open spec fn published_name(self) -> Seq<char> {
        match self {
            Counter::Events => "mcpg_audit_events_total"@,
            Counter::EventsDropped => "mcpg_audit_events_dropped_total"@,
            Counter::SinkWriteErrors => "mcpg_audit_sink_write_errors_total"@,
        }
    }

    /// The name under which the counter is published.
    pub fn name(&self) -> (name: &'static str)
        ensures
            name@ == self.published_name(),
    {
        match self {
            Counter::Events => "mcpg_audit_events_total",
            Counter::EventsDropped => "mcpg_audit_events_dropped_total",
            Counter::SinkWriteErrors => "mcpg_audit_sink_write_errors_total",
        }
    }
}

/// What an offer of a record to the buffer adds one to. A record that the
/// buffer has no room for is dropped; it is counted as offered all the same.
pub open spec fn offer_counts(accepted: bool) -> Seq<Counter> {
    if accepted {
        seq![Counter::Events]
    } else {
        seq![Counter::EventsDropped, Counter::Events]
    }
}

/// The counters to raise after a record was offered to the buffer.
pub fn counters_after_offer(accepted: bool) -> (counters: Vec<Counter>)
    ensures
        counters@ == offer_counts(accepted),
{
    let mut counters: Vec<Counter> = Vec::new();
    if !accepted {
        counters.push(Counter::EventsDropped);
    }
    counters.push(Counter::Events);
    assert(counters@ =~= offer_counts(accepted));
    counters
}

/// What handing a record to the sink adds one to, if to anything.
pub open spec fn write_counts(written: bool) -> Option<Counter> {
    if written {
        None
    } else {
        Some(Counter::SinkWriteErrors)
    }
}

/// The counter to raise after the sink was handed a record, if any.
pub fn counter_after_write(written: bool) -> (counter: Option<Counter>)
    ensures
        counter == write_counts(written),
{
    if written {
        None
    } else {
        Some(Counter::SinkWriteErrors)
    }
}

/// What a counter stands at after a series of offers.
pub open spec fn tally(offers: Seq<bool>, counter: Counter) -> int
    decreases offers.len(),
{
    if offers.len() == 0 {
        0
    } else {
        tally(offers.drop_last(), counter) + if offer_counts(offers.last()).contains(counter) {
            1int
        } else {
            0int
        }
    }
}

/// What a counter stands at after a series of writes.
pub open spec fn write_tally(writes: Seq<bool>, counter: Counter) -> int
    decreases writes.len(),
{
    if writes.len() == 0 {
        0
    } else {
        write_tally(writes.drop_last(), counter) + if write_counts(writes.last()) == Some(counter) {
            1int
        } else {
            0int
        }
    }
}

/// How many of a series of offers or writes failed.
pub open spec fn failures(outcomes: Seq<bool>) -> int
    decreases outcomes.len(),
{
    if outcomes.len() == 0 {
        0
    } else {
        failures(outcomes.drop_last()) + if outcomes.last() {
            0int
        } else {
            1int
        }
    }
}

/// Every offer is counted, and every refused one is counted as dropped too.
/// Offers count as nothing else.
pub proof fn offers_are_all_counted(offers: Seq<bool>)
    ensures
        tally(offers, Counter::Events) == offers.len(),
        tally(offers, Counter::EventsDropped) == failures(offers),
        tally(offers, Counter::SinkWriteErrors) == 0,
    decreases offers.len(),
{
    if offers.len() > 0 {
        offers_are_all_counted(offers.drop_last());
        let counts = offer_counts(offers.last());
        if offers.last() {
            assert(counts[0] == Counter::Events);
        } else {
            assert(counts[0] == Counter::EventsDropped);
            assert(counts[1] == Counter::Events);
        }
    }
}

/// No counter is raised twice for one offer.
pub proof fn offers_are_counted_once(accepted: bool, i: int, j: int)
    requires
        0 <= i < j < offer_counts(accepted).len(),
    ensures
        offer_counts(accepted)[i] != offer_counts(accepted)[j],
{
}

/// Every failed write is counted as an error of the sink, and a write counts as
/// nothing else.
pub proof fn failed_writes_are_all_counted(writes: Seq<bool>)
    ensures
        write_tally(writes, Counter::SinkWriteErrors) == failures(writes),
        write_tally(writes, Counter::Events) == 0,
        write_tally(writes, Counter::EventsDropped) == 0,
    decreases writes.len(),
{
    if writes.len() > 0 {
        failed_writes_are_all_counted(writes.drop_last());
    }
}

/// The longest that a shutdown waits for the writer, in milliseconds.
pub const DRAIN_LIMIT_MS: u64 = 1000;

/// How long a shutdown waits at most before it looks again, in milliseconds.
pub const DRAIN_POLL_MS: u64 = 10;

/// What a shutdown does next.
#[derive(Debug, Clone, Copy, PartialEq, Eq, Structural)]
pub enum DrainStep {
    /// Wait for so many milliseconds, then look again.
    Wait { ms: u64 },
    /// Stop waiting.
    Done,
}

/// Whether a shutdown waits on, given whether the writer is through and how
/// long the shutdown has waited so far. No wait goes beyond the limit.
pub fn drain_step(writer_finished: bool, waited_ms: u64) -> (step: DrainStep)
    ensures
        step is Wait <==> !writer_finished && waited_ms < DRAIN_LIMIT_MS,
        step matches DrainStep::Wait { ms } ==> ms == if waited_ms + DRAIN_POLL_MS
            <= DRAIN_LIMIT_MS {
            DRAIN_POLL_MS as int
        } else {
            DRAIN_LIMIT_MS - waited_ms
        },
        step matches DrainStep::Wait { ms } ==> 0 < ms && waited_ms + ms <= DRAIN_LIMIT_MS,
{
    if writer_finished || waited_ms >= DRAIN_LIMIT_MS {
        DrainStep::Done
    } else if DRAIN_LIMIT_MS - waited_ms >= DRAIN_POLL_MS {
        DrainStep::Wait { ms: DRAIN_POLL_MS }
    } else {
        DrainStep::Wait { ms: DRAIN_LIMIT_MS - waited_ms }
    }
}

} // verus!
