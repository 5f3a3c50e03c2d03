//! Handing records over, each of them once.

use crate::delivery::{counter_after_write, write_counts, Counter};
use crate::event::AuditEvent;
use vstd::prelude::*;

verus! {

/// The sign that a record was delivered. Only a delivery gives one.
pub struct Receipt {
    answers: Ghost<spec_fn(AuditEvent, Result<(), String>) -> bool>,
}

impl Receipt {
    /// What the sink that the record was delivered to may say to records.
    pub closed spec fn answers(self) -> spec_fn(AuditEvent, Result<(), String>) -> bool {
        self.answers@
    }
}

/// What comes of handing a record to a sink: what the sink says, and the
/// counter to raise, if any.
pub struct WriteReport {
    pub outcome: Result<(), String>,
    pub counter: Option<Counter>,
    pub receipt: Receipt,
}

/// A record on its way to a sink. It cannot be looked into on the way, and it
/// is used up when it is delivered.
pub struct Letter<'e> {
    event: &'e AuditEvent,
}

/// Hands a record to a sink, by a call of `emit`. Each of the three can be used
/// once only, so that there is one such call, and the outcome is its.
pub fn hand_over<A, B, O, F: FnOnce(A, B) -> O>(emit: F, sink: A, record: B) -> (outcome: O)
    requires
        call_requires(emit, (sink, record)),
    ensures
        call_ensures(emit, (sink, record), outcome),
{
    emit(sink, record)
}

impl<'e> Letter<'e> {
    /// The record on its way.
    pub closed spec fn content(self) -> AuditEvent {
        *self.event
    }

    /// Sends a record on its way.
    pub fn new(event: &'e AuditEvent) -> (letter: Letter<'e>)
        ensures
            letter.content() == *event,
    {
        Letter { event }
    }

    /// Delivers the record, by calling `emit` once. A failure is counted, and
    /// stops nothing. `emit` answers exactly as `answers` says.
    pub fn deliver<A, F: FnOnce(A, &'e AuditEvent) -> Result<(), String>>(
        self,
        emit: F,
        sink: A,
        answers: Ghost<spec_fn(AuditEvent, Result<(), String>) -> bool>,
    ) -> (report: WriteReport)
        requires
            forall|event: &'e AuditEvent| #[trigger] call_requires(emit, (sink, event)),
            forall|event: &'e AuditEvent, outcome: Result<(), String>|
                (#[trigger] call_ensures(emit, (sink, event), outcome)) <==> answers@(
                    *event,
                    outcome,
                ),
        ensures
            report.receipt.answers() == answers@,
            answers@(self.content(), report.outcome),
            report.counter == write_counts(report.outcome is Ok),
    {
        let outcome = hand_over(emit, sink, self.event);
        let written: bool = outcome.is_ok();
        WriteReport { outcome, counter: counter_after_write(written), receipt: Receipt { answers } }
    }
}

/// Something that a record is delivered to, and that is used up by that.
pub trait Recipient: Sized {
    /// What the recipient may say to records.
    spec fn answers(self) -> spec_fn(AuditEvent, Result<(), String>) -> bool;

    /// Has a record delivered.
    fn accept<'e>(self, letter: Letter<'e>) -> (report: WriteReport)
        ensures
            report.receipt.answers() == self.answers(),
            self.answers()(letter.content(), report.outcome),
            report.counter == write_counts(report.outcome is Ok),
    ;
}

/// Handing a record over gives it to the sink exactly once: where a sink keeps
/// a log, so that each call adds what it was given to the end of the log, the
/// log has grown by this one record, and holds what it held before.
pub proof fn logs_grow_by_one_record<A, B, O, F: FnOnce(A, B) -> O>(
    emit: F,
    sink: A,
    record: B,
    outcome: O,
    log: spec_fn(A) -> Seq<B>,
    log_after: spec_fn(O) -> Seq<B>,
)
    requires
        call_ensures(emit, (sink, record), outcome),
        forall|a: A, b: B, o: O| #[trigger]
            call_ensures(emit, (a, b), o) ==> log_after(o) == log(a).push(b),
    ensures
        log_after(outcome).len() == log(sink).len() + 1,
        log_after(outcome).drop_last() == log(sink),
        log_after(outcome).last() == record,
{
    assert(log(sink).push(record).drop_last() =~= log(sink));
}

} // verus!
