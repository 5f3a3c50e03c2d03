//! Where records go.

use crate::config::{AuditSinkConfig, SinkModel};
use crate::delivery::{write_counts, Counter};
use crate::event::AuditEvent;
use crate::handover::{Letter, Recipient};
use vstd::prelude::*;

pub use crate::handover::WriteReport;

verus! {

/// A place that records are written to. Writing may block, and may fail for
/// reasons that only the sink knows.
pub trait AuditSink: Send + Sync {
    /// Writes one record, or says why it could not.
    fn emit(&self, event: &AuditEvent) -> Result<(), String>;
}

impl<'a, S: AuditSink> Recipient for &'a S {
    open spec fn answers(self) -> spec_fn(AuditEvent, Result<(), String>) -> bool {
        |event: AuditEvent, outcome: Result<(), String>|
            call_ensures(S::emit, (self, &event), outcome)
    }

    fn accept<'e>(self, letter: Letter<'e>) -> (report: WriteReport) {
        letter.deliver(S::emit, self, Ghost(self.answers()))
    }
}

/// Hands a record to a sink, once. A failure is counted, and stops nothing.
pub fn write_record<T: Recipient>(sink: T, event: &AuditEvent) -> (report: WriteReport)
    ensures
        report.receipt.answers() == sink.answers(),
        sink.answers()(*event, report.outcome),
        report.counter == write_counts(report.outcome is Ok),
{
    sink.accept(Letter::new(event))
}

/// Writes records as JSON lines to the standard output.
pub struct StdoutSink;

/// Writes records as JSON lines at the end of a file, which is opened anew
/// for each record.
pub struct FileSink {
    path: String,
}

impl FileSink {
    /// The path of the file.
    pub closed spec fn file(self) -> Seq<char> {
        self.path@
    }

    /// A sink that writes to a file.
    pub fn new(path: String) -> (sink: FileSink)
        ensures
            sink.file() == path@,
    {
        FileSink { path }
    }

    /// The path of the file.
    pub fn path(&self) -> (path: &str)
        ensures
            path@ == self.file(),
    {
        self.path.as_str()
    }
}

/// A sink of one of the kinds.
pub enum Sink {
    Stdout(StdoutSink),
    File(FileSink),
}

impl Sink {
    /// What the sink is.
    pub open spec fn model(self) -> SinkModel {
        match self {
            Sink::Stdout(_) => SinkModel::Stdout,
            Sink::File(sink) => SinkModel::File(sink.file()),
        }
    }

    /// The sink that a configuration asks for.
    pub fn from_config(config: &AuditSinkConfig) -> (sink: Sink)
        ensures
            sink.model() == config@,
    {
        match config {
            AuditSinkConfig::Stdout => Sink::Stdout(StdoutSink),
            AuditSinkConfig::File { path } => Sink::File(FileSink::new(path.clone())),
        }
    }
}

/// The line that a sink writes for a record in JSON.
pub fn record_line(json: &str) -> (line: String)
    ensures
        line@ == json@ + seq!['\n'],
{
    let mut line: String = json.to_owned();
    line.append("\n");
    proof {
        reveal_strlit("\n");
    }
    line
}

/// Why a sink did not write a record, with the cause in words.
#[derive(Debug, Clone, PartialEq, Eq)]
pub enum SinkError {
    /// The record has no JSON form.
    Serialize { cause: String },
    /// The standard output took no more.
    WriteStdout { cause: String },
    /// The file could not be opened.
    OpenFile { path: String, cause: String },
    /// The file took no more.
    WriteFile { cause: String },
}

impl SinkError {
    /// What is reported of the failure.
    pub open spec fn text(self) -> Seq<char> {
        match self {
            SinkError::Serialize { cause } => "failed to serialize audit event: "@ + cause@,
            SinkError::WriteStdout { cause } => "failed to write to stdout: "@ + cause@,
            SinkError::OpenFile { path, cause } => "failed to open audit file '"@ + path@ + "': "@
                + cause@,
            SinkError::WriteFile { cause } => "failed to write to audit file: "@ + cause@,
        }
    }

    /// The report of the failure.
    pub fn message(&self) -> (text: String)
        ensures
            text@ == self.text(),
    {
        match self {
            SinkError::Serialize { cause } => {
                let mut text: String = "failed to serialize audit event: ".to_owned();
                text.append(cause.as_str());
                text
            },
            SinkError::WriteStdout { cause } => {
                let mut text: String = "failed to write to stdout: ".to_owned();
                text.append(cause.as_str());
                text
            },
            SinkError::OpenFile { path, cause } => {
                let mut text: String = "failed to open audit file '".to_owned();
                text.append(path.as_str());
                text.append("': ");
                text.append(cause.as_str());
                text
            },
            SinkError::WriteFile { cause } => {
                let mut text: String = "failed to write to audit file: ".to_owned();
                text.append(cause.as_str());
                text
            },
        }
    }
}

/// The sink of a configuration is the one that it asks for: the standard
/// output, or the file at its path.
pub proof fn sinks_are_those_configured(sink: Sink, config: AuditSinkConfig)
    requires
        sink.model() == config@,
    ensures
        config is Stdout <==> sink is Stdout,
        config matches AuditSinkConfig::File { path } ==> sink matches Sink::File(to)
            && to.file() == path@,
{
}

/// The report of a failure says what failed, and ends with its cause, in full.
pub proof fn failures_name_their_cause(error: SinkError)
    ensures
        error matches SinkError::Serialize { cause } ==> error.text()
            == "failed to serialize audit event: "@ + cause@,
        error matches SinkError::WriteStdout { cause } ==> error.text()
            == "failed to write to stdout: "@ + cause@,
        error matches SinkError::OpenFile { path, cause } ==> error.text()
            == "failed to open audit file '"@ + path@ + "': "@ + cause@,
        error matches SinkError::WriteFile { cause } ==> error.text()
            == "failed to write to audit file: "@ + cause@,
{
}

/// What is reported of a write is what the sink said to that record, and a
/// failure is counted exactly where the sink said that it failed.
pub proof fn reports_tell_what_the_sink_said<S: AuditSink>(
    sink: &S,
    event: AuditEvent,
    report: WriteReport,
)
    requires
        sink.answers()(event, report.outcome),
        report.counter == write_counts(report.outcome is Ok),
    ensures
        call_ensures(S::emit, (sink, &event), report.outcome),
        report.outcome is Err <==> report.counter == Some(Counter::SinkWriteErrors),
        report.outcome is Ok <==> report.counter is None,
{
}

} // verus!
