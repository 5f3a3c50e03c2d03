//! Audit trail for a tool gateway: one structured record before and one after
//! every audited tool call, and never a call that is held up for it.

pub mod clock;
pub mod config;
pub mod delivery;
pub mod digest;
pub mod event;
pub mod handover;
pub mod identity;
pub mod json;
pub mod json_text;
pub mod plugin;
pub mod sinks;
pub mod summary;
pub mod text;
pub mod text_order;

pub use config::{AuditConfig, AuditSinkConfig};
pub use event::AuditEvent;
pub use identity::AuditIdentity;
pub use plugin::AuditPlugin;
pub use sinks::{AuditSink, FileSink, StdoutSink};
pub use summary::ResultSummary;
