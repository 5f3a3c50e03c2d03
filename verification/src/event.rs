//! Audit records.

use crate::config::AuditConfig;
use crate::digest::{digest_payload, payload_digest, sha256};
use crate::identity::{AuditIdentity, PluginContext};
use crate::json::{entry_of, last_entry_counts, later_entries_count, Json, JsonModel};
use crate::json_text::written_text;
use crate::summary::{summarize, ResultSummary};
use crate::text::{hex_text, is_hex_digit};
use vstd::prelude::*;
use vstd::utf8::encode_utf8;

verus! {

/// One record of the audit trail.
#[derive(Debug, Clone)]
pub struct AuditEvent {
    pub version: &'static str,
    pub timestamp: String,
    pub event_id: String,
    pub phase: &'static str,
    pub request_id: String,
    pub session_id: Option<String>,
    pub tool_name: String,
    pub surface: String,
    pub identity: AuditIdentity,
    pub transport: String,
    pub arguments_hash: Option<String>,
    pub arguments: Option<Json>,
    pub execution_duration_ms: Option<u64>,
    pub result_summary: Option<ResultSummary>,
    pub result: Option<Json>,
    pub meta: Option<Json>,
    pub gate_decision: &'static str,
    pub sequence: u64,
}

/// Whether `digest` is the digest of what the redactor makes of a payload.
pub open spec fn is_redacted_digest<R: Fn(&Json) -> Json>(
    redact: R,
    payload: Json,
    digest: Seq<char>,
) -> bool {
    exists|redacted: Json| #[trigger]
        call_ensures(redact, (&payload,), redacted) && digest == payload_digest(redacted@)
}

/// Digests what the redactor makes of a payload.
pub fn redacted_digest<R: Fn(&Json) -> Json>(payload: &Json, redact: &R) -> (digest: String)
    requires
        forall|raw: &Json| #[trigger] call_requires(*redact, (raw,)),
    ensures
        is_redacted_digest(*redact, *payload, digest@),
        digest@.len() == 71,
{
    let redacted = redact(payload);
    digest_payload(&redacted)
}

/// Whether a text is a UUID of version 7 in its usual form: 36 characters,
/// hyphens at four fixed places and lower-case hexadecimal digits elsewhere.
pub open spec fn is_event_id(text: Seq<char>) -> bool {
    &&& text.len() == 36
    &&& forall|i: int|
        0 <= i < 36 ==> if i == 8 || i == 13 || i == 18 || i == 23 {
            #[trigger] text[i] == '-'
        } else {
            is_hex_digit(text[i])
        }
    &&& text[14] == '7'
    &&& (text[19] == '8' || text[19] == '9' || text[19] == 'a' || text[19] == 'b')
}

/// `uuid::Uuid::now_v7` makes a UUID of version 7 out of the current time and
/// random bits; `to_string` writes it in hyphenated lower-case form. That no
/// two are the same rests on chance and is not claimed. The call panics where
/// the system clock stands before 1970 or the system has no random bits to
/// give.
#[verifier::external_body]
pub(crate) fn new_event_id() -> (id: String)
    ensures
        is_event_id(id@),
{
    uuid::Uuid::now_v7().to_string()
}

/// Whether a text was made as the identifier of a record.
pub closed spec fn is_made_event_id(text: Seq<char>) -> bool {
    exists|id: String| #[trigger] call_ensures(new_event_id, (), id) && id@ == text
}

/// Makes the identifier of a record.
pub(crate) fn make_event_id() -> (id: String)
    ensures
        is_made_event_id(id@),
        is_event_id(id@),
{
    new_event_id()
}

/// An identifier that was made for a record came from the maker of UUIDs, and
/// is a UUID of version 7.
pub(crate) proof fn made_event_ids_are_drawn(text: Seq<char>)
    requires
        is_made_event_id(text),
    ensures
        exists|id: String| #[trigger] call_ensures(new_event_id, (), id) && id@ == text,
        is_event_id(text),
{
}

/// What a result says under `_meta.audit`.
pub open spec fn audit_meta(result: JsonModel) -> Option<JsonModel> {
    match result.member("_meta"@) {
        Some(meta) => meta.member("audit"@),
        None => None,
    }
}

impl AuditEvent {
    /// Whether the record is about a tool call, in a phase, under a given
    /// timestamp, identifier and sequence number.
    pub open spec fn is_about(
        self,
        ctx: PluginContext,
        phase: Seq<char>,
        timestamp: Seq<char>,
        event_id: Seq<char>,
        sequence: u64,
    ) -> bool {
        &&& self.version@ == "1.0"@
        &&& self.gate_decision@ == "allow"@
        &&& self.phase@ == phase
        &&& self.timestamp@ == timestamp
        &&& self.event_id@ == event_id
        &&& self.sequence == sequence
        &&& self.request_id == ctx.request_id
        &&& self.session_id == ctx.session_id
        &&& self.tool_name == ctx.tool_name
        &&& self.surface == ctx.surface
        &&& self.identity.names(ctx.identity)
        &&& self.transport == ctx.transport
    }

    /// Whether the record holds of the arguments what the configuration asks
    /// for: their digest, themselves, both or neither, always redacted.
    pub open spec fn holds_arguments<R: Fn(&Json) -> Json>(
        self,
        config: AuditConfig,
        arguments: Json,
        redact: R,
    ) -> bool {
        &&& match self.arguments_hash {
            Some(digest) => config.include_arguments_hash && is_redacted_digest(
                redact,
                arguments,
                digest@,
            ),
            None => !config.include_arguments_hash,
        }
        &&& match self.arguments {
            Some(redacted) => config.include_arguments && call_ensures(
                redact,
                (&arguments,),
                redacted,
            ),
            None => !config.include_arguments,
        }
    }

    /// Whether the record holds nothing of a result.
    pub open spec fn holds_no_result(self) -> bool {
        &&& self.execution_duration_ms is None
        &&& self.result_summary is None
        &&& self.result is None
        &&& self.meta is None
    }

    /// Whether the record holds of a result what the configuration asks for:
    /// its summary, itself, and what it says under `_meta.audit`. All but the
    /// summary are redacted.
    pub open spec fn holds_result<R: Fn(&Json) -> Json>(
        self,
        config: AuditConfig,
        result: Json,
        execution_duration_ms: u64,
        redact: R,
    ) -> bool {
        &&& self.execution_duration_ms == Some(execution_duration_ms)
        &&& match self.result_summary {
            Some(summary) => config.include_result_summary && summary.summarizes(result@),
            None => !config.include_result_summary,
        }
        &&& match self.result {
            Some(redacted) => config.include_results && call_ensures(redact, (&result,), redacted),
            None => !config.include_results,
        }
        &&& match self.meta {
            Some(redacted) => config.include_result_meta && is_redacted_meta(
                redact,
                result,
                redacted,
            ),
            None => !config.include_result_meta || audit_meta(result@) is None,
        }
    }
}

/// Whether two captured payloads say the same, or neither is there.
pub open spec fn same_payload(a: Option<Json>, b: Option<Json>) -> bool {
    match (a, b) {
        (Some(x), Some(y)) => x@ == y@,
        (None, None) => true,
        _ => false,
    }
}

/// Whether two digests are the same text, or neither is there.
pub open spec fn same_digest(a: Option<String>, b: Option<String>) -> bool {
    match (a, b) {
        (Some(x), Some(y)) => x@ == y@,
        (None, None) => true,
        _ => false,
    }
}

/// Whether two summaries say the same, or neither is there.
pub open spec fn same_summary(a: Option<ResultSummary>, b: Option<ResultSummary>) -> bool {
    match (a, b) {
        (Some(x), Some(y)) => x.same_as(y),
        (None, None) => true,
        _ => false,
    }
}

impl AuditEvent {
    /// Whether the record names the same call as another, phase and number
    /// aside.
    pub open spec fn same_call(self, other: AuditEvent) -> bool {
        &&& self.request_id == other.request_id
        &&& self.session_id == other.session_id
        &&& self.tool_name == other.tool_name
        &&& self.surface == other.surface
        &&& self.identity.same_as(other.identity)
        &&& self.transport == other.transport
    }

    /// Whether the record is the same as another in all but its timestamp and
    /// its identifier.
    pub open spec fn same_but_stamp(self, other: AuditEvent) -> bool {
        &&& self.version@ == other.version@
        &&& self.phase@ == other.phase@
        &&& self.same_call(other)
        &&& same_digest(self.arguments_hash, other.arguments_hash)
        &&& same_payload(self.arguments, other.arguments)
        &&& self.execution_duration_ms == other.execution_duration_ms
        &&& same_summary(self.result_summary, other.result_summary)
        &&& same_payload(self.result, other.result)
        &&& same_payload(self.meta, other.meta)
        &&& self.gate_decision@ == other.gate_decision@
        &&& self.sequence == other.sequence
    }
}

/// Whether the redactor makes one thing only of a payload.
pub open spec fn redacts_to_one<R: Fn(&Json) -> Json>(redact: R, payload: Json) -> bool {
    forall|x: Json, y: Json| #[trigger]
        call_ensures(redact, (&payload,), x) && #[trigger] call_ensures(redact, (&payload,), y)
            ==> x@ == y@
}

/// What a result holds under `_meta.audit`, as it is stored.
pub open spec fn audit_entry(result: Json) -> Option<Json> {
    match entry_of(result, "_meta"@) {
        Some(meta) => entry_of(meta, "audit"@),
        None => None,
    }
}

/// Whether a value is what the redactor makes of a result's `_meta.audit`.
pub open spec fn is_redacted_meta<R: Fn(&Json) -> Json>(
    redact: R,
    result: Json,
    redacted: Json,
) -> bool {
    exists|raw: Json| #[trigger]
        call_ensures(redact, (&raw,), redacted) && audit_entry(result) == Some(raw) && audit_meta(
            result@,
        ) == Some(raw@)
}

/// What the redactor makes of a result's `_meta.audit`, if there is one.
fn redacted_meta<R: Fn(&Json) -> Json>(result: &Json, redact: &R) -> (meta: Option<Json>)
    requires
        forall|raw: &Json| #[trigger] call_requires(*redact, (raw,)),
    ensures
        match meta {
            Some(redacted) => is_redacted_meta(*redact, *result, redacted),
            None => audit_meta(result@) is None,
        },
{
    match result.get("_meta") {
        Some(meta) => match meta.get("audit") {
            Some(audit) => {
                let redacted = redact(audit);
                Some(redacted)
            },
            None => None,
        },
        None => None,
    }
}

/// The record of a call that is about to be made.
pub fn pre_dispatch_event<R: Fn(&Json) -> Json>(
    config: &AuditConfig,
    ctx: &PluginContext,
    arguments: &Json,
    redact: &R,
    timestamp: String,
    event_id: String,
    sequence: u64,
) -> (event: AuditEvent)
    requires
        forall|raw: &Json| #[trigger] call_requires(*redact, (raw,)),
    ensures
        event.is_about(*ctx, "pre_dispatch"@, timestamp@, event_id@, sequence),
        event.holds_arguments(*config, *arguments, *redact),
        event.holds_no_result(),
{
    AuditEvent {
        version: "1.0",
        timestamp,
        event_id,
        phase: "pre_dispatch",
        request_id: ctx.request_id.clone(),
        session_id: ctx.session_id.clone(),
        tool_name: ctx.tool_name.clone(),
        surface: ctx.surface.clone(),
        identity: AuditIdentity::from(&ctx.identity),
        transport: ctx.transport.clone(),
        arguments_hash: if config.include_arguments_hash {
            Some(redacted_digest(arguments, redact))
        } else {
            None
        },
        arguments: if config.include_arguments {
            Some(redact(arguments))
        } else {
            None
        },
        execution_duration_ms: None,
        result_summary: None,
        result: None,
        meta: None,
        gate_decision: "allow",
        sequence,
    }
}

/// The record of a call that has been made.
pub fn post_dispatch_event<R: Fn(&Json) -> Json>(
    config: &AuditConfig,
    ctx: &PluginContext,
    arguments: &Json,
    result: &Json,
    execution_duration_ms: u64,
    redact: &R,
    timestamp: String,
    event_id: String,
    sequence: u64,
) -> (event: AuditEvent)
    requires
        forall|raw: &Json| #[trigger] call_requires(*redact, (raw,)),
    ensures
        event.is_about(*ctx, "post_dispatch"@, timestamp@, event_id@, sequence),
        event.holds_arguments(*config, *arguments, *redact),
        event.holds_result(*config, *result, execution_duration_ms, *redact),
{
    AuditEvent {
        version: "1.0",
        timestamp,
        event_id,
        phase: "post_dispatch",
        request_id: ctx.request_id.clone(),
        session_id: ctx.session_id.clone(),
        tool_name: ctx.tool_name.clone(),
        surface: ctx.surface.clone(),
        identity: AuditIdentity::from(&ctx.identity),
        transport: ctx.transport.clone(),
        arguments_hash: if config.include_arguments_hash {
            Some(redacted_digest(arguments, redact))
        } else {
            None
        },
        arguments: if config.include_arguments {
            Some(redact(arguments))
        } else {
            None
        },
        execution_duration_ms: Some(execution_duration_ms),
        result_summary: if config.include_result_summary {
            Some(summarize(result))
        } else {
            None
        },
        result: if config.include_results {
            Some(redact(result))
        } else {
            None
        },
        meta: if config.include_result_meta {
            redacted_meta(result, redact)
        } else {
            None
        },
        gate_decision: "allow",
        sequence,
    }
}

/// Redaction is unconditional: whatever is configured, every payload that a
/// record holds, and the digest, comes out of the redactor.
pub proof fn every_payload_is_redacted<R: Fn(&Json) -> Json>(
    event: AuditEvent,
    config: AuditConfig,
    arguments: Json,
    result: Json,
    execution_duration_ms: u64,
    redact: R,
)
    requires
        event.holds_arguments(config, arguments, redact),
        event.holds_no_result() || event.holds_result(
            config,
            result,
            execution_duration_ms,
            redact,
        ),
    ensures
        event.arguments_hash matches Some(digest) ==> is_redacted_digest(
            redact,
            arguments,
            digest@,
        ),
        event.arguments matches Some(redacted) ==> call_ensures(redact, (&arguments,), redacted),
        event.result matches Some(redacted) ==> call_ensures(redact, (&result,), redacted),
        event.meta matches Some(redacted) ==> is_redacted_meta(redact, result, redacted),
{
}

/// Unless the operator asks for them, records hold neither arguments nor
/// results: a digest of the redacted arguments and a summary of the result
/// stand for them.
pub proof fn payloads_stay_out_by_default<R: Fn(&Json) -> Json>(
    event: AuditEvent,
    config: AuditConfig,
    arguments: Json,
    result: Json,
    execution_duration_ms: u64,
    redact: R,
)
    requires
        config.is_default(),
        event.holds_arguments(config, arguments, redact),
        event.holds_no_result() || event.holds_result(
            config,
            result,
            execution_duration_ms,
            redact,
        ),
    ensures
        event.arguments is None,
        event.result is None,
        event.arguments_hash is Some,
        event.execution_duration_ms is Some ==> event.result_summary is Some,
{
}

/// The digest is taken after redaction: payloads of which the redactor makes
/// the same have the same digest, whatever secrets they differ in.
pub proof fn digests_agree_after_redaction<R: Fn(&Json) -> Json>(
    redact: R,
    a: Json,
    b: Json,
    digest_a: Seq<char>,
    digest_b: Seq<char>,
)
    requires
        forall|x: Json, y: Json| #[trigger]
            call_ensures(redact, (&a,), x) && #[trigger] call_ensures(redact, (&b,), y) ==> x@
                == y@,
        is_redacted_digest(redact, a, digest_a),
        is_redacted_digest(redact, b, digest_b),
    ensures
        digest_a == digest_b,
{
}

/// What records hold of a call's arguments is the same in all of them, as long
/// as the redactor makes one thing only of the arguments.
pub proof fn records_agree_on_arguments<R: Fn(&Json) -> Json>(
    a: AuditEvent,
    b: AuditEvent,
    config: AuditConfig,
    arguments: Json,
    redact: R,
)
    requires
        a.holds_arguments(config, arguments, redact),
        b.holds_arguments(config, arguments, redact),
        redacts_to_one(redact, arguments),
    ensures
        same_payload(a.arguments, b.arguments),
        same_digest(a.arguments_hash, b.arguments_hash),
        (forall|x: Json, y: Json| #[trigger]
            call_ensures(redact, (&arguments,), x) && #[trigger] call_ensures(
                redact,
                (&arguments,),
                y,
            ) ==> x == y) ==> a.arguments == b.arguments,
{
    if config.include_arguments_hash {
        digests_agree_after_redaction(
            redact,
            arguments,
            arguments,
            a.arguments_hash->0@,
            b.arguments_hash->0@,
        );
    }
}

/// A record holds metadata only if the result is an object with a `_meta` that
/// is an object with an `audit`, and then what it holds is what the redactor
/// makes of that `audit`. Where there is such an `audit` and the configuration
/// asks for it, the record does hold it. Where a key occurs twice, the later
/// entry counts.
pub proof fn metadata_is_the_redacted_audit_member<R: Fn(&Json) -> Json>(
    event: AuditEvent,
    config: AuditConfig,
    result: Json,
    execution_duration_ms: u64,
    redact: R,
)
    requires
        event.holds_result(config, result, execution_duration_ms, redact),
    ensures
        event.meta is Some ==> {
            &&& config.include_result_meta
            &&& result is Object
            &&& exists|k: int, l: int|
                {
                    let meta = result->Object_0@[k].1;
                    &&& 0 <= k < result->Object_0@.len()
                    &&& result->Object_0@[k].0@ == "_meta"@
                    &&& forall|j: int|
                        k < j < result->Object_0@.len() ==> (#[trigger] result->Object_0@[j]).0@
                            != "_meta"@
                    &&& meta is Object
                    &&& 0 <= l < meta->Object_0@.len()
                    &&& (#[trigger] result->Object_0@[k].1->Object_0@[l]).0@ == "audit"@
                    &&& forall|j: int|
                        l < j < meta->Object_0@.len() ==> (#[trigger] meta->Object_0@[j]).0@
                            != "audit"@
                    &&& call_ensures(redact, (&meta->Object_0@[l].1,), event.meta->0)
                }
        },
        event.meta is None && config.include_result_meta && result is Object ==> forall|
            k: int,
            l: int,
        |
            {
                let meta = result->Object_0@[k].1;
                &&& 0 <= k < result->Object_0@.len()
                &&& result->Object_0@[k].0@ == "_meta"@
                &&& forall|j: int|
                    k < j < result->Object_0@.len() ==> (#[trigger] result->Object_0@[j]).0@
                        != "_meta"@
                &&& meta is Object
                &&& 0 <= l < meta->Object_0@.len()
            } ==> (#[trigger] result->Object_0@[k].1->Object_0@[l]).0@ != "audit"@,
{
    later_entries_count(result, "_meta"@);
    if event.meta is Some {
        let meta = entry_of(result, "_meta"@)->0;
        later_entries_count(meta, "audit"@);
        let k = choose|k: int|
            {
                &&& 0 <= k < result->Object_0@.len()
                &&& (#[trigger] result->Object_0@[k]).0@ == "_meta"@
                &&& result->Object_0@[k].1 == meta
                &&& forall|j: int|
                    k < j < result->Object_0@.len() ==> (#[trigger] result->Object_0@[j]).0@
                        != "_meta"@
            };
        let l = choose|l: int|
            {
                &&& 0 <= l < meta->Object_0@.len()
                &&& (#[trigger] meta->Object_0@[l]).0@ == "audit"@
                &&& meta->Object_0@[l].1 == entry_of(meta, "audit"@)->0
                &&& forall|j: int|
                    l < j < meta->Object_0@.len() ==> (#[trigger] meta->Object_0@[j]).0@
                        != "audit"@
            };
        assert(result->Object_0@[k].1->Object_0@[l].0@ == "audit"@);
    } else if config.include_result_meta && result is Object {
        assert forall|k: int, l: int|
            {
                let meta = result->Object_0@[k].1;
                &&& 0 <= k < result->Object_0@.len()
                &&& result->Object_0@[k].0@ == "_meta"@
                &&& forall|j: int|
                    k < j < result->Object_0@.len() ==> (#[trigger] result->Object_0@[j]).0@
                        != "_meta"@
                &&& meta is Object
                &&& 0 <= l < meta->Object_0@.len()
            } implies (#[trigger] result->Object_0@[k].1->Object_0@[l]).0@ != "audit"@ by {
            last_entry_counts(result, k);
            later_entries_count(result->Object_0@[k].1, "audit"@);
        }
    }
}

/// The digest in a record covers the whole text that `serde_json` writes for
/// what the redactor makes of the arguments.
pub proof fn argument_digest_covers_the_redacted_text<R: Fn(&Json) -> Json>(
    event: AuditEvent,
    config: AuditConfig,
    arguments: Json,
    redact: R,
)
    requires
        event.holds_arguments(config, arguments, redact),
    ensures
        event.arguments_hash matches Some(digest) ==> exists|redacted: Json|
            {
                &&& #[trigger] call_ensures(redact, (&arguments,), redacted)
                &&& written_text(redacted@) matches Some(written) ==> digest@ == "sha256:"@
                    + hex_text(sha256(encode_utf8(written)))
            },
{
}

/// What a record holds of a call is what the configuration asks for, each part
/// on its own. A record of a call that is about to be made holds nothing of a
/// result.
pub proof fn records_hold_what_is_configured<R: Fn(&Json) -> Json>(
    before: AuditEvent,
    after: AuditEvent,
    config: AuditConfig,
    arguments: Json,
    result: Json,
    execution_duration_ms: u64,
    redact: R,
)
    requires
        before.holds_arguments(config, arguments, redact),
        before.holds_no_result(),
        after.holds_arguments(config, arguments, redact),
        after.holds_result(config, result, execution_duration_ms, redact),
    ensures
        before.arguments_hash is Some <==> config.include_arguments_hash,
        after.arguments_hash is Some <==> config.include_arguments_hash,
        before.arguments is Some <==> config.include_arguments,
        after.arguments is Some <==> config.include_arguments,
        before.arguments matches Some(held) ==> call_ensures(redact, (&arguments,), held),
        after.arguments matches Some(held) ==> call_ensures(redact, (&arguments,), held),
        before.execution_duration_ms is None,
        after.execution_duration_ms == Some(execution_duration_ms),
        before.result_summary is None,
        after.result_summary is Some <==> config.include_result_summary,
        after.result_summary matches Some(summary) ==> summary.summarizes(result@),
        before.result is None,
        after.result is Some <==> config.include_results,
        after.result matches Some(held) ==> call_ensures(redact, (&result,), held),
        before.meta is None,
        after.meta is Some ==> config.include_result_meta,
{
}

/// A record says of a call what the gateway says of it: its request, session,
/// tool, surface and transport, and everything about its caller.
pub proof fn records_name_the_call(
    event: AuditEvent,
    ctx: PluginContext,
    phase: Seq<char>,
    timestamp: Seq<char>,
    event_id: Seq<char>,
    sequence: u64,
)
    requires
        event.is_about(ctx, phase, timestamp, event_id, sequence),
    ensures
        event.version@ == "1.0"@,
        event.gate_decision@ == "allow"@,
        event.phase@ == phase,
        event.timestamp@ == timestamp,
        event.event_id@ == event_id,
        event.sequence == sequence,
        event.request_id@ == ctx.request_id@,
        event.session_id == ctx.session_id,
        event.tool_name@ == ctx.tool_name@,
        event.surface@ == ctx.surface@,
        event.transport@ == ctx.transport@,
        event.identity.kind@ == ctx.identity.kind@,
        event.identity.trust_level@ == ctx.identity.trust_level@,
        event.identity.subject_id == ctx.identity.subject_id,
        event.identity.auth_provider == ctx.identity.auth_provider,
        event.identity.issuer == ctx.identity.issuer,
        event.identity.roles@ == ctx.identity.roles@,
        event.identity.groups@ == ctx.identity.groups@,
        event.identity.scopes@ == ctx.identity.scopes@,
{
}

} // verus!
