//! Which tool calls are audited, and the records of them.

use crate::clock::{is_timestamp, moment_text, nanos_since_1970, now_iso8601, shows_the_clock};
use crate::config::AuditConfig;
use crate::event::{
    audit_meta, is_event_id, is_made_event_id, is_redacted_digest, is_redacted_meta,
    make_event_id,
    post_dispatch_event, pre_dispatch_event, records_agree_on_arguments, redacted_digest,
    redacts_to_one, same_digest, same_payload, AuditEvent,
};
use crate::identity::PluginContext;
use crate::json::Json;
use crate::sinks::Sink;
use crate::summary::{summarize, summary_is_determined, ResultSummary};
use vstd::prelude::*;

verus! {

/// The name under which a gateway knows the plugin.
pub const PLUGIN_ID: &'static str = "dev.mcpg.audit";

/// The version of the plugin.
pub const PLUGIN_VERSION: &'static str = "0.1.0";

/// What a gate says to a call.
#[derive(Debug, Clone, Copy, PartialEq, Eq, Structural)]
pub enum GateDecision {
    Allow,
    Deny,
}

impl GateDecision {
    /// Lets the call go on.
    pub fn allow() -> (decision: GateDecision)
        ensures
            decision == GateDecision::Allow,
    {
        GateDecision::Allow
    }

    /// Whether the call may go on.
    pub fn is_allow(&self) -> (allowed: bool)
        ensures
            allowed == (*self == GateDecision::Allow),
    {
        match self {
            GateDecision::Allow => true,
            GateDecision::Deny => false,
        }
    }
}

/// What a plugin is to a gateway.
#[derive(Debug, Clone, Copy, PartialEq, Eq, Structural)]
pub enum PluginClass {
    ToolGate,
}

/// How a plugin presents itself to a gateway.
#[derive(Debug, Clone)]
pub struct PluginManifest {
    pub id: String,
    pub version: String,
    pub name: String,
    pub plugin_class: PluginClass,
    pub protocol_version: String,
    pub license: Option<String>,
    pub required_capabilities: Vec<String>,
    pub tags: Vec<String>,
    pub provides: Vec<String>,
    pub provides_schemes: Vec<String>,
    pub module_path_prefix: String,
    pub backend_profile: Option<String>,
}

impl PluginManifest {
    /// Whether this presents the audit plugin: a tool gate that requires no
    /// capabilities.
    pub open spec fn presents_audit_plugin(self) -> bool {
        &&& self.id@ == PLUGIN_ID@
        &&& self.version@ == PLUGIN_VERSION@
        &&& self.name@ == "Audit Log"@
        &&& self.plugin_class == PluginClass::ToolGate
        &&& self.protocol_version@ == "1.0"@
        &&& self.license is None
        &&& self.required_capabilities@.len() == 0
        &&& self.tags@.len() == 0
        &&& self.provides@.len() == 0
        &&& self.provides_schemes@.len() == 0
        &&& self.module_path_prefix@ == "mcpg_plugin_observability_audit"@
        &&& self.backend_profile is None
    }
}

/// What comes of a call: the decision, and the record of the call
/// if it is audited.
#[derive(Debug, Clone)]
pub struct GateOutcome {
    pub decision: GateDecision,
    pub event: Option<AuditEvent>,
}

/// The audit plugin.
pub struct AuditPlugin {
    manifest: PluginManifest,
    config: AuditConfig,
    sequence: u64,
    shut_down: bool,
}

/// The sequence number that follows another. After the highest one they start
/// anew.
pub open spec fn sequence_after(sequence: u64) -> u64 {
    if sequence == u64::MAX {
        0
    } else {
        (sequence + 1) as u64
    }
}

/// Whether the audit filter may say of a tool what it says. Without patterns
/// every tool is audited; with patterns, a tool that one of them matches.
pub open spec fn filter_says<G: Fn(&String, &String) -> bool>(
    filter: Option<Vec<String>>,
    tool_name: String,
    glob: G,
    audited: bool,
) -> bool {
    match filter {
        None => audited,
        Some(patterns) => if audited {
            exists|i: int|
                0 <= i < patterns@.len() && call_ensures(
                    glob,
                    (#[trigger] &patterns@[i], &tool_name),
                    true,
                )
        } else {
            forall|i: int|
                0 <= i < patterns@.len() ==> call_ensures(
                    glob,
                    (#[trigger] &patterns@[i], &tool_name),
                    false,
                )
        },
    }
}

impl GateOutcome {
    /// The sequence number of the record, if there is one.
    pub open spec fn number(self) -> Option<u64> {
        match self.event {
            Some(event) => Some(event.sequence),
            None => None,
        }
    }

    /// Whether a call that is about to be made passes, and the record of it,
    /// if there is one, is the one that the configuration asks for.
    pub open spec fn passes_before<R: Fn(&Json) -> Json>(
        self,
        config: AuditConfig,
        ctx: PluginContext,
        arguments: Json,
        redact: R,
    ) -> bool {
        &&& self.decision == GateDecision::Allow
        &&& self.event matches Some(event) ==> {
            &&& event.is_about(
                ctx,
                "pre_dispatch"@,
                event.timestamp@,
                event.event_id@,
                event.sequence,
            )
            &&& is_timestamp(event.timestamp@)
            &&& shows_the_clock(event.timestamp@)
            &&& is_event_id(event.event_id@)
            &&& is_made_event_id(event.event_id@)
            &&& event.holds_arguments(config, arguments, redact)
            &&& event.holds_no_result()
        }
    }

    /// Whether a call that has been made passes, and the record of it, if
    /// there is one, is the one that the configuration asks for.
    pub open spec fn passes_after<R: Fn(&Json) -> Json>(
        self,
        config: AuditConfig,
        ctx: PluginContext,
        arguments: Json,
        result: Json,
        execution_duration_ms: u64,
        redact: R,
    ) -> bool {
        &&& self.decision == GateDecision::Allow
        &&& self.event matches Some(event) ==> {
            &&& event.is_about(
                ctx,
                "post_dispatch"@,
                event.timestamp@,
                event.event_id@,
                event.sequence,
            )
            &&& is_timestamp(event.timestamp@)
            &&& shows_the_clock(event.timestamp@)
            &&& is_event_id(event.event_id@)
            &&& is_made_event_id(event.event_id@)
            &&& event.holds_arguments(config, arguments, redact)
            &&& event.holds_result(config, result, execution_duration_ms, redact)
        }
    }
}

/// Whether a call numbers its record: a record takes the number
/// that is next, and only a record does.
pub open spec fn numbers_record(before: u64, number: Option<u64>, after: u64) -> bool {
    match number {
        Some(n) => n == before && after == sequence_after(before),
        None => after == before,
    }
}

impl AuditPlugin {
    /// The configuration of the plugin.
    pub closed spec fn configured(self) -> AuditConfig {
        self.config
    }

    /// How the plugin presents itself.
    pub closed spec fn presented(self) -> PluginManifest {
        self.manifest
    }

    /// The number of the next record.
    pub closed spec fn next_sequence(self) -> u64 {
        self.sequence
    }

    /// Whether the plugin has been shut down.
    pub closed spec fn is_shut_down(self) -> bool {
        self.shut_down
    }

    /// Whether nothing but the number of the next record differs.
    pub open spec fn same_but_sequence(self, other: AuditPlugin) -> bool {
        &&& self.configured() == other.configured()
        &&& self.presented() == other.presented()
        &&& self.is_shut_down() == other.is_shut_down()
    }

    /// Whether a call of a tool leads from one state to another, and what
    /// number its record takes. It takes one exactly if the filter says that
    /// the tool is audited.
    pub open spec fn admits<G: Fn(&String, &String) -> bool>(
        self,
        tool_name: String,
        glob: G,
        number: Option<u64>,
        after: AuditPlugin,
    ) -> bool {
        &&& filter_says(self.configured().tools_filter, tool_name, glob, number is Some)
        &&& numbers_record(self.next_sequence(), number, after.next_sequence())
        &&& after.same_but_sequence(self)
    }

    /// Whether a shutdown leads from one state to another. The first one finds
    /// the plugin running, and none changes anything else.
    pub open spec fn shuts_down(self, first: bool, after: AuditPlugin) -> bool {
        &&& first == !self.is_shut_down()
        &&& after.is_shut_down()
        &&& after.configured() == self.configured()
        &&& after.presented() == self.presented()
        &&& after.next_sequence() == self.next_sequence()
    }

    /// A plugin that has made no record yet.
    pub fn new(config: AuditConfig) -> (plugin: AuditPlugin)
        ensures
            plugin.configured() == config,
            plugin.presented().presents_audit_plugin(),
            plugin.next_sequence() == 0,
            !plugin.is_shut_down(),
    {
        AuditPlugin {
            manifest: PluginManifest {
                id: PLUGIN_ID.to_owned(),
                version: PLUGIN_VERSION.to_owned(),
                name: "Audit Log".to_owned(),
                plugin_class: PluginClass::ToolGate,
                protocol_version: "1.0".to_owned(),
                license: None,
                required_capabilities: Vec::new(),
                tags: Vec::new(),
                provides: Vec::new(),
                provides_schemes: Vec::new(),
                module_path_prefix: "mcpg_plugin_observability_audit".to_owned(),
                backend_profile: None,
            },
            config,
            sequence: 0,
            shut_down: false,
        }
    }

    /// How the plugin presents itself.
    pub fn manifest(&self) -> (manifest: &PluginManifest)
        ensures
            *manifest == self.presented(),
    {
        &self.manifest
    }

    /// The configuration of the plugin.
    pub fn config(&self) -> (config: &AuditConfig)
        ensures
            *config == self.configured(),
    {
        &self.config
    }

    /// The number of events that may wait to be written.
    pub fn channel_capacity(&self) -> (capacity: usize)
        ensures
            capacity == self.configured().capacity(),
            capacity >= 1,
    {
        self.config.channel_capacity()
    }

    /// The sink that events are written to.
    pub fn sink(&self) -> (sink: Sink)
        ensures
            sink.model() == self.configured().sink@,
    {
        Sink::from_config(&self.config.sink)
    }

    /// Whether calls of a tool are audited. `glob` tells whether a pattern
    /// matches a tool's name.
    pub fn should_audit<G: Fn(&String, &String) -> bool>(
        &self,
        tool_name: &String,
        glob: &G,
    ) -> (audited: bool)
        requires
            forall|p: &String, t: &String| #[trigger] call_requires(*glob, (p, t)),
        ensures
            filter_says(self.configured().tools_filter, *tool_name, *glob, audited),
    {
        match &self.config.tools_filter {
            None => true,
            Some(patterns) => {
                let mut i: usize = 0;
                while i < patterns.len()
                    invariant
                        i <= patterns.len(),
                        self.config.tools_filter == Some(*patterns),
                        forall|p: &String, t: &String| #[trigger] call_requires(*glob, (p, t)),
                        forall|j: int|
                            0 <= j < i ==> call_ensures(
                                *glob,
                                (#[trigger] &patterns@[j], tool_name),
                                false,
                            ),
                    decreases patterns.len() - i,
                {
                    if glob(&patterns[i], tool_name) {
                        return true;
                    }
                    i = i + 1;
                }
                false
            },
        }
    }

    /// The arguments or the result of a call, as a record may hold them.
    pub fn redact_for_emission<R: Fn(&Json) -> Json>(&self, payload: &Json, redact: &R) -> (redacted:
        Json)
        requires
            forall|raw: &Json| #[trigger] call_requires(*redact, (raw,)),
        ensures
            call_ensures(*redact, (payload,), redacted),
    {
        redact(payload)
    }

    /// The digest of a call's arguments, taken after redaction.
    pub fn hash_arguments<R: Fn(&Json) -> Json>(&self, arguments: &Json, redact: &R) -> (digest:
        String)
        requires
            forall|raw: &Json| #[trigger] call_requires(*redact, (raw,)),
        ensures
            is_redacted_digest(*redact, *arguments, digest@),
            digest@.len() == 71,
    {
        redacted_digest(arguments, redact)
    }

    /// The summary of a tool result.
    pub fn build_result_summary(&self, result: &Json) -> (summary: ResultSummary)
        ensures
            summary.summarizes(result@),
    {
        summarize(result)
    }

    /// Decides whether a call is audited, and takes the number of its record
    /// if it is. This is all that calls share: the record can be made apart.
    pub fn take_number<G: Fn(&String, &String) -> bool>(
        &mut self,
        tool_name: &String,
        glob: &G,
    ) -> (number: Option<u64>)
        requires
            forall|p: &String, t: &String| #[trigger] call_requires(*glob, (p, t)),
        ensures
            old(self).admits(*tool_name, *glob, number, *final(self)),
    {
        if !self.should_audit(tool_name, glob) {
            return None;
        }
        let sequence: u64 = self.sequence;
        self.sequence = sequence.wrapping_add(1);
        Some(sequence)
    }

    /// Lets a call pass that is about to be made, and records it if its tool
    /// is audited.
    pub fn evaluate_pre<G: Fn(&String, &String) -> bool, R: Fn(&Json) -> Json>(
        &mut self,
        ctx: &PluginContext,
        arguments: &Json,
        glob: &G,
        redact: &R,
    ) -> (outcome: GateOutcome)
        requires
            forall|p: &String, t: &String| #[trigger] call_requires(*glob, (p, t)),
            forall|raw: &Json| #[trigger] call_requires(*redact, (raw,)),
        ensures
            outcome.decision == GateDecision::Allow,
            old(self).admits(ctx.tool_name, *glob, outcome.number(), *final(self)),
            outcome.passes_before(old(self).configured(), *ctx, *arguments, *redact),
    {
        let number = self.take_number(&ctx.tool_name, glob);
        outcome_before(&self.config, ctx, arguments, redact, number)
    }

    /// Lets a call pass that has been made, and records it with its result if
    /// its tool is audited.
    pub fn evaluate_post<G: Fn(&String, &String) -> bool, R: Fn(&Json) -> Json>(
        &mut self,
        ctx: &PluginContext,
        arguments: &Json,
        result: &Json,
        execution_duration_ms: u64,
        glob: &G,
        redact: &R,
    ) -> (outcome: GateOutcome)
        requires
            forall|p: &String, t: &String| #[trigger] call_requires(*glob, (p, t)),
            forall|raw: &Json| #[trigger] call_requires(*redact, (raw,)),
        ensures
            outcome.decision == GateDecision::Allow,
            old(self).admits(ctx.tool_name, *glob, outcome.number(), *final(self)),
            outcome.passes_after(
                old(self).configured(),
                *ctx,
                *arguments,
                *result,
                execution_duration_ms,
                *redact,
            ),
    {
        let number = self.take_number(&ctx.tool_name, glob);
        outcome_after(
            &self.config,
            ctx,
            arguments,
            result,
            execution_duration_ms,
            redact,
            number,
        )
    }

    /// Begins a shutdown. Only the first one has a writer to wait for.
    pub fn begin_shutdown(&mut self) -> (first: bool)
        ensures
            old(self).shuts_down(first, *final(self)),
    {
        let first: bool = !self.shut_down;
        self.shut_down = true;
        first
    }
}

/// Lets a call pass that is about to be made, and records it under the number
/// that it was given, if any.
pub fn outcome_before<R: Fn(&Json) -> Json>(
    config: &AuditConfig,
    ctx: &PluginContext,
    arguments: &Json,
    redact: &R,
    number: Option<u64>,
) -> (outcome: GateOutcome)
    requires
        forall|raw: &Json| #[trigger] call_requires(*redact, (raw,)),
    ensures
        outcome.decision == GateDecision::Allow,
        outcome.number() == number,
        outcome.passes_before(*config, *ctx, *arguments, *redact),
{
    match number {
        None => GateOutcome { decision: GateDecision::allow(), event: None },
        Some(sequence) => {
            let event = pre_dispatch_event(
                config,
                ctx,
                arguments,
                redact,
                now_iso8601(),
                make_event_id(),
                sequence,
            );
            GateOutcome { decision: GateDecision::allow(), event: Some(event) }
        },
    }
}

/// Lets a call pass that has been made, and records it with its result under
/// the number that it was given, if any.
pub fn outcome_after<R: Fn(&Json) -> Json>(
    config: &AuditConfig,
    ctx: &PluginContext,
    arguments: &Json,
    result: &Json,
    execution_duration_ms: u64,
    redact: &R,
    number: Option<u64>,
) -> (outcome: GateOutcome)
    requires
        forall|raw: &Json| #[trigger] call_requires(*redact, (raw,)),
    ensures
        outcome.decision == GateDecision::Allow,
        outcome.number() == number,
        outcome.passes_after(
            *config,
            *ctx,
            *arguments,
            *result,
            execution_duration_ms,
            *redact,
        ),
{
    match number {
        None => GateOutcome { decision: GateDecision::allow(), event: None },
        Some(sequence) => {
            let event = post_dispatch_event(
                config,
                ctx,
                arguments,
                result,
                execution_duration_ms,
                redact,
                now_iso8601(),
                make_event_id(),
                sequence,
            );
            GateOutcome { decision: GateDecision::allow(), event: Some(event) }
        },
    }
}

/// How many calls of a series made a record.
pub open spec fn record_count(numbers: Seq<Option<u64>>) -> int
    decreases numbers.len(),
{
    if numbers.len() == 0 {
        0
    } else {
        record_count(numbers.drop_last()) + if numbers.last() is Some {
            1int
        } else {
            0int
        }
    }
}

/// Whether `numbers` are the numbers of the records of a series of calls, and
/// `next` the numbers that were next before each call and after the last.
pub open spec fn is_numbering(next: Seq<u64>, numbers: Seq<Option<u64>>) -> bool {
    &&& next.len() == numbers.len() + 1
    &&& forall|k: int|
        0 <= k < numbers.len() ==> numbers_record(next[k], #[trigger] numbers[k], next[k + 1])
}

proof fn lemma_next_counts_records(next: Seq<u64>, numbers: Seq<Option<u64>>, k: int)
    requires
        is_numbering(next, numbers),
        next[0] == 0,
        numbers.len() <= u64::MAX,
        0 <= k <= numbers.len(),
    ensures
        next[k] == record_count(numbers.take(k)),
        0 <= record_count(numbers.take(k)) <= k,
    decreases k,
{
    if k > 0 {
        lemma_next_counts_records(next, numbers, k - 1);
        assert(numbers.take(k).drop_last() =~= numbers.take(k - 1));
    }
}

proof fn lemma_record_count_grows(numbers: Seq<Option<u64>>, i: int, j: int)
    requires
        0 <= i <= j <= numbers.len(),
    ensures
        record_count(numbers.take(i)) <= record_count(numbers.take(j)),
    decreases j,
{
    if i < j {
        lemma_record_count_grows(numbers, i, j - 1);
        assert(numbers.take(j).drop_last() =~= numbers.take(j - 1));
    }
}

/// Records are numbered in the order of the calls: from a new plugin on, each
/// record has the number of the records before it, so that the numbers rise
/// and leave no gap. Calls that are not audited take no number.
pub proof fn records_are_numbered_in_order(next: Seq<u64>, numbers: Seq<Option<u64>>)
    requires
        is_numbering(next, numbers),
        next[0] == 0,
        numbers.len() <= u64::MAX,
    ensures
        forall|k: int|
            0 <= k < numbers.len() ==> ((#[trigger] numbers[k]) matches Some(n) ==> n
                == record_count(numbers.take(k))),
        forall|i: int, j: int|
            0 <= i < j < numbers.len() && (#[trigger] numbers[i]) is Some && (
            #[trigger] numbers[j]) is Some ==> numbers[i]->0 < numbers[j]->0,
{
    assert forall|k: int| 0 <= k < numbers.len() implies ((#[trigger] numbers[k]) matches Some(n)
        ==> n == record_count(numbers.take(k))) by {
        lemma_next_counts_records(next, numbers, k);
    }
    assert forall|i: int, j: int|
        0 <= i < j < numbers.len() && (#[trigger] numbers[i]) is Some && (
        #[trigger] numbers[j]) is Some implies numbers[i]->0 < numbers[j]->0 by {
        assert(numbers.take(i + 1).drop_last() =~= numbers.take(i));
        lemma_record_count_grows(numbers, i + 1, j);
    }
}

/// A call that is recorded before it is made is recorded after it, too, and
/// the two records belong together. Their phases differ; they name the same
/// call and hold the same of its arguments. Where no audited call comes
/// between them, and the numbers do not start anew, their numbers follow each
/// other. The matching of the patterns has to be determined, and so has what
/// the redactor makes of the arguments.
pub proof fn records_of_a_call_belong_together<
    G: Fn(&String, &String) -> bool,
    R: Fn(&Json) -> Json,
>(
    start: AuditPlugin,
    admitted: AuditPlugin,
    resumed: AuditPlugin,
    end: AuditPlugin,
    ctx: PluginContext,
    arguments: Json,
    result: Json,
    execution_duration_ms: u64,
    glob: G,
    redact: R,
    before: GateOutcome,
    after: GateOutcome,
)
    requires
        glob_is_determined(glob, ctx.tool_name),
        redacts_to_one(redact, arguments),
        start.admits(ctx.tool_name, glob, before.number(), admitted),
        before.passes_before(start.configured(), ctx, arguments, redact),
        resumed.configured() == admitted.configured(),
        resumed.admits(ctx.tool_name, glob, after.number(), end),
        after.passes_after(
            resumed.configured(),
            ctx,
            arguments,
            result,
            execution_duration_ms,
            redact,
        ),
    ensures
        before.event is Some <==> after.event is Some,
        before.event is Some ==> {
            let a = before.event->0;
            let b = after.event->0;
            &&& a.phase@ == "pre_dispatch"@
            &&& b.phase@ == "post_dispatch"@
            &&& a.phase@ != b.phase@
            &&& a.same_call(b)
            &&& same_digest(a.arguments_hash, b.arguments_hash)
            &&& same_payload(a.arguments, b.arguments)
            &&& resumed.next_sequence() == admitted.next_sequence() && start.next_sequence()
                < u64::MAX ==> b.sequence == a.sequence + 1
        },
{
    filter_is_determined(
        start.configured().tools_filter,
        ctx.tool_name,
        glob,
        before.event is Some,
        after.event is Some,
    );
    if before.event is Some {
        records_agree_on_arguments(
            before.event->0,
            after.event->0,
            start.configured(),
            arguments,
            redact,
        );
    }
    reveal_strlit("pre_dispatch");
    reveal_strlit("post_dispatch");
    assert("pre_dispatch"@.len() != "post_dispatch"@.len());
}

/// By default a record shows nothing of a result but its summary and its
/// redacted `_meta.audit`: where two results agree in these, the records of
/// two calls that are otherwise the same differ in nothing but timestamp and
/// identifier.
pub proof fn default_records_show_summary_and_meta_only<
    G: Fn(&String, &String) -> bool,
    R: Fn(&Json) -> Json,
>(
    plugin_a: AuditPlugin,
    plugin_b: AuditPlugin,
    end_a: AuditPlugin,
    end_b: AuditPlugin,
    ctx: PluginContext,
    arguments: Json,
    result_a: Json,
    result_b: Json,
    execution_duration_ms: u64,
    glob: G,
    redact: R,
    outcome_a: GateOutcome,
    outcome_b: GateOutcome,
    summary_a: ResultSummary,
    summary_b: ResultSummary,
)
    requires
        plugin_a.configured().is_default(),
        plugin_b.configured().is_default(),
        plugin_a.next_sequence() == plugin_b.next_sequence(),
        plugin_a.admits(ctx.tool_name, glob, outcome_a.number(), end_a),
        plugin_b.admits(ctx.tool_name, glob, outcome_b.number(), end_b),
        outcome_a.passes_after(
            plugin_a.configured(),
            ctx,
            arguments,
            result_a,
            execution_duration_ms,
            redact,
        ),
        outcome_b.passes_after(
            plugin_b.configured(),
            ctx,
            arguments,
            result_b,
            execution_duration_ms,
            redact,
        ),
        redacts_to_one(redact, arguments),
        summary_a.summarizes(result_a@),
        summary_b.summarizes(result_b@),
        summary_a.same_as(summary_b),
        audit_meta(result_a@) is Some <==> audit_meta(result_b@) is Some,
        forall|x: Json, y: Json| #[trigger]
            is_redacted_meta(redact, result_a, x) && #[trigger] is_redacted_meta(
                redact,
                result_b,
                y,
            ) ==> x@ == y@,
    ensures
        outcome_a.event is Some,
        outcome_b.event is Some,
        outcome_a.event->0.same_but_stamp(outcome_b.event->0),
{
    let a = outcome_a.event->0;
    let b = outcome_b.event->0;
    assert(a.holds_arguments(plugin_b.configured(), arguments, redact));
    records_agree_on_arguments(a, b, plugin_b.configured(), arguments, redact);
    summary_is_determined(a.result_summary->0, summary_a, result_a@);
    summary_is_determined(b.result_summary->0, summary_b, result_b@);
}

/// Whether no pattern both matches a tool's name and does not.
pub open spec fn glob_is_determined<G: Fn(&String, &String) -> bool>(
    glob: G,
    tool_name: String,
) -> bool {
    forall|p: &String|
        !(call_ensures(glob, (p, &tool_name), true) && #[trigger] call_ensures(
            glob,
            (p, &tool_name),
            false,
        ))
}

/// What the filter says of a tool is determined, as long as the matching of
/// its patterns is.
pub proof fn filter_is_determined<G: Fn(&String, &String) -> bool>(
    filter: Option<Vec<String>>,
    tool_name: String,
    glob: G,
    a: bool,
    b: bool,
)
    requires
        glob_is_determined(glob, tool_name),
        filter_says(filter, tool_name, glob, a),
        filter_says(filter, tool_name, glob, b),
    ensures
        a == b,
{
    if filter is Some && a != b {
        let patterns = filter->0@;
        let i = choose|i: int|
            0 <= i < patterns.len() && call_ensures(
                glob,
                (#[trigger] &patterns[i], &tool_name),
                true,
            );
        assert(call_ensures(glob, (&patterns[i], &tool_name), false));
    }
}

/// Without patterns every tool is audited; with an empty list of patterns
/// none is.
pub proof fn filter_without_patterns<G: Fn(&String, &String) -> bool>(
    filter: Option<Vec<String>>,
    tool_name: String,
    glob: G,
    audited: bool,
)
    requires
        filter_says(filter, tool_name, glob, audited),
    ensures
        filter is None ==> audited,
        filter matches Some(patterns) ==> patterns@.len() == 0 ==> !audited,
{
}

/// Only the first of two shutdowns finds the plugin running, and the second
/// changes nothing.
pub proof fn shutdown_happens_once(
    running: AuditPlugin,
    once: AuditPlugin,
    twice: AuditPlugin,
    first: bool,
    second: bool,
)
    requires
        running.shuts_down(first, once),
        once.shuts_down(second, twice),
    ensures
        !second,
        twice.is_shut_down() == once.is_shut_down(),
        twice.configured() == once.configured(),
        twice.presented() == once.presented(),
        twice.next_sequence() == once.next_sequence(),
{
}

/// A call that is about to be made always passes. Its record, if there is one,
/// is of the phase before the call, names the call, holds what is configured of
/// the arguments and nothing of a result, and has an identifier made for it.
pub proof fn calls_pass_before<R: Fn(&Json) -> Json>(
    outcome: GateOutcome,
    config: AuditConfig,
    ctx: PluginContext,
    arguments: Json,
    redact: R,
)
    requires
        outcome.passes_before(config, ctx, arguments, redact),
    ensures
        outcome.decision == GateDecision::Allow,
        outcome.event matches Some(event) ==> {
            &&& event.is_about(
                ctx,
                "pre_dispatch"@,
                event.timestamp@,
                event.event_id@,
                event.sequence,
            )
            &&& event.holds_arguments(config, arguments, redact)
            &&& event.holds_no_result()
            &&& is_event_id(event.event_id@)
            &&& is_made_event_id(event.event_id@)
        },
{
}

/// A call that has been made always passes. Its record, if there is one, is of
/// the phase after the call, names the call, holds what is configured of the
/// arguments and of the result, and has an identifier made for it.
pub proof fn calls_pass_after<R: Fn(&Json) -> Json>(
    outcome: GateOutcome,
    config: AuditConfig,
    ctx: PluginContext,
    arguments: Json,
    result: Json,
    execution_duration_ms: u64,
    redact: R,
)
    requires
        outcome.passes_after(config, ctx, arguments, result, execution_duration_ms, redact),
    ensures
        outcome.decision == GateDecision::Allow,
        outcome.event matches Some(event) ==> {
            &&& event.is_about(
                ctx,
                "post_dispatch"@,
                event.timestamp@,
                event.event_id@,
                event.sequence,
            )
            &&& event.holds_arguments(config, arguments, redact)
            &&& event.holds_result(config, result, execution_duration_ms, redact)
            &&& is_event_id(event.event_id@)
            &&& is_made_event_id(event.event_id@)
        },
{
}

/// The timestamp of a record is that of a reading of the system clock: the
/// moment that the reading shows, or the start of 1970 where the clock stands
/// before it.
pub proof fn records_show_the_time_of_the_clock<R: Fn(&Json) -> Json>(
    outcome: GateOutcome,
    config: AuditConfig,
    ctx: PluginContext,
    arguments: Json,
    result: Json,
    execution_duration_ms: u64,
    redact: R,
)
    requires
        outcome.passes_before(config, ctx, arguments, redact) || outcome.passes_after(
            config,
            ctx,
            arguments,
            result,
            execution_duration_ms,
            redact,
        ),
    ensures
        outcome.event matches Some(event) ==> exists|reading: std::time::SystemTime|
            {
                &&& #[trigger] call_ensures(std::time::SystemTime::now, (), reading)
                &&& nanos_since_1970(reading) >= 0 ==> event.timestamp@ == moment_text(
                    nanos_since_1970(reading) as nat,
                )
                &&& nanos_since_1970(reading) < 0 ==> event.timestamp@ == moment_text(0)
            },
{
    if outcome.event is Some {
        let text = outcome.event->0.timestamp@;
        assert(shows_the_clock(text));
        let reading = choose|reading: std::time::SystemTime| #[trigger]
            call_ensures(std::time::SystemTime::now, (), reading) && text == moment_text(
                if nanos_since_1970(reading) < 0 {
                    0
                } else {
                    nanos_since_1970(reading) as nat
                },
            );
        assert(call_ensures(std::time::SystemTime::now, (), reading));
    }
}

/// A record takes the number that is next and leaves the one after it, which
/// is zero after the highest; a call without a record leaves the numbers
/// alone. Nothing else of the plugin changes.
pub proof fn numbers_go_up_by_one<G: Fn(&String, &String) -> bool>(
    plugin: AuditPlugin,
    tool_name: String,
    glob: G,
    number: Option<u64>,
    after: AuditPlugin,
)
    requires
        plugin.admits(tool_name, glob, number, after),
    ensures
        number matches Some(n) ==> n == plugin.next_sequence(),
        number is Some && plugin.next_sequence() < u64::MAX ==> after.next_sequence()
            == plugin.next_sequence() + 1,
        number is Some && plugin.next_sequence() == u64::MAX ==> after.next_sequence() == 0,
        number is None ==> after.next_sequence() == plugin.next_sequence(),
        after.configured() == plugin.configured(),
        after.presented() == plugin.presented(),
        after.is_shut_down() == plugin.is_shut_down(),
{
}

/// Which calls are recorded: without patterns all of them; with patterns a call
/// whose tool one of them matches, and no call whose tool none of them matches.
pub proof fn recorded_calls_match_the_filter<G: Fn(&String, &String) -> bool>(
    plugin: AuditPlugin,
    tool_name: String,
    glob: G,
    number: Option<u64>,
    after: AuditPlugin,
)
    requires
        plugin.admits(tool_name, glob, number, after),
    ensures
        plugin.configured().tools_filter is None ==> number is Some,
        plugin.configured().tools_filter is Some && number is Some ==> exists|i: int|
            0 <= i < plugin.configured().tools_filter->0@.len() && call_ensures(
                glob,
                (#[trigger] &plugin.configured().tools_filter->0@[i], &tool_name),
                true,
            ),
        plugin.configured().tools_filter is Some && number is None ==> forall|i: int|
            0 <= i < plugin.configured().tools_filter->0@.len() ==> call_ensures(
                glob,
                (#[trigger] &plugin.configured().tools_filter->0@[i], &tool_name),
                false,
            ),
{
}

/// The number of an outcome is that of its record, and there is one exactly if
/// there is a record.
pub proof fn outcomes_have_the_number_of_their_record(outcome: GateOutcome)
    ensures
        outcome.number() is Some <==> outcome.event is Some,
        outcome.event matches Some(event) ==> outcome.number() == Some(event.sequence),
{
}

} // verus!
