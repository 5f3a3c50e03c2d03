use mcpg_plugin_observability_audit::config::{AuditConfig, AuditSinkConfig};
use mcpg_plugin_observability_audit::delivery::{
    counter_after_write, counters_after_offer, drain_step, Counter, DrainStep,
};
use mcpg_plugin_observability_audit::digest::digest_payload;
use mcpg_plugin_observability_audit::event::AuditEvent;
use mcpg_plugin_observability_audit::identity::{PluginContext, PluginIdentity};
use mcpg_plugin_observability_audit::json::Json;
use mcpg_plugin_observability_audit::json_text::to_value;
use mcpg_plugin_observability_audit::plugin::{
    outcome_after, outcome_before, AuditPlugin, GateDecision, PLUGIN_ID,
};
use mcpg_plugin_observability_audit::sinks::{write_record, AuditSink};

fn from_value(value: &serde_json::Value) -> Json {
    match value {
        serde_json::Value::Null => Json::Null,
        serde_json::Value::Bool(b) => Json::Bool(*b),
        serde_json::Value::Number(n) => Json::Number(n.clone()),
        serde_json::Value::String(s) => Json::String(s.clone()),
        serde_json::Value::Array(items) => Json::Array(items.iter().map(from_value).collect()),
        serde_json::Value::Object(members) => Json::Object(
            members
                .iter()
                .map(|(key, value)| (key.clone(), from_value(value)))
                .collect(),
        ),
    }
}

fn json(text: &str) -> Json {
    from_value(&serde_json::from_str(text).unwrap())
}

/// `*` stands for any characters, `?` for one.
fn glob_chars(pattern: &[char], name: &[char]) -> bool {
    match pattern.first() {
        None => name.is_empty(),
        Some('*') => {
            glob_chars(&pattern[1..], name) || (!name.is_empty() && glob_chars(pattern, &name[1..]))
        }
        Some(c) => {
            !name.is_empty()
                && (*c == '?' || *c == name[0])
                && glob_chars(&pattern[1..], &name[1..])
        }
    }
}

fn glob(pattern: &String, name: &String) -> bool {
    let pattern: Vec<char> = pattern.chars().collect();
    let name: Vec<char> = name.chars().collect();
    glob_chars(&pattern, &name)
}

/// Blots out what stands under two keys.
fn redact(value: &Json) -> Json {
    match value {
        Json::Object(entries) => Json::Object(
            entries
                .iter()
                .map(|(key, value)| {
                    if key == "Authorization" || key == "password" {
                        (key.clone(), Json::String("[redacted]".to_owned()))
                    } else {
                        (key.clone(), redact(value))
                    }
                })
                .collect(),
        ),
        Json::Array(items) => Json::Array(items.iter().map(redact).collect()),
        other => other.clone(),
    }
}

fn test_ctx(tool: &str) -> PluginContext {
    PluginContext {
        request_id: "req-test".to_owned(),
        session_id: Some("sess-test".to_owned()),
        tool_name: tool.to_owned(),
        surface: "tool".to_owned(),
        identity: PluginIdentity {
            kind: "verified".to_owned(),
            trust_level: "verified".to_owned(),
            subject_id: Some("user@test.com".to_owned()),
            auth_provider: Some("okta".to_owned()),
            issuer: Some("https://company.okta.com".to_owned()),
            roles: vec!["admin".to_owned()],
            groups: vec!["engineering".to_owned()],
            scopes: vec!["read".to_owned()],
        },
        transport: "http".to_owned(),
    }
}

#[test]
fn pre_dispatch_emits_event_and_returns_allow() {
    let mut plugin = AuditPlugin::new(AuditConfig::default());
    let ctx = test_ctx("get_user");
    let outcome = plugin.evaluate_pre(
        &ctx,
        &json(r#"{"q": "test"}"#),
        &glob,
        &redact,
    );
    assert!(outcome.decision.is_allow());

    let event = outcome.event.expect("an event");
    assert_eq!(event.version, "1.0");
    assert_eq!(event.phase, "pre_dispatch");
    assert_eq!(event.gate_decision, "allow");
    assert_eq!(event.request_id, "req-test");
    assert_eq!(event.session_id.as_deref(), Some("sess-test"));
    assert_eq!(event.tool_name, "get_user");
    assert_eq!(event.surface, "tool");
    assert_eq!(event.transport, "http");
    assert_eq!(event.identity.kind, "verified");
    assert_eq!(event.identity.trust_level, "verified");
    assert_eq!(event.identity.subject_id.as_deref(), Some("user@test.com"));
    assert_eq!(event.identity.auth_provider.as_deref(), Some("okta"));
    assert_eq!(
        event.identity.issuer.as_deref(),
        Some("https://company.okta.com")
    );
    assert_eq!(event.identity.roles, vec!["admin".to_owned()]);
    assert_eq!(event.identity.groups, vec!["engineering".to_owned()]);
    assert_eq!(event.identity.scopes, vec!["read".to_owned()]);
    assert_eq!(event.sequence, 0);
    assert_eq!(
        event.arguments_hash.as_deref(),
        Some("sha256:06baa80ce75e8021ef4596dccaa711dfb624f3f166a3d1eb80acf1f38ba484b6")
    );
    assert!(event.arguments.is_none());
    assert!(event.execution_duration_ms.is_none());
    assert!(event.result_summary.is_none());
    assert!(event.result.is_none());
    assert!(event.meta.is_none());
}

#[test]
fn post_dispatch_emits_event_with_duration() {
    let mut plugin = AuditPlugin::new(AuditConfig::default());
    let ctx = test_ctx("get_user");
    let tool_result =
        json(r#"{"content": [{"type": "text", "text": "ok"}], "isError": false}"#);
    let outcome = plugin.evaluate_post(
        &ctx,
        &json("{}"),
        &tool_result,
        42,
        &glob,
        &redact,
    );
    assert!(outcome.decision.is_allow());

    let event = outcome.event.expect("an event");
    assert_eq!(event.phase, "post_dispatch");
    assert_eq!(event.execution_duration_ms, Some(42));
    assert_eq!(
        event.arguments_hash.as_deref(),
        Some("sha256:44136fa355b3678a1146ad16f7e8649e94fb4fc21fe77e8310c060f61caaff8a")
    );
    let summary = event.result_summary.expect("a summary");
    assert!(!summary.is_error);
    assert_eq!(summary.content_count, 1);
    assert_eq!(summary.content_types, vec!["text".to_owned()]);
    assert!(event.result.is_none());
    assert!(event.meta.is_none());
}

#[test]
fn tool_filter_excludes_unmatched() {
    let config = AuditConfig {
        tools_filter: Some(vec!["audit.*".to_owned()]),
        ..Default::default()
    };
    let mut plugin = AuditPlugin::new(config);
    let ctx = test_ctx("other_tool");
    let outcome = plugin.evaluate_pre(&ctx, &json("{}"), &glob, &redact);
    assert!(outcome.decision.is_allow());
    assert!(outcome.event.is_none());
}

#[test]
fn arguments_hashed_not_raw_by_default() {
    let plugin = AuditPlugin::new(AuditConfig::default());
    assert!(plugin.config().include_arguments_hash);
    assert!(!plugin.config().include_arguments);
}

#[test]
fn hash_arguments_is_stable_under_redaction() {
    let plugin = AuditPlugin::new(AuditConfig::default());
    let a = json(r#"{"Authorization": "Bearer one"}"#);
    let b = json(r#"{"Authorization": "Bearer two"}"#);
    assert_eq!(
        plugin.hash_arguments(&a, &redact),
        plugin.hash_arguments(&b, &redact)
    );
    assert_eq!(
        plugin.hash_arguments(&a, &redact),
        "sha256:060696772a987eae68d83c650d69eed7e4ceb41a364d1a7d5c8bae008f07680f"
    );
}

#[test]
fn result_summary_construction() {
    let plugin = AuditPlugin::new(AuditConfig::default());
    let result = json(
        r#"{
            "content": [
                {"type": "text", "text": "hello"},
                {"type": "image", "data": "..."},
                {"type": "text", "text": "world"}
            ],
            "isError": false
        }"#,
    );
    let summary = plugin.build_result_summary(&result);
    assert!(!summary.is_error);
    assert_eq!(summary.content_count, 3);
    assert!(summary.content_types.contains(&"text".to_owned()));
    assert!(summary.content_types.contains(&"image".to_owned()));
}

#[test]
fn content_types_are_a_sorted_set() {
    let plugin = AuditPlugin::new(AuditConfig::default());
    let result = json(
        r#"{
            "content": [
                {"type": "text"}, {"type": "aé"}, {"type": "az"}, {"type": "text"},
                {"type": ""}, {"type": "tex"}, {"type": 7}, {"kind": "none"}, "text", null
            ],
            "isError": true
        }"#,
    );
    let summary = plugin.build_result_summary(&result);
    assert!(summary.is_error);
    assert_eq!(summary.content_count, 10);
    assert_eq!(summary.content_types, vec!["", "az", "a\u{e9}", "tex", "text"]);
    let mut sorted = summary.content_types.clone();
    sorted.sort();
    assert_eq!(summary.content_types, sorted);
}

#[test]
fn odd_results_have_summaries_too() {
    let plugin = AuditPlugin::new(AuditConfig::default());
    for text in [
        "null",
        "[]",
        r#"{"isError": "true"}"#,
        r#"{"content": "text"}"#,
        r#"{"content": {"type": "text"}}"#,
    ] {
        let summary = plugin.build_result_summary(&json(text));
        assert!(!summary.is_error, "{text}");
        assert_eq!(summary.content_count, 0, "{text}");
        assert!(summary.content_types.is_empty(), "{text}");
    }
}

#[test]
fn captured_payloads_are_redacted() {
    let config = AuditConfig {
        include_arguments: true,
        include_arguments_hash: false,
        include_results: true,
        include_result_summary: false,
        ..Default::default()
    };
    let mut plugin = AuditPlugin::new(config);
    let outcome = plugin.evaluate_post(
        &test_ctx("t"),
        &json(r#"{"password": "hunter2", "n": 1}"#),
        &json(r#"{"_meta": {"audit": {"driver": "postgres", "password": "hunter2"}, "x": 1}}"#),
        0,
        &glob,
        &redact,
    );
    let event = outcome.event.expect("an event");
    assert!(event.arguments_hash.is_none());
    assert!(event.result_summary.is_none());
    assert_eq!(
        event.arguments,
        Some(json(r#"{"password": "[redacted]", "n": 1}"#))
    );
    assert_eq!(
        event.result,
        Some(json(
            r#"{"_meta": {"audit": {"driver": "postgres", "password": "[redacted]"}, "x": 1}}"#
        ))
    );
    assert_eq!(
        event.meta,
        Some(json(r#"{"driver": "postgres", "password": "[redacted]"}"#))
    );
}

#[test]
fn result_meta_can_be_left_out() {
    let config = AuditConfig {
        include_result_meta: false,
        ..Default::default()
    };
    let mut plugin = AuditPlugin::new(config);
    let result = json(r#"{"_meta": {"audit": {"driver": "postgres"}}}"#);
    let outcome = plugin.evaluate_post(
        &test_ctx("t"),
        &Json::Null,
        &result,
        0,
        &glob,
        &redact,
    );
    assert!(outcome.event.expect("an event").meta.is_none());
}

#[test]
fn numbers_rise_without_gaps() {
    let config = AuditConfig {
        tools_filter: Some(vec!["orders.*".to_owned(), "admin?".to_owned()]),
        ..Default::default()
    };
    let mut plugin = AuditPlugin::new(config);
    let mut numbers = Vec::new();
    for tool in ["orders.list", "other", "admin1", "admin", "orders."] {
        let ctx = test_ctx(tool);
        let pre = plugin.evaluate_pre(&ctx, &Json::Null, &glob, &redact);
        let post = plugin.evaluate_post(
            &ctx,
            &Json::Null,
            &Json::Null,
            1,
            &glob,
            &redact,
        );
        assert!(pre.decision.is_allow());
        assert!(post.decision.is_allow());
        if let (Some(pre), Some(post)) = (&pre.event, &post.event) {
            assert_eq!(pre.request_id, post.request_id);
            assert_ne!(pre.phase, post.phase);
            assert_ne!(pre.event_id, post.event_id);
        }
        numbers.push((pre.event.map(|e| e.sequence), post.event.map(|e| e.sequence)));
    }
    assert_eq!(
        numbers,
        vec![
            (Some(0), Some(1)),
            (None, None),
            (Some(2), Some(3)),
            (None, None),
            (Some(4), Some(5)),
        ]
    );
}

#[test]
fn filters_audit_all_some_or_none() {
    let audited = |filter: Option<Vec<String>>, tool: &str| {
        let plugin = AuditPlugin::new(AuditConfig {
            tools_filter: filter,
            ..Default::default()
        });
        plugin.should_audit(&tool.to_owned(), &glob)
    };
    assert!(audited(None, "anything"));
    assert!(!audited(Some(Vec::new()), "anything"));
    assert!(audited(Some(vec!["x".to_owned(), "any*".to_owned()]), "anything"));
    assert!(!audited(Some(vec!["x".to_owned(), "y*".to_owned()]), "anything"));
}

#[test]
fn digests_go_over_key_sorted_text() {
    let expected = "sha256:2b17dbb943a384f260055340e29e19cac67ff4e7809a9aa4107a85f9e2dee691";
    let sorted = json(r#"{"a":[true,null,"x\"y\n"],"b":-1.5}"#);
    assert_eq!(digest_payload(&sorted), expected);
    let unsorted = match sorted {
        Json::Object(mut entries) => {
            entries.reverse();
            Json::Object(entries)
        }
        other => other,
    };
    assert_eq!(digest_payload(&unsorted), expected);
    assert_eq!(expected.len(), 71);
}

#[test]
fn later_entries_replace_earlier_ones() {
    let twice = Json::Object(vec![
        ("q".to_owned(), Json::Bool(true)),
        ("q".to_owned(), Json::String("test".to_owned())),
    ]);
    assert_eq!(twice.get("q").and_then(|v| v.as_str()), Some("test"));
    assert!(twice.get("r").is_none());
    assert!(Json::Null.get("q").is_none());
    assert_eq!(
        digest_payload(&twice),
        "sha256:06baa80ce75e8021ef4596dccaa711dfb624f3f166a3d1eb80acf1f38ba484b6"
    );
}

#[test]
fn event_ids_are_version_7_uuids() {
    let mut plugin = AuditPlugin::new(AuditConfig::default());
    let mut ids = Vec::new();
    for _ in 0..3 {
        let outcome = plugin.evaluate_pre(
            &test_ctx("t"),
            &Json::Null,
            &glob,
            &redact,
        );
        ids.push(outcome.event.expect("an event").event_id);
    }
    for id in &ids {
        assert_eq!(id.len(), 36);
        for (i, c) in id.chars().enumerate() {
            match i {
                8 | 13 | 18 | 23 => assert_eq!(c, '-'),
                14 => assert_eq!(c, '7'),
                19 => assert!("89ab".contains(c)),
                _ => assert!(c.is_ascii_digit() || ('a'..='f').contains(&c)),
            }
        }
    }
    assert!(ids[0] < ids[1] && ids[1] < ids[2]);
}

#[test]
fn manifest_presents_a_tool_gate() {
    let plugin = AuditPlugin::new(AuditConfig::default());
    let manifest = plugin.manifest();
    assert_eq!(manifest.id, "dev.mcpg.audit");
    assert_eq!(manifest.id, PLUGIN_ID);
    assert_eq!(manifest.name, "Audit Log");
    assert_eq!(manifest.protocol_version, "1.0");
    assert!(manifest.required_capabilities.is_empty());
    assert_eq!(manifest.module_path_prefix, "mcpg_plugin_observability_audit");
}

#[test]
fn plugin_offers_capacity_and_sink() {
    let plugin = AuditPlugin::new(AuditConfig {
        buffer_size: 0,
        sink: AuditSinkConfig::File {
            path: "/x".to_owned(),
        },
        ..Default::default()
    });
    assert_eq!(plugin.channel_capacity(), 1);
    match plugin.sink() {
        mcpg_plugin_observability_audit::sinks::Sink::File(sink) => assert_eq!(sink.path(), "/x"),
        mcpg_plugin_observability_audit::sinks::Sink::Stdout(_) => panic!("a file was asked for"),
    }
}

#[test]
fn decisions() {
    assert!(GateDecision::allow().is_allow());
    assert!(!GateDecision::Deny.is_allow());
}

#[test]
fn dropped_records_are_counted_twice_over() {
    assert_eq!(counters_after_offer(true), vec![Counter::Events]);
    assert_eq!(
        counters_after_offer(false),
        vec![Counter::EventsDropped, Counter::Events]
    );
    assert_eq!(Counter::Events.name(), "mcpg_audit_events_total");
    assert_eq!(
        Counter::EventsDropped.name(),
        "mcpg_audit_events_dropped_total"
    );
    assert_eq!(
        Counter::SinkWriteErrors.name(),
        "mcpg_audit_sink_write_errors_total"
    );
}

struct Jammed;

impl AuditSink for Jammed {
    fn emit(&self, event: &AuditEvent) -> Result<(), String> {
        if event.sequence == 0 {
            Err("jammed".to_owned())
        } else {
            Ok(())
        }
    }
}

#[test]
fn failed_writes_are_counted() {
    let mut plugin = AuditPlugin::new(AuditConfig::default());
    let mut next = || {
        plugin
            .evaluate_pre(
                &test_ctx("t"),
                &Json::Null,
                &glob,
                &redact,
            )
            .event
            .expect("an event")
    };
    let report = write_record(&Jammed, &next());
    assert_eq!(report.outcome, Err("jammed".to_owned()));
    assert_eq!(report.counter, Some(Counter::SinkWriteErrors));
    let report = write_record(&Jammed, &next());
    assert_eq!(report.outcome, Ok(()));
    assert_eq!(report.counter, None);
    assert_eq!(counter_after_write(true), None);
}

#[test]
fn error_counter_stands_at_the_number_of_failed_writes() {
    let mut errors: usize = 0;
    for written in [true, false, false, true, false] {
        if counter_after_write(written) == Some(Counter::SinkWriteErrors) {
            errors += 1;
        }
    }
    assert_eq!(errors, 3);
}

#[test]
fn shutdown_waits_once_and_at_most_a_second() {
    let mut plugin = AuditPlugin::new(AuditConfig::default());
    assert!(plugin.begin_shutdown());
    assert!(!plugin.begin_shutdown());
    assert_eq!(drain_step(false, 0), DrainStep::Wait { ms: 10 });
    assert_eq!(drain_step(false, 990), DrainStep::Wait { ms: 10 });
    assert_eq!(drain_step(false, 991), DrainStep::Wait { ms: 9 });
    assert_eq!(drain_step(false, 999), DrainStep::Wait { ms: 1 });
    assert_eq!(drain_step(false, 1000), DrainStep::Done);
    assert_eq!(drain_step(true, 0), DrainStep::Done);
}

#[test]
fn records_of_a_call_hold_the_same_arguments() {
    let config = AuditConfig {
        include_arguments: true,
        ..Default::default()
    };
    let mut plugin = AuditPlugin::new(config);
    let ctx = test_ctx("get_user");
    let arguments = json(r#"{"q": "test", "password": "hunter2"}"#);
    let before = plugin
        .evaluate_pre(&ctx, &arguments, &glob, &redact)
        .event
        .expect("an event");
    let after = plugin
        .evaluate_post(&ctx, &arguments, &json("{}"), 5, &glob, &redact)
        .event
        .expect("an event");
    assert_eq!(before.phase, "pre_dispatch");
    assert_eq!(after.phase, "post_dispatch");
    assert_eq!(before.request_id, after.request_id);
    assert_eq!(before.identity.subject_id, after.identity.subject_id);
    assert_eq!(before.identity.roles, after.identity.roles);
    assert_eq!(before.arguments_hash, after.arguments_hash);
    let expected: serde_json::Value =
        serde_json::from_str(r#"{"q": "test", "password": "[redacted]"}"#).unwrap();
    assert_eq!(before.arguments.as_ref().map(to_value), Some(expected.clone()));
    assert_eq!(after.arguments.as_ref().map(to_value), Some(expected));
    assert_eq!(after.sequence, before.sequence + 1);
}

#[test]
fn results_with_one_summary_and_meta_look_the_same() {
    let results = [
        r#"{"content": [{"type": "text", "text": "one"}],
            "_meta": {"audit": {"password": "a", "rows": 3}}}"#,
        r#"{"content": [{"type": "text", "text": "two"}], "extra": 1,
            "_meta": {"audit": {"password": "b", "rows": 3}, "other": true}}"#,
    ];
    let events: Vec<AuditEvent> = results
        .iter()
        .map(|result| {
            AuditPlugin::new(AuditConfig::default())
                .evaluate_post(
                    &test_ctx("get_user"),
                    &json(r#"{"q": "test"}"#),
                    &json(result),
                    7,
                    &glob,
                    &redact,
                )
                .event
                .expect("an event")
        })
        .collect();
    let (a, b) = (&events[0], &events[1]);
    assert_eq!(a.version, b.version);
    assert_eq!(a.phase, b.phase);
    assert_eq!(a.request_id, b.request_id);
    assert_eq!(a.arguments_hash, b.arguments_hash);
    assert!(a.arguments.is_none() && b.arguments.is_none());
    assert_eq!(a.execution_duration_ms, b.execution_duration_ms);
    let summaries: Vec<(bool, usize, Vec<String>)> = events
        .iter()
        .map(|event| {
            let summary = event.result_summary.as_ref().expect("a summary");
            (summary.is_error, summary.content_count, summary.content_types.clone())
        })
        .collect();
    assert_eq!(summaries[0], (false, 1, vec!["text".to_owned()]));
    assert_eq!(summaries[0], summaries[1]);
    assert!(a.result.is_none() && b.result.is_none());
    let expected: serde_json::Value =
        serde_json::from_str(r#"{"password": "[redacted]", "rows": 3}"#).unwrap();
    assert_eq!(a.meta.as_ref().map(to_value), Some(expected.clone()));
    assert_eq!(b.meta.as_ref().map(to_value), Some(expected));
    assert_eq!(a.gate_decision, b.gate_decision);
    assert_eq!(a.sequence, b.sequence);
}

#[test]
fn records_can_be_made_apart_from_their_numbers() {
    let config = AuditConfig {
        tools_filter: Some(vec!["orders.*".to_owned()]),
        ..Default::default()
    };
    let mut plugin = AuditPlugin::new(config.clone());
    let ctx = test_ctx("orders.list");
    assert_eq!(plugin.take_number(&"other".to_owned(), &glob), None);
    let first = plugin.take_number(&ctx.tool_name, &glob);
    let second = plugin.take_number(&ctx.tool_name, &glob);
    assert_eq!((first, second), (Some(0), Some(1)));

    let after = outcome_after(&config, &ctx, &Json::Null, &Json::Null, 9, &redact, second);
    let before = outcome_before(&config, &ctx, &Json::Null, &redact, first);
    assert!(after.decision.is_allow());
    assert!(before.decision.is_allow());
    let after = after.event.expect("an event");
    let before = before.event.expect("an event");
    assert_eq!((after.phase, after.sequence), ("post_dispatch", 1));
    assert_eq!(after.execution_duration_ms, Some(9));
    assert_eq!((before.phase, before.sequence), ("pre_dispatch", 0));
    assert_eq!(before.execution_duration_ms, None);

    let none = outcome_before(&config, &ctx, &Json::Null, &redact, None);
    assert!(none.decision.is_allow());
    assert!(none.event.is_none());
    let none = outcome_after(&config, &ctx, &Json::Null, &Json::Null, 9, &redact, None);
    assert!(none.decision.is_allow());
    assert!(none.event.is_none());
}

#[test]
fn payloads_as_serde_json_values() {
    let text = r#"{"a": [null, true, -3, 1.5, "x"], "b": {"c": {}, "d": []}}"#;
    let value: serde_json::Value = serde_json::from_str(text).unwrap();
    assert_eq!(to_value(&json(text)), value);
    let twice = Json::Object(vec![
        ("q".to_owned(), Json::Bool(true)),
        ("q".to_owned(), Json::Null),
    ]);
    let expected: serde_json::Value = serde_json::from_str(r#"{"q": null}"#).unwrap();
    assert_eq!(to_value(&twice), expected);
}
