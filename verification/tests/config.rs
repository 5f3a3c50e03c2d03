use mcpg_plugin_observability_audit::config::{
    default_buffer_size, default_true, AuditConfig, AuditSinkConfig, SinkConfigError, SinkKind,
};
use mcpg_plugin_observability_audit::json::Json;
use mcpg_plugin_observability_audit::sinks::{record_line, FileSink, Sink, SinkError};

/// Reads a sink configuration the way a configuration file holds it.
fn parse(text: &str) -> Result<AuditSinkConfig, SinkConfigError> {
    let value: serde_json::Value = serde_json::from_str(text).unwrap();
    let mut kind = None;
    let mut options = Vec::new();
    for (key, value) in value.as_object().unwrap() {
        if key == "kind" {
            kind = SinkKind::from_name(value.as_str().unwrap());
        } else {
            options.push((key.clone(), leaf(value)));
        }
    }
    AuditSinkConfig::from_options(kind.expect("a known kind"), &options)
}

fn leaf(value: &serde_json::Value) -> Json {
    match value {
        serde_json::Value::String(s) => Json::String(s.clone()),
        serde_json::Value::Number(n) => Json::Number(n.clone()),
        _ => Json::Null,
    }
}

#[test]
fn retired_max_size_mb_error_explains_itself() {
    let err = parse(r#"{"kind":"file","path":"/x","max_size_mb":100}"#)
        .expect_err("retired key rejected");
    let msg = err.message();
    assert!(msg.contains("max_size_mb"), "names the key: {msg}");
    assert!(msg.contains("does not enforce a size limit"), "{msg}");
    assert!(msg.contains("never rotates"), "{msg}");
    assert!(msg.contains("rotation is external"), "{msg}");
}

#[test]
fn sink_config_rejects_unknown_keys_on_both_variants() {
    for json in [
        r#"{"kind":"stdout","max_size_mb":1}"#,
        r#"{"kind":"stdout","nonsense":1}"#,
        r#"{"kind":"file","path":"/x","nonsense":1}"#,
    ] {
        assert!(parse(json).is_err(), "must reject: {json}");
    }
}

#[test]
fn sink_config_accepts_the_supported_shapes() {
    assert_eq!(parse(r#"{"kind":"stdout"}"#).unwrap(), AuditSinkConfig::Stdout);
    assert_eq!(
        parse(r#"{"kind":"file","path":"/x"}"#).unwrap(),
        AuditSinkConfig::File {
            path: "/x".to_owned()
        }
    );
    // A file sink without a path is a hard error, not a silent stdout.
    assert!(parse(r#"{"kind":"file"}"#).is_err());
}

#[test]
fn each_refusal_has_its_input() {
    assert_eq!(parse(r#"{"kind":"file"}"#), Err(SinkConfigError::MissingPath));
    assert_eq!(
        parse(r#"{"kind":"file","path":1}"#),
        Err(SinkConfigError::PathNotString)
    );
    assert_eq!(
        parse(r#"{"kind":"stdout","max_size_mb":1}"#),
        Err(SinkConfigError::RetiredOption)
    );
    assert_eq!(
        parse(r#"{"kind":"stdout","path":"/x"}"#),
        Err(SinkConfigError::UnknownOption {
            key: "path".to_owned()
        })
    );
}

#[test]
fn retired_option_is_named_before_unknown_ones() {
    assert_eq!(
        parse(r#"{"kind":"file","path":"/x","aaa":1,"max_size_mb":1}"#),
        Err(SinkConfigError::RetiredOption)
    );
    assert_eq!(
        parse(r#"{"kind":"file","max_size_mb":1}"#),
        Err(SinkConfigError::MissingPath)
    );
}

#[test]
fn first_unknown_option_is_named() {
    let err = parse(r#"{"kind":"file","path":"/x","zeta":1,"beta":2}"#).unwrap_err();
    assert_eq!(err.message(), "unknown audit sink option `beta`");
}

#[test]
fn refusals_speak_to_the_operator() {
    assert_eq!(SinkConfigError::MissingPath.message(), "missing field `path`");
    assert_eq!(
        SinkConfigError::PathNotString.message(),
        "audit sink `path` must be a string"
    );
    assert_eq!(
        SinkConfigError::RetiredOption.message(),
        "audit sink option `max_size_mb` is no longer accepted: the file sink does not enforce \
         a size limit and never rotates `path`; rotation is external (`logrotate` or \
         equivalent). Remove the key and size-cap the file through the rotation tool instead"
    );
}

#[test]
fn kinds_by_name() {
    assert_eq!(SinkKind::from_name("stdout"), Some(SinkKind::Stdout));
    assert_eq!(SinkKind::from_name("file"), Some(SinkKind::File));
    assert_eq!(SinkKind::from_name("File"), None);
    assert_eq!(SinkKind::from_name(""), None);
}

#[test]
fn defaults_keep_payloads_private() {
    let config = AuditConfig::default();
    assert_eq!(config.sink, AuditSinkConfig::Stdout);
    assert!(!config.include_arguments);
    assert!(config.include_arguments_hash);
    assert!(!config.include_results);
    assert!(config.include_result_summary);
    assert!(config.include_result_meta);
    assert!(config.tools_filter.is_none());
    assert_eq!(config.buffer_size, 8192);
    assert!(default_true());
    assert_eq!(default_buffer_size(), 8192);
}

#[test]
fn capacity_is_at_least_one() {
    let config = AuditConfig {
        buffer_size: 0,
        ..Default::default()
    };
    assert_eq!(config.channel_capacity(), 1);
    let config = AuditConfig {
        buffer_size: 42,
        ..Default::default()
    };
    assert_eq!(config.channel_capacity(), 42);
}

#[test]
fn configured_sinks() {
    assert!(matches!(
        Sink::from_config(&AuditSinkConfig::Stdout),
        Sink::Stdout(_)
    ));
    match Sink::from_config(&AuditSinkConfig::File {
        path: "/var/log/audit.jsonl".to_owned(),
    }) {
        Sink::File(sink) => assert_eq!(sink.path(), "/var/log/audit.jsonl"),
        Sink::Stdout(_) => panic!("a file was asked for"),
    }
    assert_eq!(FileSink::new("/x".to_owned()).path(), "/x");
}

#[test]
fn one_record_one_line() {
    assert_eq!(record_line("{\"a\":1}"), "{\"a\":1}\n");
}

#[test]
fn sink_failures_in_words() {
    let cause = || "no space".to_owned();
    assert_eq!(
        SinkError::Serialize { cause: cause() }.message(),
        "failed to serialize audit event: no space"
    );
    assert_eq!(
        SinkError::WriteStdout { cause: cause() }.message(),
        "failed to write to stdout: no space"
    );
    assert_eq!(
        SinkError::OpenFile {
            path: "/x".to_owned(),
            cause: cause()
        }
        .message(),
        "failed to open audit file '/x': no space"
    );
    assert_eq!(
        SinkError::WriteFile { cause: cause() }.message(),
        "failed to write to audit file: no space"
    );
}
