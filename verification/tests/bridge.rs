//! What crosses to the frontend: events, errors, the health of the host, and what must not be shown.
use mutsuki_tauri_host::bridge::{
    redact_log_record, scalars_to_json, BridgeError, FrontendError, FrontendLogRecord,
    PluginSummary, RunnerSummary,
};
use mutsuki_tauri_host::bridge::ApprovalDecision;
use mutsuki_tauri_host::contracts::{
    HostTaskSnapshot, RuntimeError, RuntimeEvent, RuntimeEventKind, ScalarValue, TaskStatus,
};
use mutsuki_tauri_host::error::HostError;
use mutsuki_tauri_host::events::{
    answer, frontend_event_for_runtime_event, seal, task_event_id, EventHub, MutsukiFrontendEvent,
};
use mutsuki_tauri_host::health::{
    current_timestamp_ms, failed_runtime_health, runtime_health_from_snapshots, HostHealthState,
    RECENT_ERROR_LIMIT,
};
use mutsuki_tauri_host::json::{JsonMember, JsonNumber, JsonValue};
use mutsuki_tauri_host::ordered_map::{Entry, OrderedMap};
use mutsuki_tauri_host::redact::{
    is_sensitive_key, redact_json_value, redact_message, redact_runtime_event, redact_scalar_fields,
};
use mutsuki_tauri_host::resource::error::ResourceBridgeError;
use mutsuki_tauri_host::text::{decimal_text, text_contains, text_ends_with, text_eq, text_less};

fn runner_event(index: usize) -> MutsukiFrontendEvent {
    MutsukiFrontendEvent::Runner {
        runner_id: format!("runner:{index}"),
        status: "running".to_string(),
    }
}

fn json_text(text: &str) -> JsonValue {
    JsonValue::String(text.to_string())
}

fn member(key: &str, value: JsonValue) -> JsonMember {
    JsonMember {
        key: key.to_string(),
        value,
    }
}

#[test]
fn emit_batch_uses_one_bounded_hub_message_for_multiple_frontend_events() {
    let mut hub = EventHub::new(4);
    let mut receiver = hub.subscribe();
    let payloads = (0..3).map(runner_event).collect();

    hub.emit_batch(payloads).expect("batch emits");

    let envelope = receiver.try_recv().expect("one batch envelope");
    assert!(matches!(
        envelope.payload,
        MutsukiFrontendEvent::Batch { events } if events.len() == 3
    ));
    assert!(receiver.try_recv().is_err());
}

#[test]
fn a_hub_numbers_events_even_where_nobody_listens() {
    let mut hub = EventHub::new(0);
    assert_eq!(hub.emit(runner_event(0)), Err(BridgeError::NoEventReceiver));
    let mut first = hub.subscribe();
    let mut second = hub.subscribe();
    let told = hub.emit(runner_event(1)).unwrap();
    assert_eq!(told.sequence, 2);
    assert_eq!(told.channel, "mutsuki://runner/event");
    assert_eq!(first.try_recv().unwrap(), told);
    assert_eq!(second.try_recv().unwrap(), told);
    assert_eq!(hub.emit_batch(Vec::new()), Ok(None));
    let single = hub.emit_batch(vec![runner_event(2)]).unwrap().unwrap();
    assert_eq!(single.sequence, 3);
    assert_eq!(single.payload, runner_event(2));
}

#[test]
fn an_event_is_sealed_before_it_is_sent() {
    let envelope = seal(6, runner_event(1));
    assert_eq!(envelope.sequence, 7);
    assert_eq!(envelope.channel, "mutsuki://runner/event");
    assert_eq!(envelope.payload, runner_event(1));
    assert_eq!(seal(u64::MAX, runner_event(1)).sequence, 0);
    assert_eq!(answer(envelope.clone(), Ok(2)), Ok(envelope.clone()));
    assert_eq!(
        answer(envelope.clone(), Err(envelope)),
        Err(BridgeError::NoEventReceiver)
    );
}

#[test]
fn events_are_numbered_whether_or_not_somebody_listens() {
    let mut hub = EventHub::new(8);
    assert!(hub.emit(runner_event(1)).is_err());
    let mut receiver = hub.subscribe();
    assert_eq!(hub.emit(runner_event(2)).unwrap().sequence, 2);
    assert_eq!(hub.emit(runner_event(3)).unwrap().sequence, 3);
    assert_eq!(receiver.try_recv().unwrap().payload, runner_event(2));
    assert_eq!(receiver.try_recv().unwrap().payload, runner_event(3));
    drop(receiver);
    assert!(hub.emit(runner_event(4)).is_err());
    let _receiver = hub.subscribe();
    assert_eq!(hub.emit(runner_event(5)).unwrap().sequence, 5);
}

#[test]
fn a_listener_starts_behind_the_events_told_before() {
    let mut hub = EventHub::new(4);
    let mut early = hub.subscribe();
    let before = hub.emit(runner_event(0)).unwrap();
    let mut late = hub.subscribe();
    assert!(late.try_recv().is_err());
    let after = hub.emit(runner_event(1)).unwrap();
    assert_eq!(late.try_recv().unwrap(), after);
    assert!(late.try_recv().is_err());
    assert_eq!(early.try_recv().unwrap(), before);
    assert_eq!(early.try_recv().unwrap(), after);
}

#[test]
fn sensitive_keys_are_recognised() {
    for key in [
        "token",
        "access_TOKEN",
        "clientSecret",
        "Password",
        "credentials",
        "api_key",
        "APIKEY",
        "Authorization",
    ] {
        assert!(is_sensitive_key(key), "{key}");
    }
    for key in ["visible", "tok", "keys", "author", ""] {
        assert!(!is_sensitive_key(key), "{key}");
    }
}

#[test]
fn messages_with_secrets_are_not_shown() {
    assert_eq!(redact_message("all well".to_string()), "all well");
    let shown = redact_message("the token=abc was used".to_string());
    assert!(!shown.contains("abc"));
}

#[test]
fn values_are_hidden_at_every_depth() {
    let value = JsonValue::Array(vec![JsonValue::Object(vec![
        member("secret", JsonValue::Number(JsonNumber::Unsigned(1))),
        member(
            "open",
            JsonValue::Object(vec![
                member("password", JsonValue::Null),
                member("count", JsonValue::Number(JsonNumber::Negative(-3))),
            ]),
        ),
    ])]);
    let shown = redact_json_value(value);
    assert_eq!(
        shown,
        JsonValue::Array(vec![JsonValue::Object(vec![
            member("secret", json_text("[redacted]")),
            member(
                "open",
                JsonValue::Object(vec![
                    member("password", json_text("[redacted]")),
                    member("count", JsonValue::Number(JsonNumber::Negative(-3))),
                ]),
            ),
        ])])
    );
    let again = redact_json_value(shown.clone());
    assert_eq!(again, shown);
}

#[test]
fn events_are_hidden_with_the_errors_they_carry() {
    let mut attributes = OrderedMap::new();
    attributes.insert("token".to_string(), ScalarValue::Int(5));
    attributes.insert("size".to_string(), ScalarValue::Int(6));
    let mut inner = RuntimeError::with_evidence("inner", "s", "r", "password", "hush");
    inner.recovery = Some("retry".to_string());
    let mut error = RuntimeError::with_evidence("outer", "s", "r", "api_key", "hush");
    error.cause = Some(Box::new(inner));
    let event = RuntimeEvent {
        sequence: 4,
        kind: RuntimeEventKind::Other("runtime".to_string()),
        name: "n".to_string(),
        subject_id: None,
        attributes,
        error: Some(error),
    };
    let shown = redact_runtime_event(event);
    assert_eq!(
        shown.attributes.get("token"),
        Some(&ScalarValue::String("[redacted]".to_string()))
    );
    assert_eq!(shown.attributes.get("size"), Some(&ScalarValue::Int(6)));
    assert!(!format!("{shown:?}").contains("hush"));
    assert_eq!(task_event_id(&shown), None);
    let told = frontend_event_for_runtime_event(shown);
    assert_eq!(told.channel(), "mutsuki://runtime/event");
}

#[test]
fn plain_scalars_are_kept() {
    let mut fields = OrderedMap::new();
    fields.insert("a".to_string(), ScalarValue::Bool(true));
    fields.insert("b".to_string(), ScalarValue::Null);
    fields.insert("c".to_string(), ScalarValue::String("x".to_string()));
    let shown = redact_scalar_fields(fields);
    assert_eq!(shown.get("a"), Some(&ScalarValue::Bool(true)));
    assert_eq!(
        scalars_to_json(&shown),
        JsonValue::Object(vec![
            member("a", JsonValue::Bool(true)),
            member("b", JsonValue::Null),
            member("c", json_text("x")),
        ])
    );
}

#[test]
fn log_lines_keep_what_may_be_shown() {
    let mut fields = OrderedMap::new();
    fields.insert("credential".to_string(), json_text("hush"));
    let record = redact_log_record(FrontendLogRecord {
        level: "warn".to_string(),
        target: "t".to_string(),
        message: "m".to_string(),
        timestamp_ms: 3,
        trace_id: Some("trace".to_string()),
        correlation_id: None,
        fields,
    });
    assert_eq!(record.level, "warn");
    assert_eq!(record.message, "m");
    assert_eq!(record.trace_id.as_deref(), Some("trace"));
    assert_eq!(record.fields.get("credential"), Some(&json_text("[redacted]")));
}

#[test]
fn every_event_has_its_channel() {
    let event = RuntimeEvent {
        sequence: 1,
        kind: RuntimeEventKind::Task,
        name: "n".to_string(),
        subject_id: Some("task".to_string()),
        attributes: OrderedMap::new(),
        error: None,
    };
    let told = frontend_event_for_runtime_event(event);
    assert_eq!(told.channel(), "mutsuki://task/event");
    let batch = MutsukiFrontendEvent::Batch { events: vec![told] };
    assert_eq!(batch.channel(), "mutsuki://event/batch");
    let gap = MutsukiFrontendEvent::ObservabilityGap {
        stream: "trace".to_string(),
        lost: 1,
        dropped: 0,
    };
    assert_eq!(gap.channel(), "mutsuki://observe/gap");
    assert_eq!(batch.clone(), batch);
}

#[test]
fn host_errors_are_shown_under_their_codes() {
    let shown = |error: HostError| {
        let shown = FrontendError::from(error);
        (shown.code, shown.message)
    };
    let text = |text: &str| text.to_string();
    assert_eq!(
        shown(HostError::Runtime(text("m"))),
        (text("runtime.failed"), text("m"))
    );
    assert_eq!(
        shown(HostError::Resource(text("m"))),
        (text("resource.failed"), text("m"))
    );
    assert_eq!(
        shown(HostError::Approval(text("m"))),
        (text("approval.failed"), text("m"))
    );
    assert_eq!(
        shown(HostError::Config(text("m"))),
        (text("config.failed"), text("m"))
    );
    assert_eq!(
        shown(HostError::Unsupported(text("m"))),
        (text("unsupported"), text("m"))
    );
    let error = HostError::from(RuntimeError::new("code", "source", "route"));
    assert_eq!(error.message(), "code at route");
    assert_eq!(FrontendError::from(error).code, "code");
    assert_eq!(
        HostError::from(ResourceBridgeError::Io(text("disk"))),
        HostError::Resource(text("io error: disk"))
    );
    let plain = FrontendError::new(text("c"), text("m")).with_details(JsonValue::Null);
    assert_eq!(plain.details, Some(JsonValue::Null));
    assert_eq!(ApprovalDecision::Allow.as_str(), "allow");
    assert_eq!(ApprovalDecision::Deny.as_str(), "deny");
}

#[test]
fn only_the_newest_errors_are_remembered() {
    let mut health = HostHealthState::new();
    for index in 0..RECENT_ERROR_LIMIT + 5 {
        health.record_host_error("s", &format!("e{index}"), index as i64);
    }
    let errors = health.recent_errors();
    assert_eq!(errors.len(), RECENT_ERROR_LIMIT);
    assert_eq!(errors[0].message, "e5");
    assert_eq!(errors[RECENT_ERROR_LIMIT - 1].message, "e24");
    health.record_runtime_probe_error("silent", 1);
    assert_eq!(
        health.recent_errors()[RECENT_ERROR_LIMIT - 1].source,
        "mutsuki_tauri_host.runtime"
    );
}

#[test]
fn what_failed_to_load_is_remembered() {
    let mut health = HostHealthState::new();
    let plugins = vec![PluginSummary {
        plugin_id: "p".to_string(),
        version: "1".to_string(),
        enabled: false,
        deployment: "process".to_string(),
        status: "failed".to_string(),
        error: None,
    }];
    let runners = vec![RunnerSummary {
        runner_id: "r".to_string(),
        plugin_id: "p".to_string(),
        enabled: false,
        deployment: "process".to_string(),
        status: "failed".to_string(),
        error: Some("why".to_string()),
    }];
    health.record_summary_failures(&plugins, &runners, 1);
    let errors = health.recent_errors();
    assert_eq!(errors[0].message, "plugin load failed");
    assert_eq!(errors[1].message, "why");
    assert_eq!(health.runner_failure("r").unwrap().message(), "why");
    assert!(health.runner_failure("other").is_none());
}

#[test]
fn a_runtime_is_judged_by_its_tasks() {
    let snapshot = |status| HostTaskSnapshot {
        task_id: "t".to_string(),
        protocol_id: "p".to_string(),
        status,
        trace_id: None,
        correlation_id: None,
    };
    let health = runtime_health_from_snapshots(&vec![
        snapshot(TaskStatus::Running),
        snapshot(TaskStatus::Waiting),
        snapshot(TaskStatus::Completed),
        snapshot(TaskStatus::Expired),
        snapshot(TaskStatus::DeadLetter),
        snapshot(TaskStatus::Cancelled),
        snapshot(TaskStatus::Failed),
    ]);
    assert!(health.healthy);
    assert_eq!(health.status, "running");
    assert_eq!(health.active_tasks, 2);
    assert_eq!(health.failed_tasks, 3);
    let failed = failed_runtime_health("gone".to_string());
    assert!(!failed.healthy);
    assert_eq!(failed.error.as_deref(), Some("gone"));
}

#[test]
fn a_clock_shows_whole_milliseconds() {
    assert_eq!(current_timestamp_ms(None), 0);
    assert_eq!(current_timestamp_ms(Some(1_999_999)), 1);
    assert_eq!(current_timestamp_ms(Some(u128::MAX)), i64::MAX);
}

#[test]
fn a_map_is_walked_in_the_order_of_its_keys() {
    let mut map = OrderedMap::new();
    assert_eq!(map.insert("b".to_string(), 1), None);
    assert_eq!(map.insert("a".to_string(), 2), None);
    assert_eq!(map.insert("b".to_string(), 3), Some(1));
    assert_eq!(map.len(), 2);
    assert_eq!(map.key_at(0), "a");
    assert_eq!(*map.value_at(1), 3);
    assert!(map.contains_key("b"));
    assert_eq!(map.remove("a"), Some(2));
    assert_eq!(map.remove("a"), None);
    assert_eq!(map.get("b"), Some(&3));
    let entries = map.into_entries();
    assert_eq!(
        entries,
        [Entry {
            key: "b".to_string(),
            value: 3
        }]
    );
    let rebuilt = OrderedMap::from_entries(entries);
    assert_eq!(rebuilt.get("b"), Some(&3));
    assert_eq!(rebuilt.clone().len(), 1);
}

#[test]
fn texts_are_compared_by_their_characters() {
    assert!(text_less("a", "ab"));
    assert!(text_less("Z", "a"));
    assert!(!text_less("a", "a"));
    assert!(text_less("a\u{e9}", "b"));
    assert!(text_eq("x", "x"));
    assert!(!text_eq("x", "xy"));
    assert!(text_contains("hello", "ell"));
    assert!(text_contains("hello", ""));
    assert!(!text_contains("hello", "lol"));
    assert!(text_ends_with("x.localhost", ".localhost"));
    assert!(!text_ends_with("host", ".localhost"));
    assert_eq!(decimal_text(0), "0");
    assert_eq!(decimal_text(u64::MAX), "18446744073709551615");
}
