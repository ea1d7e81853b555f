//! Deliveries to other apps, driven against the transport in memory on a clock of their own.
use mutsuki_tauri_host::app_delivery::activator::ProcessAppActivator;
use mutsuki_tauri_host::app_delivery::delivery::{
    after_connect, before_connect, AppDeliveryService, DeliveryAction, DeliveryEvent, EndpointPoll,
};
use mutsuki_tauri_host::app_delivery::draft::{now_unix_ms, DeliveryDraft, DeliveryDraftStore};
use mutsuki_tauri_host::app_delivery::endpoint::{
    after_receive, after_send, connect_failure, poll_link_capability, receive_failure,
    send_failure, session_from_handshake, AppCapabilityEndpoint, EndpointDecision, LinkError,
    LinkErrorKind, LinkStep,
};
use mutsuki_tauri_host::app_delivery::operation_history::{
    OperationHistory, OperationHistoryPolicy,
};
use mutsuki_tauri_host::app_delivery::transport::{AppLinkSession, InMemoryAppLinkTransport};
use mutsuki_tauri_host::app_delivery::types::{
    ActivationError, AppDeliveryError, AppDeliveryOptions, AppDescriptor, AppId, AppIdentity,
    CapabilityDescriptor, CapabilityRequestEnvelope, DeliveryPhase, DeliveryReceipt,
    RejectionReason, HOST_PROTOCOL_VERSION,
};

const MILLI: u128 = 1_000_000;

fn app(name: &str) -> AppId {
    AppId::new(name.to_string()).unwrap()
}

fn source_identity() -> AppIdentity {
    AppIdentity {
        app_id: app("lilia.github"),
        instance_id: "source-1".to_string(),
    }
}

fn capability() -> CapabilityDescriptor {
    CapabilityDescriptor::new("lilia.code.task.accept".to_string(), 1, 1)
}

fn options_with_id(request_id: &str) -> AppDeliveryOptions {
    AppDeliveryOptions {
        request_id: Some(request_id.to_string()),
        ..AppDeliveryOptions::default()
    }
}

fn object(key: &str, value: serde_json::Value) -> serde_json::Value {
    let mut members = serde_json::Map::new();
    members.insert(key.to_string(), value);
    serde_json::Value::Object(members)
}

fn empty_object() -> serde_json::Value {
    serde_json::Value::Object(serde_json::Map::new())
}

fn service() -> AppDeliveryService {
    AppDeliveryService::new(source_identity(), DeliveryDraftStore::memory())
}

/// Carries a delivery through. `activate` starts the target; every look at the transport takes ten
/// milliseconds.
fn deliver<F>(
    service: &mut AppDeliveryService,
    transport: &mut InMemoryAppLinkTransport,
    activator: &ProcessAppActivator,
    mut activate: F,
    target: AppId,
    payload: serde_json::Value,
    options: AppDeliveryOptions,
) -> Result<DeliveryReceipt, AppDeliveryError>
where
    F: FnMut(&AppDescriptor, &mut InMemoryAppLinkTransport) -> Result<(), ActivationError>,
{
    let ready_timeout_ns = options.ready_timeout_ns;
    let (mut run, mut step) = service.request_app(target, capability(), payload, options);
    loop {
        if let Some(draft) = step.draft.take() {
            assert!(service.keep_draft(draft, true));
        }
        let event = match step.action {
            DeliveryAction::TryConnect => {
                DeliveryEvent::Connected(transport.try_connect(&run.target))
            }
            DeliveryAction::Activate => {
                let started = match activator.resolve(&run.target) {
                    Ok(descriptor) => activate(&descriptor, transport),
                    Err(error) => Err(error),
                };
                DeliveryEvent::Activated(started)
            }
            DeliveryAction::WaitForEndpoint => {
                let mut elapsed_ns = 0;
                let awaited = loop {
                    assert!(before_connect(false).is_none());
                    let attempt = transport.try_connect(&run.target);
                    match after_connect(attempt, elapsed_ns, ready_timeout_ns) {
                        EndpointPoll::Finish(result) => break result,
                        EndpointPoll::Pause => elapsed_ns += 10 * MILLI,
                    }
                };
                DeliveryEvent::EndpointAwaited(awaited)
            }
            DeliveryAction::WaitForCapability => {
                let session = run.session.as_ref().unwrap();
                let mut elapsed_ns = 0;
                let awaited = loop {
                    let answer = transport.poll_capability_ready(
                        session,
                        &run.envelope.capability,
                        elapsed_ns,
                        ready_timeout_ns,
                    );
                    match answer {
                        Some(result) => break result,
                        None => elapsed_ns += 10 * MILLI,
                    }
                };
                DeliveryEvent::CapabilityAwaited(awaited)
            }
            DeliveryAction::Transmit => {
                let session = run.session.as_ref().unwrap();
                DeliveryEvent::Transmitted(Some(transport.transmit(session, &run.envelope)))
            }
            DeliveryAction::QueryReceipt => {
                let session = run.session.as_ref().unwrap();
                DeliveryEvent::Queried(transport.query_receipt(session, &run.envelope.request_id))
            }
            DeliveryAction::Finish(result) => return result,
        };
        step = service.advance(&mut run, event, 1_700_000_000_000);
    }
}

fn no_activation(
    _: &AppDescriptor,
    _: &mut InMemoryAppLinkTransport,
) -> Result<(), ActivationError> {
    panic!("nothing is to be started")
}

#[test]
fn keeps_active_entries_and_bounds_terminal_history() {
    let mut history = OperationHistory::new(OperationHistoryPolicy {
        max_terminal_entries: 2,
    });
    history.record("a".to_string(), DeliveryPhase::Connecting);
    history.record("b".to_string(), DeliveryPhase::Connecting);
    history.record("a".to_string(), DeliveryPhase::Accepted);
    history.record("b".to_string(), DeliveryPhase::Completed);
    history.record("c".to_string(), DeliveryPhase::DeliveryFailed);
    let stats = history.stats();
    assert_eq!(stats.terminal_entries, 2);
    assert_eq!(stats.evictions, 1);
    assert!(history.phase_for("a").is_none());
    assert_eq!(history.phase_for("b"), Some(DeliveryPhase::Completed));
    assert_eq!(history.phase_for("c"), Some(DeliveryPhase::DeliveryFailed));
}

#[test]
fn deliveries_in_flight_outlast_any_number_of_finished_ones() {
    let mut history = OperationHistory::new(OperationHistoryPolicy {
        max_terminal_entries: 1,
    });
    history.record("slow".to_string(), DeliveryPhase::Transmitting);
    for index in 0..20 {
        history.record(format!("fast-{index}"), DeliveryPhase::Accepted);
    }
    assert_eq!(history.phase_for("slow"), Some(DeliveryPhase::Transmitting));
    let stats = history.stats();
    assert_eq!(stats.entries, 2);
    assert_eq!(stats.terminal_entries, 1);
    assert_eq!(stats.evictions, 19);
    assert_eq!(
        OperationHistoryPolicy::desktop_default().max_terminal_entries,
        10_000
    );
}

#[test]
fn a_delivery_that_ends_again_is_remembered_once() {
    let mut history = OperationHistory::new(OperationHistoryPolicy {
        max_terminal_entries: 1,
    });
    history.record("a".to_string(), DeliveryPhase::Accepted);
    history.record("a".to_string(), DeliveryPhase::Connecting);
    assert_eq!(history.stats().terminal_entries, 0);
    history.record("a".to_string(), DeliveryPhase::Accepted);
    assert_eq!(history.phase_for("a"), Some(DeliveryPhase::Accepted));
    let stats = history.stats();
    assert_eq!(stats.entries, 1);
    assert_eq!(stats.terminal_entries, 1);
    assert_eq!(stats.evictions, 0);
}

#[test]
fn a_delivery_taken_up_again_leaves_its_place_and_one_that_is_over_keeps_it() {
    let mut history = OperationHistory::new(OperationHistoryPolicy {
        max_terminal_entries: 2,
    });
    history.record("a".to_string(), DeliveryPhase::Accepted);
    history.record("b".to_string(), DeliveryPhase::Accepted);
    history.record("a".to_string(), DeliveryPhase::Transmitting);
    history.record("a".to_string(), DeliveryPhase::Completed);
    assert_eq!(history.stats().evictions, 0);
    history.record("b".to_string(), DeliveryPhase::Completed);
    history.record("c".to_string(), DeliveryPhase::DeliveryFailed);
    assert_eq!(history.phase_for("b"), None);
    assert_eq!(history.phase_for("a"), Some(DeliveryPhase::Completed));
    assert_eq!(history.phase_for("c"), Some(DeliveryPhase::DeliveryFailed));
    assert_eq!(history.stats().evictions, 1);

    let mut forgetful = OperationHistory::new(OperationHistoryPolicy {
        max_terminal_entries: 0,
    });
    forgetful.record("a".to_string(), DeliveryPhase::Accepted);
    assert_eq!(forgetful.phase_for("a"), None);
    assert_eq!(forgetful.stats().evictions, 1);
}

#[test]
fn the_longest_delivery_hands_its_request_over_once() {
    let mut service = service();
    let session = |capabilities| AppLinkSession {
        app_id: app("lilia.code"),
        instance_id: "target-1".to_string(),
        host_protocol_version: HOST_PROTOCOL_VERSION,
        capabilities,
    };
    let (mut run, step) = service.request_app(
        app("lilia.code"),
        capability(),
        empty_object(),
        options_with_id("request-once"),
    );
    assert_eq!(step.action, DeliveryAction::TryConnect);
    let envelope = run.envelope.clone();
    let events = vec![
        DeliveryEvent::Connected(Err(AppDeliveryError::EndpointUnavailable)),
        DeliveryEvent::Activated(Ok(())),
        DeliveryEvent::EndpointAwaited(Ok(session(Vec::new()))),
        DeliveryEvent::CapabilityAwaited(Ok(session(vec![capability()]))),
        DeliveryEvent::Transmitted(None),
        DeliveryEvent::Queried(Ok(None)),
    ];
    let actions: Vec<DeliveryAction> = events
        .into_iter()
        .map(|event| service.advance(&mut run, event, 0).action)
        .collect();
    assert_eq!(
        actions,
        [
            DeliveryAction::Activate,
            DeliveryAction::WaitForEndpoint,
            DeliveryAction::WaitForCapability,
            DeliveryAction::Transmit,
            DeliveryAction::QueryReceipt,
            DeliveryAction::Finish(Err(AppDeliveryError::ReceiptTimeout)),
        ]
    );
    assert_eq!(run.envelope, envelope);
}

#[test]
fn online_direct_delivery_returns_accepted_receipt() {
    let target = app("lilia.code");
    let mut transport = InMemoryAppLinkTransport::new();
    transport.register_online(&target, vec![capability()]);
    let mut service = service();

    let receipt = deliver(
        &mut service,
        &mut transport,
        &ProcessAppActivator::new(),
        no_activation,
        target,
        object("title", serde_json::Value::from("fix CI")),
        options_with_id("req-online-1"),
    )
    .unwrap();

    assert!(matches!(
        receipt,
        DeliveryReceipt::Accepted { request_id, .. } if request_id == "req-online-1"
    ));
    assert_eq!(
        service.phase_for("req-online-1"),
        Some(DeliveryPhase::Accepted)
    );
}

#[test]
fn offline_activation_waits_for_capability_ready_before_transmit() {
    let target = app("lilia.code");
    let mut transport = InMemoryAppLinkTransport::new();
    transport.register_offline(&target, vec![capability()], 20 * MILLI);

    let mut activator = ProcessAppActivator::new();
    activator.register(AppDescriptor {
        app_id: target.clone(),
        display_name: "LiliaCode".to_string(),
        executable: None,
        launch_args: Vec::new(),
        bundle_id: None,
    });
    let mut service = service();

    let receipt = deliver(
        &mut service,
        &mut transport,
        &activator,
        |app, transport| {
            transport.mark_online(&app.app_id);
            Ok(())
        },
        target,
        object("title", serde_json::Value::from("wake and deliver")),
        AppDeliveryOptions {
            request_id: Some("req-offline-1".to_string()),
            ready_timeout_ns: 2_000 * MILLI,
            ..AppDeliveryOptions::default()
        },
    )
    .unwrap();

    assert!(matches!(receipt, DeliveryReceipt::Accepted { .. }));
    assert_eq!(
        service.phase_for("req-offline-1"),
        Some(DeliveryPhase::Accepted)
    );
}

#[test]
fn process_started_but_not_ready_does_not_transmit_early() {
    let target = app("lilia.code");
    let mut transport = InMemoryAppLinkTransport::new();
    transport.register_offline(&target, vec![capability()], 30_000 * MILLI);
    transport.mark_online(&target);

    let mut service = service();
    let error = deliver(
        &mut service,
        &mut transport,
        &ProcessAppActivator::new(),
        no_activation,
        target,
        empty_object(),
        AppDeliveryOptions {
            request_id: Some("req-not-ready".to_string()),
            activate_if_offline: false,
            ready_timeout_ns: 40 * MILLI,
            persist_on_failure: true,
            ..AppDeliveryOptions::default()
        },
    )
    .unwrap_err();
    assert_eq!(error, AppDeliveryError::ReadyTimeout);
    assert!(service.drafts().get("req-not-ready").is_some());
    assert_eq!(
        service.phase_for("req-not-ready"),
        Some(DeliveryPhase::DeliveryFailed)
    );
}

#[test]
fn duplicate_request_id_returns_previous_receipt() {
    let target = app("lilia.code");
    let mut transport = InMemoryAppLinkTransport::new();
    transport.register_online(&target, vec![capability()]);
    let mut service = service();
    let first = deliver(
        &mut service,
        &mut transport,
        &ProcessAppActivator::new(),
        no_activation,
        target.clone(),
        object("n", serde_json::Value::from(1)),
        options_with_id("req-dup"),
    )
    .unwrap();
    let second = deliver(
        &mut service,
        &mut transport,
        &ProcessAppActivator::new(),
        no_activation,
        target,
        object("n", serde_json::Value::from(2)),
        options_with_id("req-dup"),
    )
    .unwrap();
    assert!(matches!(first, DeliveryReceipt::Accepted { .. }));
    match second {
        DeliveryReceipt::Duplicate { previous, .. } => {
            assert!(matches!(*previous, DeliveryReceipt::Accepted { .. }));
        }
        other => panic!("expected duplicate, got {other:?}"),
    }
}

#[test]
fn structured_errors_are_distinguishable() {
    let target = app("lilia.code");
    let cases = [
        AppDeliveryError::ProtocolIncompatible,
        AppDeliveryError::CapabilityUnavailable,
        AppDeliveryError::PermissionDenied,
        AppDeliveryError::ActivationFailed {
            message: "spawn failed".to_string(),
        },
    ];
    for expected in cases {
        let mut transport = InMemoryAppLinkTransport::new();
        transport.register_online(&target, vec![capability()]);
        transport.set_force_error(&target, expected.clone());
        let mut service = service();
        let error = deliver(
            &mut service,
            &mut transport,
            &ProcessAppActivator::new(),
            no_activation,
            target.clone(),
            empty_object(),
            AppDeliveryOptions {
                persist_on_failure: false,
                ..AppDeliveryOptions::default()
            },
        )
        .unwrap_err();
        assert_eq!(error.kind_name(), expected.kind_name());
    }

    let missing = app("missing.app");
    let mut service = service();
    let error = deliver(
        &mut service,
        &mut InMemoryAppLinkTransport::new(),
        &ProcessAppActivator::new(),
        no_activation,
        missing,
        empty_object(),
        AppDeliveryOptions {
            activate_if_offline: false,
            persist_on_failure: false,
            ..AppDeliveryOptions::default()
        },
    )
    .unwrap_err();
    assert_eq!(error, AppDeliveryError::AppNotInstalled);
}

#[test]
fn draft_saved_on_structured_failure() {
    let target = app("lilia.code");
    let mut transport = InMemoryAppLinkTransport::new();
    transport.register_online(&target, vec![capability()]);
    transport.set_force_error(
        &target,
        AppDeliveryError::DeliveryFailed {
            message: "boom".to_string(),
        },
    );
    let mut service = service();
    let request_id = "req-draft";
    let _ = deliver(
        &mut service,
        &mut transport,
        &ProcessAppActivator::new(),
        no_activation,
        target,
        object("keep", serde_json::Value::from(true)),
        options_with_id(request_id),
    )
    .unwrap_err();
    let draft = service.drafts().get(request_id).unwrap();
    assert_eq!(draft.capability.name, "lilia.code.task.accept");
    assert_eq!(draft.reason, "delivery failed: boom");
    assert_eq!(draft.payload, object("keep", serde_json::Value::from(true)));
    assert_eq!(draft.saved_at_unix_ms, 1_700_000_000_000);
    assert!(!draft.delivered);
}

fn accepted(envelope: CapabilityRequestEnvelope, task: &str) -> DeliveryReceipt {
    DeliveryReceipt::Accepted {
        request_id: envelope.request_id,
        remote_task_id: Some(task.to_string()),
    }
}

fn envelope(request_id: &str, target: &AppId, payload: serde_json::Value) -> CapabilityRequestEnvelope {
    CapabilityRequestEnvelope::new(
        request_id.to_string(),
        "lilia.github".to_string(),
        target.as_str().to_string(),
        capability(),
        payload,
    )
}

#[test]
fn local_link_roundtrip_delivers_typed_receipt() {
    let target = app("demo.app1");
    let mut endpoint = AppCapabilityEndpoint::open(target.clone(), "code-1".to_string());
    endpoint.register_handler(capability());
    let session = session_from_handshake(&target, Some(endpoint.descriptor())).unwrap();
    let mut service = service();
    let (mut run, step) = service.request_app(
        target,
        capability(),
        object("title", serde_json::Value::from("local ipc")),
        AppDeliveryOptions {
            request_id: Some("req-local-1".to_string()),
            activate_if_offline: false,
            ready_timeout_ns: 2_000 * MILLI,
            request_timeout_ns: 5_000 * MILLI,
            persist_on_failure: false,
        },
    );
    assert_eq!(step.action, DeliveryAction::TryConnect);
    let step = service.advance(&mut run, DeliveryEvent::Connected(Ok(session)), 0);
    assert_eq!(step.action, DeliveryAction::Transmit);
    let receipt = match endpoint.judge(run.envelope.clone()) {
        EndpointDecision::Invoke(envelope) => endpoint.settle(accepted(envelope, "task-local-1")),
        EndpointDecision::Answer(answer) => answer,
    };
    let step = service.advance(&mut run, DeliveryEvent::Transmitted(Some(Ok(receipt))), 0);
    match step.action {
        DeliveryAction::Finish(Ok(receipt)) => assert!(matches!(
            receipt,
            DeliveryReceipt::Accepted { remote_task_id: Some(ref id), .. } if id == "task-local-1"
        )),
        other => panic!("local transmit, got {other:?}"),
    }
}

#[test]
fn local_link_waits_for_delayed_handler_registration() {
    let target = app("demo.delay1");
    let mut endpoint = AppCapabilityEndpoint::open(target.clone(), "code-delay".to_string());
    let session = session_from_handshake(&target, Some(endpoint.descriptor())).unwrap();
    assert!(
        session.capabilities.is_empty(),
        "handler not registered yet must not report capabilities"
    );
    assert!(!session.capability_ready(&capability()));

    let mut service = service();
    let (mut run, _) = service.request_app(
        target.clone(),
        capability(),
        object("title", serde_json::Value::from("wait for handler")),
        AppDeliveryOptions {
            request_id: Some("req-delayed-handler".to_string()),
            activate_if_offline: false,
            ready_timeout_ns: 2_000 * MILLI,
            request_timeout_ns: 5_000 * MILLI,
            persist_on_failure: false,
        },
    );
    let step = service.advance(&mut run, DeliveryEvent::Connected(Ok(session)), 0);
    assert_eq!(step.action, DeliveryAction::WaitForCapability);

    let waiting = run.session.as_ref().unwrap();
    let attempt = session_from_handshake(&target, Some(endpoint.descriptor()));
    assert!(poll_link_capability(waiting, attempt, &capability(), false).is_none());
    endpoint.register_handler(capability());
    let attempt = session_from_handshake(&target, Some(endpoint.descriptor()));
    let ready = poll_link_capability(waiting, attempt, &capability(), false)
        .expect("the wait is over")
        .expect("the capability is there");
    let step = service.advance(&mut run, DeliveryEvent::CapabilityAwaited(Ok(ready)), 0);
    assert_eq!(step.action, DeliveryAction::Transmit);
    let receipt = match endpoint.judge(run.envelope.clone()) {
        EndpointDecision::Invoke(envelope) => endpoint.settle(accepted(envelope, "task-delayed")),
        EndpointDecision::Answer(answer) => answer,
    };
    let step = service.advance(&mut run, DeliveryEvent::Transmitted(Some(Ok(receipt))), 0);
    match step.action {
        DeliveryAction::Finish(Ok(receipt)) => assert!(matches!(
            receipt,
            DeliveryReceipt::Accepted { remote_task_id: Some(ref id), .. } if id == "task-delayed"
        )),
        other => panic!("delivery must wait for delayed handler, got {other:?}"),
    }
}

#[test]
fn local_link_unregistered_capability_is_not_ready_before_timeout() {
    let target = app("demo.unreg1");
    let endpoint = AppCapabilityEndpoint::open(target.clone(), "code-unreg".to_string());
    let session = session_from_handshake(&target, Some(endpoint.descriptor())).unwrap();
    assert!(session.capabilities.is_empty());

    let mut elapsed_ns: u128 = 0;
    let error = loop {
        let attempt = session_from_handshake(&target, Some(endpoint.descriptor()));
        let time_is_up = elapsed_ns >= 80 * MILLI;
        match poll_link_capability(&session, attempt, &capability(), time_is_up) {
            Some(answer) => break answer.expect_err("must not synthesize Ready"),
            None => elapsed_ns += 10 * MILLI,
        }
    };
    assert_eq!(error, AppDeliveryError::ReadyTimeout);
    assert!(elapsed_ns >= 70 * MILLI);
}

#[test]
fn local_link_legacy_peer_is_protocol_incompatible() {
    let target = app("demo.legacy1");
    let error = session_from_handshake(&target, None).expect_err("legacy peer must fail handshake");
    assert_eq!(error, AppDeliveryError::ProtocolIncompatible);

    let mut service = service();
    let (mut run, _) = service.request_app(
        target,
        capability(),
        object("title", serde_json::Value::from("legacy")),
        AppDeliveryOptions {
            request_id: Some("req-legacy".to_string()),
            activate_if_offline: false,
            ready_timeout_ns: 200 * MILLI,
            request_timeout_ns: 2_000 * MILLI,
            persist_on_failure: true,
        },
    );
    let step = service.advance(&mut run, DeliveryEvent::Connected(Err(error)), 0);
    assert!(service.keep_draft(step.draft.expect("a draft is kept"), true));
    assert_eq!(
        step.action,
        DeliveryAction::Finish(Err(AppDeliveryError::ProtocolIncompatible))
    );
    assert!(service.drafts().get("req-legacy").is_some());
}

#[test]
fn protocol_version_mismatch_fails_before_transmit() {
    let target = app("lilia.code");
    let mut transport = InMemoryAppLinkTransport::new();
    transport.register_online(&target, vec![capability()]);
    transport.set_host_protocol_version(&target, HOST_PROTOCOL_VERSION + 1);
    let mut service = service();
    let error = deliver(
        &mut service,
        &mut transport,
        &ProcessAppActivator::new(),
        no_activation,
        target,
        empty_object(),
        AppDeliveryOptions {
            request_id: Some("req-proto".to_string()),
            activate_if_offline: false,
            persist_on_failure: true,
            ..AppDeliveryOptions::default()
        },
    )
    .unwrap_err();
    assert_eq!(error, AppDeliveryError::ProtocolIncompatible);
    assert!(service.drafts().get("req-proto").is_some());
}

#[test]
fn incompatible_capability_schema_returns_protocol_incompatible() {
    let target = app("lilia.code");
    let mut transport = InMemoryAppLinkTransport::new();
    transport.register_online(
        &target,
        vec![CapabilityDescriptor::new(
            "lilia.code.task.accept".to_string(),
            1,
            99,
        )],
    );
    let mut service = service();
    let error = deliver(
        &mut service,
        &mut transport,
        &ProcessAppActivator::new(),
        no_activation,
        target,
        empty_object(),
        AppDeliveryOptions {
            request_id: Some("req-schema".to_string()),
            activate_if_offline: false,
            persist_on_failure: true,
            ..AppDeliveryOptions::default()
        },
    )
    .unwrap_err();
    assert_eq!(error, AppDeliveryError::ProtocolIncompatible);
    assert!(service.drafts().get("req-schema").is_some());
}

#[test]
fn missing_capability_after_ready_wait_is_capability_unavailable() {
    let target = app("lilia.code");
    let mut transport = InMemoryAppLinkTransport::new();
    transport.register_online(&target, Vec::new());
    let mut service = service();

    // Simulate a peer that never advertises the required capability.
    let error = deliver(
        &mut service,
        &mut transport,
        &ProcessAppActivator::new(),
        no_activation,
        target.clone(),
        empty_object(),
        AppDeliveryOptions {
            request_id: Some("req-missing-cap".to_string()),
            activate_if_offline: false,
            ready_timeout_ns: 30 * MILLI,
            persist_on_failure: true,
            ..AppDeliveryOptions::default()
        },
    )
    .unwrap_err();
    assert_eq!(error, AppDeliveryError::ReadyTimeout);
    assert!(service.drafts().get("req-missing-cap").is_some());

    // If handshake later reports a different capability only, transmit must still fail structured.
    transport.set_capabilities(
        &target,
        vec![CapabilityDescriptor::new("other.capability".to_string(), 1, 1)],
    );
    let session = transport.try_connect(&target).unwrap();
    let error = transport
        .transmit(&session, &envelope("req-tx", &target, empty_object()))
        .unwrap_err();
    assert_eq!(error, AppDeliveryError::CapabilityUnavailable);
}

#[test]
fn app_ids_are_checked() {
    assert_eq!(app("lilia.code").as_str(), "lilia.code");
    assert!(AppId::new(String::new()).is_err());
}

#[test]
fn phases_have_names_and_ends() {
    let named = [
        (DeliveryPhase::DraftSaved, "draft_saved", false),
        (DeliveryPhase::Connecting, "connecting", false),
        (DeliveryPhase::TargetActivating, "target_activating", false),
        (DeliveryPhase::TargetReady, "target_ready", false),
        (DeliveryPhase::Negotiating, "negotiating", false),
        (DeliveryPhase::Transmitting, "transmitting", false),
        (DeliveryPhase::Accepted, "accepted", true),
        (DeliveryPhase::Completed, "completed", true),
        (DeliveryPhase::DeliveryFailed, "delivery_failed", true),
    ];
    for (phase, name, terminal) in named {
        assert_eq!(phase.as_str(), name);
        assert_eq!(phase.is_terminal(), terminal, "{name}");
    }
}

#[test]
fn a_target_that_cannot_be_started_leaves_no_draft() {
    let target = app("lilia.code");
    let mut transport = InMemoryAppLinkTransport::new();
    transport.register_offline(&target, vec![capability()], 0);
    let mut service = service();
    let error = deliver(
        &mut service,
        &mut transport,
        &ProcessAppActivator::new(),
        no_activation,
        target,
        empty_object(),
        options_with_id("req-quit"),
    )
    .unwrap_err();
    assert_eq!(error, AppDeliveryError::AppNotInstalled);
    assert!(service.drafts().get("req-quit").is_none());
}

#[test]
fn a_missing_receipt_is_asked_for_before_the_delivery_fails() {
    let target = app("lilia.code");
    let mut transport = InMemoryAppLinkTransport::new();
    transport.register_online(&target, vec![capability()]);
    let mut service = service();
    let (mut run, _) = service.request_app(
        target.clone(),
        capability(),
        empty_object(),
        options_with_id("req-late"),
    );
    let session = transport.try_connect(&target);
    let step = service.advance(&mut run, DeliveryEvent::Connected(session), 5);
    assert_eq!(step.action, DeliveryAction::Transmit);
    let phases: Vec<&str> = step.progress.iter().map(|note| note.phase.as_str()).collect();
    assert_eq!(phases, ["negotiating", "target_ready", "transmitting"]);
    let step = service.advance(&mut run, DeliveryEvent::Transmitted(None), 6);
    assert_eq!(step.action, DeliveryAction::QueryReceipt);
    let step = service.advance(&mut run, DeliveryEvent::Queried(Ok(None)), 7);
    assert_eq!(
        step.action,
        DeliveryAction::Finish(Err(AppDeliveryError::ReceiptTimeout))
    );
    assert_eq!(step.draft.unwrap().reason, "receipt timeout");
}

#[test]
fn a_cancelled_wait_and_a_late_endpoint_end() {
    assert_eq!(before_connect(true), Some(AppDeliveryError::Cancelled));
    assert_eq!(
        after_connect(Err(AppDeliveryError::EndpointUnavailable), 9, 10),
        EndpointPoll::Pause
    );
    assert_eq!(
        after_connect(Err(AppDeliveryError::EndpointUnavailable), 10, 10),
        EndpointPoll::Finish(Err(AppDeliveryError::ReadyTimeout))
    );
    assert_eq!(
        after_connect(Err(AppDeliveryError::PermissionDenied), 0, 10),
        EndpointPoll::Finish(Err(AppDeliveryError::PermissionDenied))
    );
}

#[test]
fn an_endpoint_handles_a_request_once() {
    let target = app("demo.once");
    let mut endpoint = AppCapabilityEndpoint::open(target.clone(), "once-1".to_string());
    assert_eq!(endpoint.app_id().as_str(), "demo.once");
    let unknown = endpoint.judge(envelope("r1", &target, empty_object()));
    assert_eq!(
        unknown,
        EndpointDecision::Answer(DeliveryReceipt::Rejected {
            request_id: "r1".to_string(),
            reason: RejectionReason::CapabilityUnavailable,
        })
    );
    endpoint.register_handler(CapabilityDescriptor::new(
        "lilia.code.task.accept".to_string(),
        2,
        1,
    ));
    let foreign = endpoint.judge(envelope("r1", &target, empty_object()));
    assert_eq!(
        foreign,
        EndpointDecision::Answer(DeliveryReceipt::Rejected {
            request_id: "r1".to_string(),
            reason: RejectionReason::ProtocolIncompatible,
        })
    );
    endpoint.register_handler(capability());
    let first = match endpoint.judge(envelope("r1", &target, empty_object())) {
        EndpointDecision::Invoke(envelope) => endpoint.settle(accepted(envelope, "t1")),
        EndpointDecision::Answer(answer) => panic!("not handled: {answer:?}"),
    };
    assert!(matches!(first, DeliveryReceipt::Accepted { .. }));
    let second = endpoint.judge(envelope("r1", &target, empty_object()));
    assert_eq!(
        second,
        EndpointDecision::Answer(DeliveryReceipt::Duplicate {
            request_id: "r1".to_string(),
            previous: Box::new(first),
        })
    );
}

fn link_error(kind: LinkErrorKind) -> LinkError {
    LinkError {
        kind,
        message: "link".to_string(),
    }
}

#[test]
fn link_failures_are_told_apart() {
    assert_eq!(
        connect_failure(link_error(LinkErrorKind::Closed)),
        AppDeliveryError::EndpointUnavailable
    );
    assert_eq!(
        connect_failure(link_error(LinkErrorKind::TimedOut)),
        AppDeliveryError::EndpointUnavailable
    );
    let failed = AppDeliveryError::DeliveryFailed {
        message: "link".to_string(),
    };
    assert_eq!(connect_failure(link_error(LinkErrorKind::Other)), failed);
    assert_eq!(after_send(Ok(()), true), LinkStep::Done(()));
    assert_eq!(
        after_send(Err(link_error(LinkErrorKind::WouldBlock)), false),
        LinkStep::Retry
    );
    assert_eq!(
        after_send(Err(link_error(LinkErrorKind::WouldBlock)), true),
        LinkStep::Fail(AppDeliveryError::DeliveryFailed {
            message: "send timed out".to_string()
        })
    );
    assert_eq!(
        after_send(Err(link_error(LinkErrorKind::Other)), false),
        LinkStep::Fail(AppDeliveryError::DeliveryFailed {
            message: "link".to_string()
        })
    );
    assert_eq!(after_receive(Ok(Some(vec![1])), false), LinkStep::Done(vec![1]));
    assert_eq!(
        after_receive(Ok(None), false),
        LinkStep::Fail(AppDeliveryError::DeliveryFailed {
            message: "connection closed before receipt".to_string()
        })
    );
    assert_eq!(
        after_receive(Err(link_error(LinkErrorKind::WouldBlock)), false),
        LinkStep::Retry
    );
    assert_eq!(
        after_receive(Err(link_error(LinkErrorKind::WouldBlock)), true),
        LinkStep::Fail(AppDeliveryError::ReceiptTimeout)
    );
    assert_eq!(
        send_failure(&failed),
        AppDeliveryError::DeliveryFailed {
            message: "send failed: delivery failed: link".to_string()
        }
    );
    assert_eq!(
        receive_failure(&AppDeliveryError::ReceiptTimeout),
        AppDeliveryError::DeliveryFailed {
            message: "recv failed: receipt timeout".to_string()
        }
    );
}

#[test]
fn drafts_wait_for_their_target() {
    let first = DeliveryDraft::from_envelope(
        &envelope("b", &app("demo.one"), empty_object()),
        "why".to_string(),
        7,
    );
    let second = DeliveryDraft::from_envelope(
        &envelope("a", &app("demo.one"), empty_object()),
        "why".to_string(),
        8,
    );
    assert_eq!(first.file_name(), "b.json");
    let mut store = DeliveryDraftStore::persistent(vec![first]);
    assert!(store.wants_file());
    assert!(!store.save(second.clone(), false));
    assert!(store.get("a").is_none());
    assert!(store.save(second, true));
    let waiting = store.list_for_target(&app("demo.one"));
    let ids: Vec<&str> = waiting.iter().map(|draft| draft.request_id.as_str()).collect();
    assert_eq!(ids, ["a", "b"]);
    assert!(store.list_for_target(&app("demo.two")).is_empty());
    assert!(!DeliveryDraftStore::memory().wants_file());
}

#[test]
fn clocks_before_the_epoch_show_nothing() {
    assert_eq!(now_unix_ms(None), 0);
    assert_eq!(now_unix_ms(Some(1_999_999)), 1);
}

#[test]
fn activation_takes_an_executable() {
    let mut activator = ProcessAppActivator::new();
    let known = AppDescriptor {
        app_id: app("demo.run"),
        display_name: "Run".to_string(),
        executable: Some("/opt/run".to_string()),
        launch_args: vec!["--quiet".to_string()],
        bundle_id: None,
    };
    activator.register(known);
    let found = activator.resolve(&app("demo.run")).unwrap();
    let command = ProcessAppActivator::launch_command(&found).unwrap();
    assert_eq!(command.executable, "/opt/run");
    assert_eq!(command.args, ["--quiet"]);
    let receipt = ProcessAppActivator::launched(&found, Ok(())).unwrap();
    assert!(!receipt.already_running);
    assert!(ProcessAppActivator::launched(&found, Err("denied".to_string())).is_err());
    assert!(matches!(
        activator.resolve(&app("demo.gone")),
        Err(ActivationError::AppNotInstalled(_))
    ));
}

#[test]
fn a_session_tells_which_capabilities_it_lacks() {
    let session = AppLinkSession {
        app_id: app("demo.cap"),
        instance_id: "one".to_string(),
        host_protocol_version: HOST_PROTOCOL_VERSION,
        capabilities: vec![CapabilityDescriptor::new("named".to_string(), 1, 1)],
    };
    assert!(session.ensure_protocol_compatible().is_ok());
    let named = |protocol| CapabilityDescriptor::new("named".to_string(), protocol, 1);
    assert!(session.ensure_capability_ready(&named(1)).is_ok());
    assert_eq!(
        session.ensure_capability_ready(&named(2)),
        Err(AppDeliveryError::ProtocolIncompatible)
    );
    assert_eq!(
        session.ensure_capability_ready(&capability()),
        Err(AppDeliveryError::CapabilityUnavailable)
    );
}
