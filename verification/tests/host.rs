//! The host as the frontend meets it, with the runtime played by the tests.
use mutsuki_tauri_host::bridge::{
    ApprovalAttribution, ApprovalDecision, ApprovalRequest, ApprovalResponse, FrontendContext,
    FrontendError, FrontendTaskRequest, TaskCancelRequest, TaskResultRequest,
};
use mutsuki_tauri_host::builder::{group_runners, plan_host, BuiltinPlugin, MutsukiTauriHostBuilder};
use mutsuki_tauri_host::config::{HostMode, HostPath, MutsukiTauriConfig, PathsConfig};
use mutsuki_tauri_host::contracts::{
    CancelPolicy, HostTaskSnapshot, HostTaskState, ObservabilityPage, RuntimeError, RuntimeEvent,
    RuntimeEventKind, Task, TaskBatch, TaskHandle, TaskOutcome, TaskStatus, TraceSpan,
    ERR_RUNNER_NOT_FOUND,
};
use mutsuki_tauri_host::error::HostError;
use mutsuki_tauri_host::events::{EventHub, FrontendEventEnvelope, MutsukiFrontendEvent};
use mutsuki_tauri_host::health::HostHealthState;
use mutsuki_tauri_host::host::{MutsukiTauriHost, PumpFailure, RuntimeRefusal, RuntimeReply};
use mutsuki_tauri_host::json::{JsonMember, JsonValue};
use mutsuki_tauri_host::observe::{Drain, DrainAction};
use mutsuki_tauri_host::ordered_map::OrderedMap;
use mutsuki_tauri_host::plugin_runner::launch::{runner_failed, RunnerLaunchSpec};
use mutsuki_tauri_host::plugin_runner::manifest::{
    PluginArtifact, PluginDeploymentKind, PluginManifest, PluginProvides, RunnerDescriptor,
};
use mutsuki_tauri_host::plugin_runner::scan::{
    index_plugins, index_runners, parse_failure, FileRead, LaunchAnswer, PluginRunnerLoad,
    PluginScan,
};
use mutsuki_tauri_host::pump::{PumpAction, PumpEvent, TaskPump};
use mutsuki_tauri_host::resource::store::TauriResourceStore;

const ECHO_PROTOCOL_ID: &str = "mutsuki.tauri.echo";

fn empty_object() -> serde_json::Value {
    serde_json::Value::Object(serde_json::Map::new())
}

fn object(key: &str, value: &str) -> serde_json::Value {
    let mut members = serde_json::Map::new();
    members.insert(key.to_string(), serde_json::Value::from(value));
    serde_json::Value::Object(members)
}

fn nothing_found() -> PluginRunnerLoad {
    PluginRunnerLoad {
        manifests: Vec::new(),
        plugins: Vec::new(),
        runners: Vec::new(),
    }
}

fn runner_descriptor(runner_id: &str, protocol_id: &str) -> RunnerDescriptor {
    RunnerDescriptor {
        runner_id: runner_id.to_string(),
        plugin_id: runner_id
            .rsplit_once('.')
            .map(|(plugin, _)| plugin)
            .unwrap_or(runner_id)
            .to_string(),
        accepted_protocol_ids: vec![protocol_id.to_string()],
    }
}

fn build(builder: MutsukiTauriHostBuilder, load: PluginRunnerLoad) -> MutsukiTauriHost {
    let (config, groups) = builder.into_parts();
    let builtins = groups
        .into_entries()
        .into_iter()
        .map(|entry| BuiltinPlugin {
            plugin_id: entry.key,
            version: "0.0.0".to_string(),
            runners: entry.value,
        })
        .collect();
    let plan = plan_host(load, builtins).expect("host builds");
    let resources = TauriResourceStore::new(config.paths.resources_dir.clone());
    let events = EventHub::new(config.event_buffer);
    MutsukiTauriHost::new(
        config,
        resources,
        events,
        HostHealthState::new(),
        plan.plugins,
        plan.runners,
        plan.active_protocols,
        1,
    )
}

fn named(app_name: &str) -> MutsukiTauriHost {
    build(
        MutsukiTauriHost::builder().app_name(app_name.to_string()),
        nothing_found(),
    )
}

fn echo_host() -> MutsukiTauriHost {
    build(
        MutsukiTauriHost::builder().runner(RunnerDescriptor {
            runner_id: "mutsuki.tauri.echo.runner".to_string(),
            plugin_id: "mutsuki.tauri.echo".to_string(),
            accepted_protocol_ids: vec![ECHO_PROTOCOL_ID.to_string()],
        }),
        nothing_found(),
    )
}

fn request(protocol_id: &str, payload: serde_json::Value, task_id: &str) -> FrontendTaskRequest {
    FrontendTaskRequest {
        protocol_id: protocol_id.to_string(),
        payload,
        task_id: Some(task_id.to_string()),
        trace_id: None,
        correlation_id: None,
        idempotency_key: None,
        input_refs: Vec::new(),
        priority: 0,
        context: FrontendContext::default(),
    }
}

fn handle_of(task: &Task) -> TaskHandle {
    TaskHandle {
        task_id: task.task_id.clone(),
        protocol_id: task.protocol_id.clone(),
        target_binding_id: None,
        cancel_policy: CancelPolicy::Cascade,
        trace_id: task.trace_id.clone(),
        correlation_id: task.correlation_id.clone(),
    }
}

fn result_request(task_id: &str) -> TaskResultRequest {
    TaskResultRequest {
        task_id: task_id.to_string(),
    }
}

fn task_event(sequence: u64, task_id: &str, name: &str) -> RuntimeEvent {
    RuntimeEvent {
        sequence,
        kind: RuntimeEventKind::Task,
        name: name.to_string(),
        subject_id: Some(task_id.to_string()),
        attributes: OrderedMap::new(),
        error: None,
    }
}

fn page<T>(items: Vec<T>, next_sequence: u64) -> ObservabilityPage<T> {
    ObservabilityPage {
        items,
        next_sequence,
        earliest_available_sequence: Some(1),
        latest_sequence: next_sequence,
        lost: 0,
        truncated: false,
        dropped: 0,
    }
}

/// A runtime that answers from what the tests put into it.
struct PlayedRuntime {
    events: Vec<RuntimeEvent>,
    spans: Vec<TraceSpan>,
    ended: Vec<(String, TaskOutcome)>,
    state_queries: usize,
}

impl PlayedRuntime {
    fn new() -> Self {
        PlayedRuntime {
            events: Vec::new(),
            spans: Vec::new(),
            ended: Vec::new(),
            state_queries: 0,
        }
    }

    fn tell(&mut self, task_id: &str, name: &str) {
        let sequence = self.events.len() as u64 + 1;
        self.events.push(task_event(sequence, task_id, name));
    }

    fn complete(&mut self, task_id: &str) {
        self.tell(task_id, "task.completed");
        self.ended.push((
            task_id.to_string(),
            TaskOutcome::Completed {
                task_id: task_id.to_string(),
                output_ref: None,
            },
        ));
    }

    fn states(&mut self, handles: Vec<TaskHandle>) -> Vec<HostTaskState> {
        self.state_queries += 1;
        handles
            .into_iter()
            .map(|handle| {
                let outcome = self
                    .ended
                    .iter()
                    .find(|(task_id, _)| *task_id == handle.task_id)
                    .map(|(_, outcome)| outcome.clone());
                let status = match &outcome {
                    Some(TaskOutcome::Completed { .. }) => TaskStatus::Completed,
                    Some(TaskOutcome::Failed { .. }) => TaskStatus::Failed,
                    Some(TaskOutcome::Cancelled { .. }) => TaskStatus::Cancelled,
                    Some(TaskOutcome::Other { .. }) => TaskStatus::Blocked,
                    None => TaskStatus::Waiting,
                };
                HostTaskState {
                    handle,
                    status: Some(status),
                    outcome,
                }
            })
            .collect()
    }
}

fn drain(host: &mut MutsukiTauriHost, runtime: &PlayedRuntime) -> Result<(), String> {
    let batch_size = host.config.frontend_event_batch_size;
    let (mut drain, mut action) = Drain::start(&host.tasks);
    loop {
        action = match action {
            DrainAction::ReadEvents { after, .. } => {
                let items = runtime.events[after as usize..].to_vec();
                let read = page(items, runtime.events.len() as u64);
                drain.take_events(
                    &mut host.events,
                    &mut host.tasks,
                    &mut host.health,
                    Ok(read),
                    batch_size,
                    2,
                )
            }
            DrainAction::ReadTraces { after, .. } => {
                let items = runtime.spans[after as usize..].to_vec();
                let read = page(items, runtime.spans.len() as u64);
                drain.take_traces(&mut host.events, &mut host.tasks, Ok(read), batch_size)
            }
            DrainAction::Finish(result) => return result,
        };
    }
}

/// Runs the pump until it waits or stops.
fn pump(
    host: &mut MutsukiTauriHost,
    runtime: &mut PlayedRuntime,
    pump: &mut TaskPump,
    mut action: PumpAction,
) -> PumpAction {
    loop {
        action = match action {
            PumpAction::Query(handles) => {
                let states = runtime.states(handles);
                pump.step(host, PumpEvent::States(Ok(states)), 3)
            }
            PumpAction::Drain => {
                let drained = drain(host, runtime);
                pump.step(host, PumpEvent::Drained(drained), 3)
            }
            settled => return settled,
        };
    }
}

fn submit(host: &mut MutsukiTauriHost, runtime: &mut PlayedRuntime, task: Task) -> Result<TaskHandle, HostError> {
    host.ensure_protocol_available(&task.protocol_id)?;
    runtime.tell(&task.task_id, "task.enqueue");
    let reply = RuntimeReply::TaskSubmitted(handle_of(&task));
    let handle = host.take_submitted(Ok(reply), 2)?;
    let drained = drain(host, runtime);
    host.take_drained(drained, 2)?;
    Ok(handle)
}

fn collect_events(
    rx: &mut tokio::sync::broadcast::Receiver<FrontendEventEnvelope>,
) -> Vec<FrontendEventEnvelope> {
    let mut events = Vec::new();
    while let Ok(event) = rx.try_recv() {
        flatten_event_envelope(event, &mut events);
    }
    events
}

fn flatten_event_envelope(
    envelope: FrontendEventEnvelope,
    events: &mut Vec<FrontendEventEnvelope>,
) {
    match envelope.payload {
        MutsukiFrontendEvent::Batch { events: payloads } => {
            for payload in payloads {
                let nested = FrontendEventEnvelope {
                    sequence: envelope.sequence,
                    channel: payload.channel().to_string(),
                    payload,
                };
                flatten_event_envelope(nested, events);
            }
        }
        payload => events.push(FrontendEventEnvelope { payload, ..envelope }),
    }
}

fn approval_response(request: &ApprovalRequest, token: &str) -> ApprovalResponse {
    ApprovalResponse {
        approval_id: request.approval_id.clone(),
        token: token.to_string(),
        decision: ApprovalDecision::Allow,
        reason: None,
        trace_id: Some(request.trace_id.clone()),
        correlation_id: Some(request.correlation_id.clone()),
        context: Some(request.context.clone()),
    }
}

#[test]
fn default_host_reports_empty_plugin_and_runner_state() {
    let mut host = named("empty-default");

    assert!(host.plugins().is_empty());
    assert!(host.runners().is_empty());
    let status = host.status(Ok(Vec::new()), 1);
    assert!(status.healthy);
    assert!(status.runtime.healthy);
    assert!(status.host.healthy);
    assert!(status.plugins_health.healthy);
    assert!(status.runners_health.healthy);
    assert!(status.recent_errors.is_empty());
    assert!(status.plugins.is_empty());
    assert!(status.runners.is_empty());
    assert_eq!(status.app_name, "empty-default");
    assert_eq!(status.profile_id, "default");
    assert_eq!(status.mode, "embedded");
}

#[test]
fn explicit_echo_runner_still_runs_task() {
    let mut host = echo_host();
    let mut runtime = PlayedRuntime::new();
    let task = request(ECHO_PROTOCOL_ID, object("text", "hello"), "task:test:echo").into_task();
    submit(&mut host, &mut runtime, task).expect("task starts");
    runtime.complete("task:test:echo");
    assert!(host.tasks.start_pump());
    let (mut task_pump, action) = TaskPump::start(0, &mut host);
    let stopped = pump(&mut host, &mut runtime, &mut task_pump, action);
    assert_eq!(stopped, PumpAction::Stop);

    let result = host
        .task_result(&result_request("task:test:echo"))
        .expect("the task ended")
        .expect("echo task completes");
    assert_eq!(result.task_id, "task:test:echo");
    assert!(matches!(
        result.outcome,
        Some(TaskOutcome::Completed { task_id, .. }) if task_id == "task:test:echo"
    ));
    assert!(result.events.iter().any(|event| {
        event.kind == RuntimeEventKind::Task
            && event.name == "task.enqueue"
            && event.subject_id.as_deref() == Some("task:test:echo")
    }));
    assert!(result.events.iter().any(|event| {
        event.kind == RuntimeEventKind::Task
            && event.name == "task.completed"
            && event.subject_id.as_deref() == Some("task:test:echo")
    }));
    assert!(result.events.iter().all(|event| event.name != "task.submit"));
}

#[test]
fn native_task_and_batch_submission_use_the_supervised_runtime_path() {
    let mut host = echo_host();
    let mut runtime = PlayedRuntime::new();
    let single = Task::new(
        "task:native:single".to_string(),
        ECHO_PROTOCOL_ID.to_string(),
        object("text", "single"),
    );
    let single = submit(&mut host, &mut runtime, single).expect("native task submits");
    let batch = TaskBatch {
        batch_id: "batch:native".to_string(),
        tick_id: None,
        resource_plan: None,
        tasks: vec![
            Task::new(
                "task:native:batch:1".to_string(),
                ECHO_PROTOCOL_ID.to_string(),
                object("text", "one"),
            ),
            Task::new(
                "task:native:batch:2".to_string(),
                ECHO_PROTOCOL_ID.to_string(),
                object("text", "two"),
            ),
        ],
    };
    assert!(host.ensure_batch_available(&batch).is_ok());
    let row = batch.tasks.iter().map(handle_of).collect();
    let batch = host
        .take_submitted_batch(Ok(RuntimeReply::TaskBatchSubmitted(row)), 2)
        .expect("native batch submits");
    assert_eq!(batch.len(), 2);

    let handles: Vec<TaskHandle> = std::iter::once(single).chain(batch).collect();
    for handle in &handles {
        runtime.complete(&handle.task_id);
    }
    assert!(host.tasks.start_pump());
    let (mut task_pump, action) = TaskPump::start(0, &mut host);
    pump(&mut host, &mut runtime, &mut task_pump, action);
    for handle in &handles {
        let result = host
            .task_result(&result_request(&handle.task_id))
            .unwrap()
            .expect("native task completes through supervisor");
        assert!(matches!(result.outcome, Some(TaskOutcome::Completed { .. })));
    }
}

#[test]
fn waiting_tasks_are_completion_driven_without_periodic_actor_queries() {
    const TASK_COUNT: usize = 1000;
    let mut host = build(
        MutsukiTauriHost::builder()
            .app_name("MutsukiTauriHostWaitingScaleTest".to_string())
            .runner(runner_descriptor("fixture.waiting.runner", "fixture.waiting")),
        nothing_found(),
    );
    let mut runtime = PlayedRuntime::new();
    let tasks: Vec<Task> = (0..TASK_COUNT)
        .map(|index| {
            Task::new(
                format!("waiting-parent:{index:04}"),
                "fixture.waiting".to_string(),
                empty_object(),
            )
        })
        .collect();
    let row = tasks.iter().map(handle_of).collect();
    let handles = host
        .take_submitted_batch(Ok(RuntimeReply::TaskBatchSubmitted(row)), 2)
        .expect("waiting batch submits");
    assert_eq!(handles.len(), TASK_COUNT);

    assert!(host.tasks.start_pump());
    let (mut task_pump, action) = TaskPump::start(5, &mut host);
    let settled = pump(&mut host, &mut runtime, &mut task_pump, action);
    assert_eq!(settled, PumpAction::Wait(5));
    assert_eq!(runtime.state_queries, 1);
    let action = task_pump.step(&mut host, PumpEvent::Revision(Some(6)), 3);
    let settled = pump(&mut host, &mut runtime, &mut task_pump, action);
    assert_eq!(settled, PumpAction::Wait(6));
    assert_eq!(runtime.state_queries, 2);
    host.shutdown(None);
    let action = task_pump.step(&mut host, PumpEvent::Revision(Some(7)), 3);
    assert_eq!(action, PumpAction::Stop);
    assert_eq!(runtime.state_queries, 2);
}

#[test]
fn terminal_notification_resolves_result_without_status_polling() {
    let mut host = echo_host();
    let mut runtime = PlayedRuntime::new();
    let task = request(
        ECHO_PROTOCOL_ID,
        object("text", "notify"),
        "task:completion-notify",
    )
    .into_task();
    submit(&mut host, &mut runtime, task).unwrap();
    assert!(host.tasks.start_pump());
    let (mut task_pump, action) = TaskPump::start(0, &mut host);
    let settled = pump(&mut host, &mut runtime, &mut task_pump, action);
    assert_eq!(settled, PumpAction::Wait(0));
    assert!(host.task_result(&result_request("task:completion-notify")).is_none());
    runtime.complete("task:completion-notify");
    let action = task_pump.step(&mut host, PumpEvent::Revision(Some(1)), 3);
    pump(&mut host, &mut runtime, &mut task_pump, action);
    let result = host
        .task_result(&result_request("task:completion-notify"))
        .unwrap()
        .expect("completion notification resolves result");
    assert!(matches!(result.outcome, Some(TaskOutcome::Completed { .. })));
    assert!(runtime.state_queries >= 1);
}

#[test]
fn task_pump_restarts_after_all_previous_tasks_finish() {
    let mut host = echo_host();
    let mut runtime = PlayedRuntime::new();
    for index in 0..2 {
        let task_id = format!("task:pump-restart:{index}");
        let task = request(ECHO_PROTOCOL_ID, empty_object(), &task_id).into_task();
        submit(&mut host, &mut runtime, task).unwrap();
        runtime.complete(&task_id);
        assert!(host.tasks.start_pump());
        let (mut task_pump, action) = TaskPump::start(index, &mut host);
        let stopped = pump(&mut host, &mut runtime, &mut task_pump, action);
        assert_eq!(stopped, PumpAction::Stop);
        let result = host
            .task_result(&result_request(&task_id))
            .unwrap()
            .expect("each sequential task completes");
        assert!(matches!(result.outcome, Some(TaskOutcome::Completed { .. })));
    }
}

#[test]
fn shutdown_releases_wait_result_for_waiting_task() {
    let mut host = echo_host();
    let mut runtime = PlayedRuntime::new();
    let task = Task::new(
        "waiting-shutdown".to_string(),
        ECHO_PROTOCOL_ID.to_string(),
        empty_object(),
    );
    submit(&mut host, &mut runtime, task).expect("waiting task submits");
    let waiting = result_request("waiting-shutdown");
    assert!(host.task_result(&waiting).is_none());

    host.shutdown(None);

    let released = host.task_result(&waiting).expect("shutdown releases waiter");
    assert_eq!(
        released,
        Err(HostError::Runtime("MutsukiTauriHost is shutting down".to_string()))
    );
}

#[test]
fn completed_results_are_consumed_when_read() {
    let mut host = echo_host();
    let mut runtime = PlayedRuntime::new();
    let task = Task::new(
        "task:consumed-result".to_string(),
        ECHO_PROTOCOL_ID.to_string(),
        object("text", "once"),
    );
    let handle = submit(&mut host, &mut runtime, task).expect("task submits");
    runtime.complete(&handle.task_id);
    let (mut task_pump, action) = TaskPump::start(0, &mut host);
    pump(&mut host, &mut runtime, &mut task_pump, action);
    let request = result_request(&handle.task_id);

    host.task_result(&request)
        .unwrap()
        .expect("first result read succeeds");
    assert!(host.task_result(&request).unwrap().is_err());
}

#[test]
fn host_emits_runtime_events_and_trace_spans_for_task() {
    let mut host = echo_host();
    let mut rx = host.events.subscribe();
    let mut runtime = PlayedRuntime::new();
    let mut asked = request(ECHO_PROTOCOL_ID, object("text", "trace"), "task:test:observe");
    asked.trace_id = Some("trace:test:observe".to_string());
    let task = asked.into_task();
    assert_eq!(task.trace_id.as_deref(), Some("trace:test:observe"));
    submit(&mut host, &mut runtime, task).unwrap();
    let sequence = runtime.events.len() as u64 + 1;
    runtime.events.push(RuntimeEvent {
        sequence,
        kind: RuntimeEventKind::Trace,
        name: "trace.span".to_string(),
        subject_id: Some("span".to_string()),
        attributes: OrderedMap::new(),
        error: None,
    });
    runtime.spans.push(TraceSpan {
        trace_id: "trace:test:observe".to_string(),
        name: "runner.run_batch".to_string(),
        rest: serde_json::Value::Null,
    });
    runtime.complete("task:test:observe");
    let (mut task_pump, action) = TaskPump::start(0, &mut host);
    pump(&mut host, &mut runtime, &mut task_pump, action);
    let result = host
        .task_result(&result_request("task:test:observe"))
        .unwrap()
        .expect("echo task completes");

    assert!(result.events.iter().any(|event| {
        event.kind == RuntimeEventKind::Task
            && event.name == "task.completed"
            && event.subject_id.as_deref() == Some("task:test:observe")
    }));

    let envelopes = collect_events(&mut rx);
    assert!(envelopes.iter().any(|event| {
        matches!(
            &event.payload,
            MutsukiFrontendEvent::Task { task_id, event }
                if task_id == "task:test:observe" && event.name == "task.completed"
        )
    }));
    assert!(envelopes.iter().any(|event| {
        matches!(
            &event.payload,
            MutsukiFrontendEvent::Runtime { event }
                if event.kind == RuntimeEventKind::Trace && event.name == "trace.span"
        )
    }));
    assert!(envelopes.iter().any(|event| {
        matches!(
            &event.payload,
            MutsukiFrontendEvent::Trace { span }
                if span.name == "runner.run_batch" && span.trace_id == "trace:test:observe"
        )
    }));
}

fn json_text(text: &str) -> JsonValue {
    JsonValue::String(text.to_string())
}

#[test]
fn host_log_event_redacts_sensitive_fields() {
    let mut host = named("MutsukiTauriHostLogTest");
    let mut rx = host.events.subscribe();

    let mut fields = OrderedMap::new();
    fields.insert("token".to_string(), json_text("secret-token"));
    fields.insert(
        "nested".to_string(),
        JsonValue::Object(vec![
            JsonMember {
                key: "password".to_string(),
                value: json_text("secret-password"),
            },
            JsonMember {
                key: "visible".to_string(),
                value: JsonValue::Bool(true),
            },
        ]),
    );
    host.emit_log("info", "test.observe", "structured log".to_string(), fields, 7);

    let envelopes = collect_events(&mut rx);
    let record = envelopes
        .iter()
        .find_map(|event| match &event.payload {
            MutsukiFrontendEvent::Log { record } => Some(record),
            _ => None,
        })
        .expect("log event emitted");

    assert_eq!(record.fields.get("token"), Some(&json_text("[redacted]")));
    assert_eq!(
        record.fields.get("nested"),
        Some(&JsonValue::Object(vec![
            JsonMember {
                key: "password".to_string(),
                value: json_text("[redacted]"),
            },
            JsonMember {
                key: "visible".to_string(),
                value: JsonValue::Bool(true),
            },
        ]))
    );
    assert_eq!(record.timestamp_ms, 7);
    assert_eq!(record.message, "structured log");
}

#[test]
fn approval_request_carries_attribution_to_pending_and_event() {
    let mut host = named("MutsukiTauriHostApprovalAttributionTest");
    let mut rx = host.events.subscribe();
    let context = FrontendContext {
        window_label: Some("main".to_string()),
        webview_id: Some("webview:main".to_string()),
        session_id: Some("session:test".to_string()),
        user_action_id: Some("action:delete".to_string()),
    };

    let request = host.request_approval_with_attribution(
        "fixture.plugin".to_string(),
        "resource.delete".to_string(),
        "high".to_string(),
        object("resource_ref", "ref:test"),
        ApprovalAttribution {
            trace_id: "trace:approval".to_string(),
            correlation_id: "corr:approval".to_string(),
            context: context.clone(),
        },
    );

    assert_eq!(request.trace_id, "trace:approval");
    assert_eq!(request.correlation_id, "corr:approval");
    assert_eq!(request.context, context);

    let pending = host.pending_approvals();
    assert_eq!(pending.len(), 1);
    assert_eq!(pending[0].trace_id, "trace:approval");
    assert_eq!(pending[0].correlation_id, "corr:approval");
    assert_eq!(pending[0].context, context);

    let envelopes = collect_events(&mut rx);
    let event_request = envelopes
        .iter()
        .find_map(|event| match &event.payload {
            MutsukiFrontendEvent::Approval { request } => Some(request),
            _ => None,
        })
        .expect("approval event emitted");
    assert_eq!(event_request.approval_id, request.approval_id);
    assert_eq!(event_request.trace_id, "trace:approval");
    assert_eq!(event_request.correlation_id, "corr:approval");
    assert_eq!(event_request.context, context);
}

#[test]
fn approval_rejects_mismatched_token_or_attribution_without_consuming_pending() {
    let mut host = named("MutsukiTauriHostApprovalResolveTest");
    let request = host.request_approval_with_attribution(
        "fixture.plugin".to_string(),
        "resource.write".to_string(),
        "medium".to_string(),
        object("resource_ref", "ref:test"),
        ApprovalAttribution {
            trace_id: "trace:approval:resolve".to_string(),
            correlation_id: "corr:approval:resolve".to_string(),
            context: FrontendContext {
                session_id: Some("session:resolve".to_string()),
                user_action_id: Some("action:write".to_string()),
                ..FrontendContext::default()
            },
        },
    );

    assert_eq!(
        host.resolve_approval(approval_response(&request, "wrong-token")),
        Err(HostError::Approval(format!(
            "approval token mismatch: {}",
            request.approval_id
        )))
    );
    assert_eq!(host.pending_approvals().len(), 1);

    let mut trace_mismatch = approval_response(&request, &request.token);
    trace_mismatch.trace_id = Some("trace:mismatch".to_string());
    assert!(host.resolve_approval(trace_mismatch).is_err());
    assert_eq!(host.pending_approvals().len(), 1);

    let mut correlation_mismatch = approval_response(&request, &request.token);
    correlation_mismatch.correlation_id = Some("corr:mismatch".to_string());
    assert!(host.resolve_approval(correlation_mismatch).is_err());
    assert_eq!(host.pending_approvals().len(), 1);

    let mut context_mismatch = approval_response(&request, &request.token);
    context_mismatch.context = Some(FrontendContext::default());
    assert_eq!(
        host.resolve_approval(context_mismatch),
        Err(HostError::Approval(format!(
            "approval attribution mismatch: {}",
            request.approval_id
        )))
    );
    assert_eq!(host.pending_approvals().len(), 1);

    let decision = host
        .resolve_approval(approval_response(&request, &request.token))
        .expect("matching approval resolves");
    assert_eq!(decision, ApprovalDecision::Allow);
    assert!(host.pending_approvals().is_empty());
    assert_eq!(
        host.resolve_approval(approval_response(&request, &request.token)),
        Err(HostError::Approval(format!(
            "approval request not pending: {}",
            request.approval_id
        )))
    );
}

#[test]
fn legacy_approval_request_generates_fallback_trace_and_preserves_context() {
    let mut host = named("MutsukiTauriHostApprovalFallbackTest");
    let context = FrontendContext {
        session_id: Some("session:legacy".to_string()),
        user_action_id: Some("action:legacy".to_string()),
        ..FrontendContext::default()
    };

    let request = host.request_approval(
        "fixture.plugin".to_string(),
        "resource.import".to_string(),
        "low".to_string(),
        object("resource_ref", "ref:legacy"),
        context.clone(),
    );

    assert!(request.trace_id.starts_with("approval-trace:"));
    assert!(request.correlation_id.starts_with("approval-correlation:"));
    assert_eq!(request.context, context);
    assert!(request.approval_id.starts_with("approval:"));
    assert_eq!(request.token.len(), 36);
}

fn plugin_manifest(
    plugin_id: &str,
    version: &str,
    is_process: bool,
    runners: Vec<RunnerDescriptor>,
) -> PluginManifest {
    PluginManifest {
        plugin_id: plugin_id.to_string(),
        version: version.to_string(),
        artifact: PluginArtifact {
            label: if is_process { "Process" } else { "Native" }.to_string(),
            is_process,
            default_deployment: if is_process {
                PluginDeploymentKind::Process
            } else {
                PluginDeploymentKind::Abi
            },
        },
        provides: PluginProvides {
            runners,
            host_extensions: Vec::new(),
            plugin_backends: Vec::new(),
        },
    }
}

fn runner_launch_spec(runner_id: &str, plugin_id: &str, command: &str) -> RunnerLaunchSpec {
    RunnerLaunchSpec {
        runner_id: runner_id.to_string(),
        plugin_id: plugin_id.to_string(),
        command: command.to_string(),
        args: Vec::new(),
        cwd: None,
        env: OrderedMap::new(),
        env_inherit: vec!["PATH".to_string()],
    }
}

fn read<T>(relative: &str, outcome: Result<T, String>) -> FileRead<T> {
    FileRead {
        path: format!("/found/{relative}"),
        relative: relative.to_string(),
        outcome,
    }
}

/// Scans what was read from disk. Every runner that is to be launched starts.
fn scanned(
    plugins: Vec<FileRead<PluginManifest>>,
    runners: Vec<FileRead<RunnerLaunchSpec>>,
) -> PluginRunnerLoad {
    let mut scan = PluginScan::new(index_plugins(plugins), index_runners(runners));
    while let Some(located) = scan.next_plugin() {
        let answers = located
            .manifest
            .provides
            .runners
            .iter()
            .map(|_| LaunchAnswer::Started)
            .collect();
        scan.settle(located, answers);
    }
    scan.finish()
}

fn loaded(
    plugins: Vec<FileRead<PluginManifest>>,
    runners: Vec<FileRead<RunnerLaunchSpec>>,
) -> MutsukiTauriHost {
    build(MutsukiTauriHost::builder(), scanned(plugins, runners))
}

#[test]
fn loader_records_malformed_plugin_manifest() {
    let error = parse_failure("/found/bad/plugin.toml", "unclosed array");
    let mut host = loaded(vec![read("bad/plugin.toml", Err(error))], Vec::new());

    let plugins = host.plugins();
    let status = host.status(Ok(Vec::new()), 2);
    assert_eq!(plugins.len(), 1);
    assert!(!plugins[0].enabled);
    assert_eq!(plugins[0].status, "failed");
    assert!(plugins[0]
        .error
        .as_deref()
        .is_some_and(|error| error.contains("failed to parse")));
    assert_eq!(plugins[0].plugin_id, "invalid:bad/plugin.toml");
    assert_eq!(plugins[0].version, "unknown");
    assert!(!status.healthy);
    assert!(!status.plugins_health.healthy);
    assert!(status.recent_errors.iter().any(|error| {
        error.source == "mutsuki_tauri_host.plugin"
            && error.plugin_id == Some(plugins[0].plugin_id.clone())
    }));
}

#[test]
fn loader_records_missing_runner_spec() {
    let mut host = loaded(
        vec![read(
            "plugin/plugin.toml",
            Ok(plugin_manifest(
                "fixture.missing_runner",
                "1.0.0",
                true,
                vec![runner_descriptor(
                    "fixture.missing_runner.runner",
                    "fixture.missing",
                )],
            )),
        )],
        Vec::new(),
    );

    let plugins = host.plugins();
    let runners = host.runners();
    let status = host.status(Ok(Vec::new()), 2);
    assert_eq!(plugins[0].plugin_id, "fixture.missing_runner");
    assert!(!plugins[0].enabled);
    assert!(plugins[0]
        .error
        .as_deref()
        .is_some_and(|error| error.contains("missing runner.toml")));
    assert!(!status.healthy);
    assert!(!status.plugins_health.healthy);
    assert!(!status.runners_health.healthy);
    assert!(status.runners.iter().any(|runner| {
        runner.runner_id == "fixture.missing_runner.runner" && runner.status == "failed"
    }));
    assert_eq!(runners[0].runner_id, "fixture.missing_runner.runner");
    assert!(!runners[0].enabled);

    let task = request("fixture.missing", empty_object(), "task:missing-runner").into_task();
    let error = host.ensure_protocol_available(&task.protocol_id).unwrap_err();
    assert!(matches!(
        error,
        HostError::RuntimeFailure(failure) if failure.code == ERR_RUNNER_NOT_FOUND
    ));
}

#[test]
fn loader_records_unsupported_plugin_artifact() {
    let host = loaded(
        vec![read(
            "plugin/plugin.toml",
            Ok(plugin_manifest("fixture.unsupported", "1.0.0", false, Vec::new())),
        )],
        Vec::new(),
    );

    let plugins = host.plugins();
    assert_eq!(plugins[0].plugin_id, "fixture.unsupported");
    assert!(!plugins[0].enabled);
    assert!(plugins[0]
        .error
        .as_deref()
        .is_some_and(|error| error.contains("unsupported")));
    assert_eq!(
        plugins[0].error.as_deref(),
        Some("unsupported plugin artifact Native in /found/plugin/plugin.toml")
    );
    assert_eq!(plugins[0].deployment, "abi");
}

#[test]
fn loader_records_duplicate_plugin_and_runner_ids() {
    let spec = || {
        runner_launch_spec(
            "fixture.duplicate.runner",
            "fixture.duplicate",
            "powershell.exe",
        )
    };
    let host = loaded(
        vec![
            read(
                "one/plugin.toml",
                Ok(plugin_manifest("fixture.duplicate", "1.0.0", true, Vec::new())),
            ),
            read(
                "two/plugin.toml",
                Ok(plugin_manifest("fixture.duplicate", "2.0.0", true, Vec::new())),
            ),
        ],
        vec![
            read("one/runner.toml", Ok(spec())),
            read("two/runner.toml", Ok(spec())),
        ],
    );

    assert!(host.plugins().iter().any(|plugin| {
        plugin.plugin_id == "fixture.duplicate"
            && !plugin.enabled
            && plugin
                .error
                .as_deref()
                .is_some_and(|error| error.contains("duplicate"))
    }));
    assert!(host.runners().iter().any(|runner| {
        runner.runner_id == "fixture.duplicate.runner"
            && !runner.enabled
            && runner
                .error
                .as_deref()
                .is_some_and(|error| error.contains("duplicate"))
    }));
}

#[test]
fn health_reports_external_runner_runtime_failure() {
    let mut host = loaded(
        vec![read(
            "plugin/plugin.toml",
            Ok(plugin_manifest(
                "fixture.failing_process",
                "1.0.0",
                true,
                vec![runner_descriptor(
                    "fixture.failing_process.runner",
                    "fixture.failing_process.echo",
                )],
            )),
        )],
        vec![read(
            "runner/runner.toml",
            Ok(runner_launch_spec(
                "fixture.failing_process.runner",
                "fixture.failing_process",
                "/fixture/runner",
            )),
        )],
    );
    let mut runtime = PlayedRuntime::new();
    let asked = request(
        "fixture.failing_process.echo",
        object("message", "hello"),
        "task:failing-process",
    );
    submit(&mut host, &mut runtime, asked.into_task()).unwrap();
    let error = RuntimeError::new("fixture.runner_failed", "fixture.runner", "runner.run");
    runner_failed(
        &mut host.events,
        &mut host.health,
        "fixture.failing_process.runner",
        "fixture.failing_process",
        &error,
        3,
    );
    runtime.ended.push((
        "task:failing-process".to_string(),
        TaskOutcome::Failed {
            task_id: "task:failing-process".to_string(),
            error,
        },
    ));
    let (mut task_pump, action) = TaskPump::start(0, &mut host);
    pump(&mut host, &mut runtime, &mut task_pump, action);
    let result = host
        .task_result(&result_request("task:failing-process"))
        .unwrap()
        .expect("runner failure is reported as a task outcome");
    assert!(matches!(
        result.outcome,
        Some(TaskOutcome::Failed { task_id, .. }) if task_id == "task:failing-process"
    ));
    let snapshot = HostTaskSnapshot {
        task_id: "task:failing-process".to_string(),
        protocol_id: "fixture.failing_process.echo".to_string(),
        status: TaskStatus::Failed,
        trace_id: None,
        correlation_id: None,
    };
    let status = host.status(Ok(vec![snapshot]), 4);
    assert!(!status.healthy);
    assert!(status.runtime.healthy);
    assert_eq!(status.runtime.failed_tasks, 1);
    assert!(!status.plugins_health.healthy);
    assert!(!status.runners_health.healthy);
    assert!(status.plugins.iter().any(|plugin| {
        plugin.plugin_id == "fixture.failing_process" && plugin.status == "degraded"
    }));
    assert!(status.runners.iter().any(|runner| {
        runner.runner_id == "fixture.failing_process.runner" && runner.status == "failed"
    }));
    assert!(status.recent_errors.iter().any(|error| {
        error.runner_id.as_deref() == Some("fixture.failing_process.runner")
            && error.code.as_deref() == Some("fixture.runner_failed")
    }));
    assert_eq!(
        status.plugins_health.error.as_deref(),
        Some("runner fixture.failing_process.runner failed")
    );
    assert_eq!(
        status.runners_health.error.as_deref(),
        Some("fixture.runner_failed at runner.run")
    );
}

#[test]
fn streaming_task_can_be_cancelled_while_runner_is_still_running() {
    let mut host = build(
        MutsukiTauriHost::builder()
            .app_name("MutsukiTauriHostStreamTest".to_string())
            .runner(RunnerDescriptor {
                runner_id: "stream.blocking.runner".to_string(),
                plugin_id: "stream.blocking.plugin".to_string(),
                accepted_protocol_ids: vec!["stream.blocking".to_string()],
            }),
        nothing_found(),
    );
    let mut rx = host.events.subscribe();
    let mut runtime = PlayedRuntime::new();
    let task = Task::new(
        "stream-cancel".to_string(),
        "stream.blocking".to_string(),
        empty_object(),
    );
    let handle = submit(&mut host, &mut runtime, task).expect("task starts");
    assert_eq!(handle.task_id, "stream-cancel");

    let target = host
        .cancel_target(&TaskCancelRequest {
            task_id: "stream-cancel".to_string(),
            reason: None,
        })
        .unwrap();
    let cancelled_task = host
        .take_cancelled(Ok(RuntimeReply::TaskCancelled(target)), 2)
        .expect("task cancels while runner is running");
    assert_eq!(cancelled_task.task_id, "stream-cancel");
    runtime.tell("stream-cancel", "task.cancelled");
    runtime.ended.push((
        "stream-cancel".to_string(),
        TaskOutcome::Cancelled {
            task_id: "stream-cancel".to_string(),
            reason: None,
        },
    ));
    let (mut task_pump, action) = TaskPump::start(0, &mut host);
    pump(&mut host, &mut runtime, &mut task_pump, action);
    let result = host
        .task_result(&result_request("stream-cancel"))
        .unwrap()
        .expect("cancelled result resolves");
    assert!(matches!(
        result.outcome,
        Some(TaskOutcome::Cancelled { task_id, .. }) if task_id == "stream-cancel"
    ));
    assert!(result.events.iter().any(|event| {
        event.kind == RuntimeEventKind::Task
            && event.name == "task.cancelled"
            && event.subject_id.as_deref() == Some("stream-cancel")
    }));
    assert!(result.events.iter().all(|event| event.name != "task.submit"));
    let envelopes = collect_events(&mut rx);
    assert!(envelopes.iter().any(|event| {
        matches!(
            &event.payload,
            MutsukiFrontendEvent::Task { task_id, event }
                if task_id == "stream-cancel" && event.name == "task.cancelled"
        )
    }));
}

fn refusal() -> RuntimeRefusal {
    RuntimeRefusal {
        error: RuntimeError::new("runtime.busy", "runtime", "submit"),
        shown: "busy in full".to_string(),
    }
}

#[test]
fn refusals_of_the_runtime_are_noted_and_told() {
    let mut host = echo_host();
    let mut rx = host.events.subscribe();
    let error = host.take_submitted(Err(refusal()), 9).unwrap_err();
    assert!(matches!(error, HostError::RuntimeFailure(error) if error.code == "runtime.busy"));
    assert!(host.take_submitted_batch(Err(refusal()), 9).is_err());
    assert!(host.take_cancelled(Err(refusal()), 9).is_err());
    let messages: Vec<String> = host
        .health
        .recent_errors()
        .into_iter()
        .map(|error| error.message)
        .collect();
    assert_eq!(
        messages,
        [
            "runtime task submit failed: busy in full",
            "runtime task submit failed: busy in full",
            "runtime task cancel failed: busy in full"
        ]
    );
    let told = collect_events(&mut rx);
    assert_eq!(told.len(), 3);
    for envelope in told {
        match envelope.payload {
            MutsukiFrontendEvent::Log { record } => {
                assert_eq!(record.level, "error");
                assert_eq!(record.target, "mutsuki_tauri_host.runtime");
                assert_eq!(record.fields.get("error"), Some(&json_text("busy in full")));
            }
            other => panic!("not a line of the log: {other:?}"),
        }
    }
}

#[test]
fn unexpected_replies_are_errors() {
    let mut host = echo_host();
    let words = |error: HostError| match error {
        HostError::Runtime(words) => words,
        other => panic!("another error: {other:?}"),
    };
    let error = host.take_submitted(Ok(RuntimeReply::Other), 1).unwrap_err();
    assert_eq!(words(error), "unexpected submit reply");
    let error = host
        .take_submitted_batch(Ok(RuntimeReply::Other), 1)
        .unwrap_err();
    assert_eq!(words(error), "unexpected submit batch reply");
    let error = host.take_cancelled(Ok(RuntimeReply::Other), 1).unwrap_err();
    assert_eq!(words(error), "unexpected cancel reply");
    let error = host
        .cancel_target(&TaskCancelRequest {
            task_id: "gone".to_string(),
            reason: None,
        })
        .unwrap_err();
    assert_eq!(words(error), "task is not tracked: gone");
    let error = host
        .peek_task_result(&result_request("gone"))
        .unwrap()
        .unwrap_err();
    assert_eq!(words(error), "task result is not tracked: gone");
}

#[test]
fn a_failed_reading_is_noted_and_told() {
    let mut host = echo_host();
    let mut rx = host.events.subscribe();
    assert!(host.take_drained(Ok(()), 1).is_ok());
    let error = host.take_drained(Err("stuck".to_string()), 1).unwrap_err();
    assert_eq!(error, HostError::Runtime("stuck".to_string()));
    assert_eq!(
        host.health.recent_errors()[0].message,
        "runtime observability drain failed: stuck"
    );
    assert_eq!(collect_events(&mut rx).len(), 1);
}

#[test]
fn a_pump_that_gives_up_answers_everyone() {
    let failures = [
        (PumpFailure::Observe("stuck".to_string()), "stuck", 1),
        (PumpFailure::Runtime("gone".to_string()), "gone", 1),
        (
            PumpFailure::Closed,
            "runtime completion subscription closed",
            0,
        ),
        (
            PumpFailure::Spawn("no thread".to_string()),
            "failed to spawn task pump: no thread",
            0,
        ),
    ];
    for (failure, words, told) in failures {
        let mut host = echo_host();
        let mut rx = host.events.subscribe();
        host.tasks.track(handle_of(&Task::new(
            "t".to_string(),
            ECHO_PROTOCOL_ID.to_string(),
            empty_object(),
        )));
        host.pump_failed(failure, 1);
        assert_eq!(
            host.task_result(&result_request("t")),
            Some(Err(HostError::Runtime(words.to_string())))
        );
        assert_eq!(collect_events(&mut rx).len(), told);
    }
    let mut host = echo_host();
    assert!(host.tasks.start_pump());
    let (mut task_pump, _) = TaskPump::start(0, &mut host);
    assert_eq!(
        task_pump.step(&mut host, PumpEvent::Revision(None), 1),
        PumpAction::Stop
    );
    assert!(host.tasks.start_pump());
    assert_eq!(
        task_pump.step(&mut host, PumpEvent::States(Err("gone".to_string())), 1),
        PumpAction::Stop
    );
    assert_eq!(
        task_pump.step(&mut host, PumpEvent::Drained(Err("stuck".to_string())), 1),
        PumpAction::Stop
    );
}

#[test]
fn a_runtime_that_does_not_answer_is_unhealthy() {
    let mut host = echo_host();
    let status = host.status(Err("no answer".to_string()), 12);
    assert!(!status.healthy);
    assert!(!status.runtime.healthy);
    assert_eq!(status.runtime.status, "failed");
    assert_eq!(status.runtime.error.as_deref(), Some("no answer"));
    assert_eq!(status.host.status, "running");
    assert_eq!(status.plugins_health.status, "ok");
    assert_eq!(status.recent_errors[0].source, "mutsuki_tauri_host.runtime");
    assert_eq!(status.recent_errors[0].timestamp_ms, 12);
    assert_eq!(status.plugins[0].deployment, "builtin");
    assert_eq!(status.runners[0].status, "loaded");
}

#[test]
fn the_first_unknown_protocol_of_a_batch_is_named() {
    let host = echo_host();
    let task = |protocol: &str| {
        Task::new("t".to_string(), protocol.to_string(), empty_object())
    };
    let batch = TaskBatch {
        batch_id: "b".to_string(),
        tick_id: None,
        resource_plan: None,
        tasks: vec![task(ECHO_PROTOCOL_ID), task("second"), task("third")],
    };
    let error = host.ensure_batch_available(&batch).unwrap_err();
    let shown = FrontendError::from(error);
    assert_eq!(shown.code, ERR_RUNNER_NOT_FOUND);
    assert!(format!("{:?}", shown.details).contains("second"));
}

#[test]
fn a_builtin_plugin_may_not_take_the_name_of_another() {
    let manifests = vec![plugin_manifest("taken", "1.0.0", true, Vec::new())];
    let load = PluginRunnerLoad {
        manifests,
        plugins: Vec::new(),
        runners: Vec::new(),
    };
    let builtin = BuiltinPlugin {
        plugin_id: "taken".to_string(),
        version: "0".to_string(),
        runners: Vec::new(),
    };
    let error = plan_host(load, vec![builtin]).unwrap_err();
    assert_eq!(
        error,
        HostError::Config(
            "builtin runner plugin id conflicts with discovered plugin: taken".to_string()
        )
    );
}

#[test]
fn a_plan_lists_everything_in_order() {
    let load = scanned(
        vec![read(
            "m/plugin.toml",
            Ok(plugin_manifest(
                "m",
                "3",
                true,
                vec![runner_descriptor("m.run", "proto.m")],
            )),
        )],
        vec![read("m/runner.toml", Ok(runner_launch_spec("m.run", "m", "run")))],
    );
    let groups = group_runners(vec![
        runner_descriptor("z.two", "proto.z2"),
        runner_descriptor("a.one", "proto.a"),
        runner_descriptor("z.one", "proto.z1"),
    ]);
    let builtins: Vec<BuiltinPlugin> = groups
        .into_entries()
        .into_iter()
        .map(|entry| BuiltinPlugin {
            plugin_id: entry.key,
            version: "0".to_string(),
            runners: entry.value,
        })
        .collect();
    assert_eq!(builtins[1].runners[0].runner_id, "z.two");
    assert_eq!(builtins[1].runners[1].runner_id, "z.one");
    let plan = plan_host(load, builtins).unwrap();
    let plugins: Vec<&str> = plan
        .plugins
        .iter()
        .map(|plugin| plugin.plugin_id.as_str())
        .collect();
    assert_eq!(plugins, ["a", "m", "z"]);
    let runners: Vec<&str> = plan
        .runners
        .iter()
        .map(|runner| runner.runner_id.as_str())
        .collect();
    assert_eq!(runners, ["a.one", "m.run", "z.one", "z.two"]);
    assert_eq!(
        plan.deployments.get("m"),
        Some(&PluginDeploymentKind::Process)
    );
    assert_eq!(
        plan.deployments.get("z"),
        Some(&PluginDeploymentKind::Builtin)
    );
    for protocol in ["proto.m", "proto.a", "proto.z1", "proto.z2"] {
        assert!(plan.active_protocols.contains_key(protocol));
    }
    assert_eq!(plan.active_protocols.len(), 4);
    assert!(plan.manifests[0]
        .provides
        .plugin_backends
        .iter()
        .any(|backend| backend.backend_id == "plugin.backend.m.process"));
}

#[test]
fn a_configuration_starts_from_the_name_of_the_app() {
    let config = MutsukiTauriConfig::for_app("Demo".to_string());
    assert_eq!(config.app_id, "local.Demo");
    assert_eq!(config.profile_id, "default");
    assert_eq!(config.mode, HostMode::Embedded);
    assert_eq!(config.max_ticks_per_call, 64);
    assert_eq!(config.event_buffer, 1024);
    assert_eq!(config.preview_ttl_secs, 300);
    assert!(config.security.require_approval_for_side_effect);
    assert!(!config.security.allow_dev_commands);
    assert_eq!(config.paths.logs_dir.root, None);
    assert_eq!(config.paths.logs_dir.segments, ["Demo", "mutsuki", "logs"]);
    let below = PathsConfig::below(HostPath::at("/tmp/x".to_string()));
    assert_eq!(below.runners_dir.root.as_deref(), Some("/tmp/x"));
    assert_eq!(below.runners_dir.segments, ["runners"]);
    assert!(below.app_data_dir.segments.is_empty());
    let (renamed, groups) = MutsukiTauriHostBuilder::default()
        .config(config)
        .app_name("Other".to_string())
        .into_parts();
    assert_eq!(renamed.app_name, "Other");
    assert_eq!(renamed.app_id, "local.Demo");
    assert_eq!(renamed.paths.data_dir.segments, ["Other", "mutsuki", "data"]);
    assert_eq!(groups.len(), 0);
}

#[test]
fn a_request_without_a_name_gets_one() {
    let mut asked = request("p", empty_object(), "");
    asked.task_id = None;
    asked.priority = 5;
    asked.input_refs = vec!["r".to_string()];
    let task = asked.into_task();
    assert!(task.task_id.starts_with("tauri-task:"));
    assert_eq!(task.task_id.len(), "tauri-task:".len() + 36);
    assert_eq!(task.priority, 5);
    assert_eq!(task.input_refs, ["r"]);
}
