//! The supervisor of the tasks in flight, and the pump and the readings that drive it.
use mutsuki_tauri_host::contracts::{
    CancelPolicy, HostTaskState, ObservabilityPage, RuntimeError, RuntimeEvent, RuntimeEventKind,
    TaskHandle, TaskOutcome, TaskStatus, TraceSpan,
};
use mutsuki_tauri_host::error::HostError;
use mutsuki_tauri_host::events::{EventHub, FrontendEventEnvelope, MutsukiFrontendEvent};
use mutsuki_tauri_host::health::HostHealthState;
use mutsuki_tauri_host::observe::{emit_frontend_events, Drain, DrainAction, PAGE_LIMIT};
use mutsuki_tauri_host::ordered_map::OrderedMap;
use mutsuki_tauri_host::supervision::MAX_RETAINED_RESULTS;
use mutsuki_tauri_host::supervisor::TaskSupervisor;

fn handle(task_id: &str, protocol_id: &str) -> TaskHandle {
    TaskHandle {
        task_id: task_id.to_string(),
        protocol_id: protocol_id.to_string(),
        target_binding_id: None,
        cancel_policy: CancelPolicy::Cascade,
        trace_id: None,
        correlation_id: None,
    }
}

fn completed(handle: &TaskHandle) -> HostTaskState {
    HostTaskState {
        handle: handle.clone(),
        status: Some(TaskStatus::Completed),
        outcome: Some(TaskOutcome::Completed {
            task_id: handle.task_id.clone(),
            output_ref: None,
        }),
    }
}

fn event(sequence: u64, task_id: &str, name: &str) -> RuntimeEvent {
    RuntimeEvent {
        sequence,
        kind: RuntimeEventKind::Task,
        name: name.to_string(),
        subject_id: Some(task_id.to_string()),
        attributes: OrderedMap::new(),
        error: None,
    }
}

fn page<T>(items: Vec<T>, next_sequence: u64) -> ObservabilityPage<T> {
    ObservabilityPage {
        items,
        next_sequence,
        earliest_available_sequence: Some(1),
        latest_sequence: next_sequence,
        lost: 0,
        truncated: false,
        dropped: 0,
    }
}

fn received(rx: &mut tokio::sync::broadcast::Receiver<FrontendEventEnvelope>) -> Vec<FrontendEventEnvelope> {
    let mut envelopes = Vec::new();
    while let Ok(envelope) = rx.try_recv() {
        envelopes.push(envelope);
    }
    envelopes
}

#[test]
fn unread_terminal_results_are_bounded() {
    let mut supervisor = TaskSupervisor::default();
    let handles: Vec<TaskHandle> = (0..=MAX_RETAINED_RESULTS)
        .map(|index| handle(&format!("task:retained:{index:03}"), "test.retention"))
        .collect();
    for handle in &handles {
        supervisor.track(handle.clone());
    }
    supervisor.finish_tasks(handles.iter().map(completed).collect());
    assert_eq!(supervisor.waiting_results(), MAX_RETAINED_RESULTS);

    let newest = &handles.last().expect("newest handle").task_id;
    let oldest = &handles.first().expect("oldest handle").task_id;
    assert!(supervisor.poll_result(newest, true).unwrap().is_ok());
    assert!(supervisor.poll_result(oldest, true).unwrap().is_err());

    let mut failed = TaskSupervisor::default();
    for handle in &handles {
        failed.track(handle.clone());
    }
    failed.fail_active("pump failed");
    assert_eq!(failed.waiting_results(), MAX_RETAINED_RESULTS);
    assert_eq!(
        failed.poll_result(&handles[0].task_id, false),
        Some(Err(HostError::Runtime(
            "task result is not tracked: task:retained:000".to_string()
        )))
    );
    assert_eq!(
        failed.poll_result(newest, false),
        Some(Err(HostError::Runtime("pump failed".to_string())))
    );
}

#[test]
fn kept_events_are_the_last_ones_and_the_others_are_counted() {
    let tasks = ["task:kept:a", "task:kept:b"];
    let mut supervisor = TaskSupervisor::new(3, 4);
    let handles = tasks.map(|task_id| handle(task_id, "test.events"));
    for handle in &handles {
        supervisor.track(handle.clone());
    }
    let order = [0, 0, 1, 0, 0, 1, 1, 0];
    let items = (1..)
        .zip(order)
        .map(|(sequence, task)| event(sequence, tasks[task], "task.event"))
        .collect();
    supervisor.ingest_runtime_page(page(items, 8), &mut HostHealthState::new(), 0);
    supervisor.finish_tasks(handles.iter().map(completed).collect());
    let mut kept = 0;
    for (task, task_id) in tasks.iter().enumerate() {
        let given: Vec<u64> = (1..)
            .zip(order)
            .filter(|(_, about)| *about == task)
            .map(|(sequence, _)| sequence)
            .collect();
        let result = supervisor.poll_result(task_id, false).unwrap().unwrap();
        let held: Vec<u64> = result.events.iter().map(|event| event.sequence).collect();
        assert_eq!(held, given[result.events_dropped as usize..]);
        assert_eq!(result.events_truncated, result.events_dropped > 0);
        assert!(held.len() <= 3);
        kept += held.len();
    }
    assert_eq!(kept, 4);
}

#[test]
fn an_event_is_kept_within_both_bounds() {
    let mut supervisor = TaskSupervisor::new(2, 3);
    for (sequence, task_id) in [(1, "a"), (2, "a"), (3, "a"), (4, "b"), (5, "b")] {
        supervisor.retain_task_event(task_id.to_string(), event(sequence, task_id, "task.event"));
        assert!(supervisor.retained_for("a") + supervisor.retained_for("b") <= 3);
    }
    assert_eq!(supervisor.retained_for("a"), 1);
    assert_eq!(supervisor.retained_for("b"), 2);
    assert_eq!(supervisor.retained(), 3);
}

#[test]
fn task_event_cache_enforces_per_task_and_global_limits() {
    let mut supervisor = TaskSupervisor::new(2, 3);
    let handles = ["task:event:a", "task:event:b"].map(|task_id| handle(task_id, "test.events"));
    for handle in &handles {
        supervisor.track(handle.clone());
    }
    let items = (1..=6)
        .map(|sequence| {
            event(
                sequence,
                &handles[(sequence as usize) % 2].task_id,
                &format!("task.event.{sequence}"),
            )
        })
        .collect();
    supervisor.ingest_runtime_page(page(items, 6), &mut HostHealthState::new(), 0);
    assert!(supervisor.retained() <= 3);
    assert!(handles
        .iter()
        .all(|handle| supervisor.retained_for(&handle.task_id) <= 2));

    supervisor.finish_tasks(handles.iter().map(completed).collect());
    let results: Vec<_> = handles
        .iter()
        .map(|handle| {
            supervisor
                .poll_result(&handle.task_id, false)
                .unwrap()
                .expect("peek result")
        })
        .collect();
    assert!(results.iter().all(|result| result.events.len() <= 2));
    assert!(results
        .iter()
        .any(|result| result.events_dropped > 0 && result.events_truncated));
}

#[test]
fn result_peek_is_repeatable_and_failed_reads_are_retained() {
    let mut supervisor = TaskSupervisor::default();
    let handle = handle("task:peek", "test.peek");
    supervisor.track(handle.clone());
    assert!(supervisor.poll_result(&handle.task_id, false).is_none());
    supervisor.finish_tasks(vec![completed(&handle)]);

    assert!(supervisor.poll_result(&handle.task_id, false).unwrap().is_ok());
    assert!(supervisor.poll_result(&handle.task_id, false).unwrap().is_ok());
    assert!(supervisor.poll_result(&handle.task_id, true).unwrap().is_ok());
    assert!(supervisor.poll_result(&handle.task_id, true).unwrap().is_err());

    let mut failed = TaskSupervisor::default();
    failed.track(handle.clone());
    failed.fail_active("pump failed");
    assert!(failed.poll_result(&handle.task_id, true).unwrap().is_err());
    assert!(failed.poll_result(&handle.task_id, true).unwrap().is_err());
}

#[test]
fn kept_events_are_exactly_the_newest_ones() {
    let mut supervisor = TaskSupervisor::new(2, 3);
    let a = handle("a", "p");
    let b = handle("b", "p");
    supervisor.track(a.clone());
    supervisor.track(b.clone());
    let items = vec![
        event(1, "a", "one"),
        event(2, "b", "two"),
        event(3, "a", "three"),
        event(4, "a", "four"),
        event(5, "b", "five"),
    ];
    supervisor.ingest_runtime_page(page(items, 5), &mut HostHealthState::new(), 0);
    assert_eq!(supervisor.retained(), 3);
    assert_eq!(supervisor.retained_for("a"), 2);
    assert_eq!(supervisor.retained_for("b"), 1);
    assert_eq!(supervisor.observe_cursor(), (5, 0));
    supervisor.finish_tasks(vec![completed(&a), completed(&b)]);
    assert_eq!(supervisor.retained(), 0);
    let first = supervisor.poll_result("a", true).unwrap().unwrap();
    let names: Vec<&str> = first.events.iter().map(|event| event.name.as_str()).collect();
    assert_eq!(names, ["three", "four"]);
    assert_eq!(first.events_dropped, 1);
    let second = supervisor.poll_result("b", true).unwrap().unwrap();
    let names: Vec<&str> = second.events.iter().map(|event| event.name.as_str()).collect();
    assert_eq!(names, ["five"]);
    assert_eq!(second.events_dropped, 1);
    assert!(second.events_truncated);
}

#[test]
fn a_supervisor_without_room_keeps_no_event() {
    let mut supervisor = TaskSupervisor::new(0, 10);
    let task = handle("a", "p");
    supervisor.track(task.clone());
    let items = vec![event(1, "a", "one"), event(2, "a", "two")];
    supervisor.ingest_runtime_page(page(items, 2), &mut HostHealthState::new(), 0);
    supervisor.finish_tasks(vec![completed(&task)]);
    let result = supervisor.poll_result("a", true).unwrap().unwrap();
    assert!(result.events.is_empty());
    assert_eq!(result.events_dropped, 2);
    assert!(result.events_truncated);
}

#[test]
fn a_gap_is_told_and_truncates_every_task_in_flight() {
    let mut supervisor = TaskSupervisor::default();
    let task = handle("a", "p");
    supervisor.track(task.clone());
    let mut lossy = page(vec![event(9, "a", "nine")], 9);
    lossy.lost = 4;
    lossy.dropped = 7;
    let told = supervisor.ingest_runtime_page(lossy, &mut HostHealthState::new(), 0);
    assert_eq!(told.len(), 2);
    assert!(matches!(
        &told[0],
        MutsukiFrontendEvent::ObservabilityGap { stream, lost: 4, dropped: 7 }
            if stream == "runtime_event"
    ));
    assert_eq!(told[1].channel(), "mutsuki://task/event");
    supervisor.finish_tasks(vec![completed(&task)]);
    let result = supervisor.poll_result("a", true).unwrap().unwrap();
    assert_eq!(result.events_dropped, 0);
    assert!(result.events_truncated);
}

#[test]
fn following_a_task_again_forgets_what_was_known_of_it() {
    let mut supervisor = TaskSupervisor::default();
    let task = handle("a", "p");
    supervisor.track(task.clone());
    supervisor.finish_tasks(vec![completed(&task)]);
    supervisor.track(task.clone());
    assert!(supervisor.poll_result("a", true).is_none());
    assert_eq!(supervisor.waiting_results(), 0);
    assert_eq!(supervisor.handle_for("a"), Some(task));
    assert_eq!(supervisor.handle_for("b"), None);
}

#[test]
fn a_task_without_an_outcome_stays_in_flight() {
    let mut supervisor = TaskSupervisor::default();
    let task = handle("a", "p");
    supervisor.track(task.clone());
    let waiting = HostTaskState {
        handle: task.clone(),
        status: Some(TaskStatus::Waiting),
        outcome: None,
    };
    assert!(supervisor.finish_tasks(vec![waiting]));
    assert!(supervisor.poll_result("a", true).is_none());
    assert!(!supervisor.finish_tasks(vec![completed(&task)]));
}

#[test]
fn the_pump_is_claimed_once_and_never_after_a_shutdown() {
    let mut supervisor = TaskSupervisor::default();
    assert!(supervisor.start_pump());
    assert!(!supervisor.start_pump());
    assert!(supervisor.set_pump_subscription());
    assert!(supervisor.accepts_pump_thread());
    assert!(supervisor.active_snapshot().is_none());
    assert!(supervisor.start_pump());
    supervisor.track(handle("b", "p"));
    supervisor.track(handle("a", "p"));
    let active = supervisor.active_snapshot().unwrap();
    let ids: Vec<&str> = active.iter().map(|handle| handle.task_id.as_str()).collect();
    assert_eq!(ids, ["a", "b"]);
    supervisor.shutdown("closing");
    assert!(!supervisor.start_pump());
    assert!(!supervisor.set_pump_subscription());
    assert!(!supervisor.accepts_pump_thread());
    assert!(supervisor.active_snapshot().is_none());
    assert_eq!(
        supervisor.poll_result("a", true),
        Some(Err(HostError::Runtime("closing".to_string())))
    );
}

#[test]
fn batches_are_bounded_and_keep_the_order() {
    let mut hub = EventHub::new(64);
    let mut rx = hub.subscribe();
    let events: Vec<MutsukiFrontendEvent> = (0..7)
        .map(|index| MutsukiFrontendEvent::Runner {
            runner_id: format!("r{index}"),
            status: "running".to_string(),
        })
        .collect();
    emit_frontend_events(&mut hub, events, 3);
    let envelopes = received(&mut rx);
    assert_eq!(envelopes.len(), 3);
    let mut seen = Vec::new();
    for (index, envelope) in envelopes.into_iter().enumerate() {
        assert_eq!(envelope.sequence, index as u64 + 1);
        match envelope.payload {
            MutsukiFrontendEvent::Batch { events } => {
                assert_eq!(envelope.channel, "mutsuki://event/batch");
                assert_eq!(events.len(), 3);
                seen.extend(events);
            }
            single => {
                assert_eq!(envelope.channel, "mutsuki://runner/event");
                seen.push(single);
            }
        }
    }
    for (index, event) in seen.iter().enumerate() {
        assert!(matches!(
            event,
            MutsukiFrontendEvent::Runner { runner_id, .. } if *runner_id == format!("r{index}")
        ));
    }
    emit_frontend_events(&mut hub, Vec::new(), 3);
    assert!(received(&mut rx).is_empty());
    let two = vec![
        MutsukiFrontendEvent::Runner {
            runner_id: "x".to_string(),
            status: "s".to_string(),
        },
        MutsukiFrontendEvent::Runner {
            runner_id: "y".to_string(),
            status: "s".to_string(),
        },
    ];
    emit_frontend_events(&mut hub, two, 0);
    assert_eq!(received(&mut rx).len(), 2);
}

#[test]
fn a_reading_takes_all_events_and_then_all_spans() {
    let mut hub = EventHub::new(64);
    let mut rx = hub.subscribe();
    let mut tasks = TaskSupervisor::default();
    let mut health = HostHealthState::new();
    tasks.track(handle("a", "p"));
    let (mut drain, action) = Drain::start(&tasks);
    assert_eq!(
        action,
        DrainAction::ReadEvents {
            after: 0,
            limit: PAGE_LIMIT
        }
    );
    let mut first = page(vec![event(1, "a", "one")], 1);
    first.truncated = true;
    let action = drain.take_events(&mut hub, &mut tasks, &mut health, Ok(first), 32, 0);
    assert_eq!(action, DrainAction::ReadEvents { after: 1, limit: 256 });
    let last = page(vec![event(2, "a", "two")], 2);
    let action = drain.take_events(&mut hub, &mut tasks, &mut health, Ok(last), 32, 0);
    assert_eq!(action, DrainAction::ReadTraces { after: 0, limit: 256 });
    let spans = page(
        vec![TraceSpan {
            trace_id: "t".to_string(),
            name: "n".to_string(),
            rest: serde_json::Value::Null,
        }],
        8,
    );
    let action = drain.take_traces(&mut hub, &mut tasks, Ok(spans), 32);
    assert_eq!(action, DrainAction::Finish(Ok(())));
    assert_eq!(tasks.observe_cursor(), (2, 8));
    let channels: Vec<String> = received(&mut rx)
        .into_iter()
        .map(|envelope| envelope.channel)
        .collect();
    assert_eq!(
        channels,
        [
            "mutsuki://task/event",
            "mutsuki://task/event",
            "mutsuki://trace/event"
        ]
    );
}

#[test]
fn a_reading_that_does_not_get_on_is_given_up() {
    let mut hub = EventHub::new(4);
    let mut tasks = TaskSupervisor::default();
    let mut health = HostHealthState::new();
    let (mut drain, _) = Drain::start(&tasks);
    let mut stuck: ObservabilityPage<RuntimeEvent> = page(Vec::new(), 0);
    stuck.truncated = true;
    let action = drain.take_events(&mut hub, &mut tasks, &mut health, Ok(stuck), 1, 0);
    assert_eq!(
        action,
        DrainAction::Finish(Err("runtime event cursor did not advance".to_string()))
    );
    let mut stuck: ObservabilityPage<TraceSpan> = page(Vec::new(), 0);
    stuck.truncated = true;
    let action = drain.take_traces(&mut hub, &mut tasks, Ok(stuck), 1);
    assert_eq!(
        action,
        DrainAction::Finish(Err("trace cursor did not advance".to_string()))
    );
    let refused = Err("gone".to_string());
    let action = drain.take_events(&mut hub, &mut tasks, &mut health, refused, 1, 0);
    assert_eq!(action, DrainAction::Finish(Err("gone".to_string())));
    let mut further: ObservabilityPage<TraceSpan> = page(Vec::new(), 3);
    further.truncated = true;
    let action = drain.take_traces(&mut hub, &mut tasks, Ok(further), 1);
    assert_eq!(action, DrainAction::ReadTraces { after: 3, limit: 256 });
}

#[test]
fn an_observed_error_is_remembered_without_its_secrets() {
    let mut tasks = TaskSupervisor::default();
    let mut health = HostHealthState::new();
    tasks.track(handle("a", "p"));
    let mut failed = event(1, "a", "task.failed");
    failed.error = Some(RuntimeError::with_evidence(
        "code.x",
        "source.x",
        "route.x",
        "api_key",
        "hush",
    ));
    let told = tasks.ingest_runtime_page(page(vec![failed], 1), &mut health, 42);
    let errors = health.recent_errors();
    assert_eq!(errors.len(), 1);
    assert_eq!(errors[0].message, "code.x at route.x");
    assert_eq!(errors[0].source, "source.x");
    assert_eq!(errors[0].task_id.as_deref(), Some("a"));
    assert_eq!(errors[0].timestamp_ms, 42);
    assert!(!format!("{told:?}").contains("hush"));
}
