//! The task pump: it asks the runtime how the tasks in flight stand whenever it is told that some
//! ended, and comes to rest when none is left.
use crate::contracts::{HostTaskState, TaskHandle};
use crate::events;
use crate::host::{HostView, MutsukiTauriHost, PumpFailure};
use crate::host;
use crate::supervision::SupervisorView;
use crate::supervision;
use crate::supervisor;
use vstd::prelude::*;

verus! {

/// What the pump does next.
#[derive(Debug, PartialEq, Eq)]
pub enum PumpAction {
    /// Ask the runtime how a row of tasks stands.
    Query(Vec<TaskHandle>),
    /// Read the runtime's streams.
    Drain,
    /// Wait until the runtime tells of something newer than a number.
    Wait(u64),
    Stop,
}

/// What the pump is told.
#[derive(Debug, PartialEq, Eq)]
pub enum PumpEvent {
    /// How the tasks stand, or why the runtime does not say.
    States(Result<Vec<HostTaskState>, String>),
    /// The runtime's streams were read, or why they could not be.
    Drained(Result<(), String>),
    /// The number of what the runtime told last; none where it tells no more.
    Revision(Option<u64>),
}

/// A pump at work.
#[derive(Debug)]
pub struct TaskPump {
    revision: u64,
    states: Vec<HostTaskState>,
}

/// The number of what the runtime told last, and how the tasks stood when they were asked for.
pub struct PumpView {
    pub revision: u64,
    pub states: Seq<HostTaskState>,
}

impl View for TaskPump {
    type V = PumpView;

    closed spec fn view(&self) -> PumpView {
        PumpView { revision: self.revision, states: self.states@ }
    }
}

/// The host went from `before` to `after` when the pump looked for tasks in flight, and `action` is
/// what it does next: it stops where none is or the host shuts down.
pub open spec fn looked(before: HostView, after: HostView, action: PumpAction) -> bool {
    if before.tasks.active.len() == 0 || before.tasks.shutting_down {
        &&& action is Stop
        &&& after == (HostView {
            tasks: SupervisorView {
                pump_running: false,
                pump_subscribed: false,
                ..before.tasks
            },
            ..before
        })
    } else {
        &&& action matches PumpAction::Query(handles) && handles@ == supervisor::handles_in_order(
            before.tasks.active,
        )
        &&& after == before
    }
}

/// The host went from `before` to `after` when the pump gave up.
pub open spec fn gave_up(before: HostView, after: HostView, failure: PumpFailure, now: i64) -> bool {
    &&& after == (HostView {
        hub: after.hub,
        tasks: supervision::all_failed(before.tasks, host::pump_words(failure)),
        ..before
    })
    &&& match host::pump_line(failure, now) {
        Some(event) => events::tried(before.hub, after.hub, event),
        None => after.hub == before.hub,
    }
}

/// What follows an event of the pump.
pub open spec fn stepped(
    pump: PumpView,
    next: PumpView,
    before: HostView,
    after: HostView,
    event: PumpEvent,
    now: i64,
    action: PumpAction,
) -> bool {
    match event {
        PumpEvent::States(Ok(states)) => {
            &&& action is Drain
            &&& next == (PumpView { states: states@, ..pump })
            &&& after == before
        },
        PumpEvent::States(Err(error)) => {
            &&& action is Stop
            &&& gave_up(before, after, PumpFailure::Runtime(error), now)
        },
        PumpEvent::Drained(Ok(_)) => {
            let settled = supervision::tasks_settled(
                before.tasks,
                supervisor::state_views(pump.states),
            );
            if settled.active.len() > 0 {
                &&& action == PumpAction::Wait(pump.revision)
                &&& next.revision == pump.revision
                &&& after == (HostView { tasks: settled, ..before })
            } else {
                &&& action is Stop
                &&& after == (HostView {
                    tasks: SupervisorView {
                        pump_running: false,
                        pump_subscribed: false,
                        ..settled
                    },
                    ..before
                })
            }
        },
        PumpEvent::Drained(Err(error)) => {
            &&& action is Stop
            &&& gave_up(before, after, PumpFailure::Observe(error), now)
        },
        PumpEvent::Revision(Some(revision)) => {
            &&& next.revision == revision
            &&& looked(before, after, action)
        },
        PumpEvent::Revision(None) => {
            &&& action is Stop
            &&& gave_up(before, after, PumpFailure::Closed, now)
        },
    }
}

/// Whenever the pump stops, it is at rest and can be started again.
pub proof fn law_stopped_pump_is_at_rest(
    pump: PumpView,
    next: PumpView,
    before: HostView,
    after: HostView,
    event: PumpEvent,
    now: i64,
    action: PumpAction,
)
    requires
        stepped(pump, next, before, after, event, now, action),
        action is Stop,
    ensures
        !after.tasks.pump_running,
{
    match event {
        PumpEvent::States(Err(error)) => {
            lemma_at_rest(before.tasks, host::pump_words(PumpFailure::Runtime(error)));
        },
        PumpEvent::Drained(Err(error)) => {
            lemma_at_rest(before.tasks, host::pump_words(PumpFailure::Observe(error)));
        },
        PumpEvent::Revision(None) => {
            lemma_at_rest(before.tasks, host::pump_words(PumpFailure::Closed));
        },
        _ => {},
    }
}

proof fn lemma_at_rest(v: SupervisorView, message: Seq<char>)
    ensures
        !supervision::all_failed(v, message).pump_running,
{
    supervision::lemma_failing_keeps_pump(
        SupervisorView {
            active: Map::empty(),
            pump_running: false,
            pump_subscribed: false,
            ..v
        },
        crate::ordered_map::in_order(v.active.dom()),
        message,
    );
}

/// The pump asks the runtime only after it was told of something new: between two questions it
/// waits.
pub proof fn law_pump_waits_between_questions(
    pump: PumpView,
    next: PumpView,
    before: HostView,
    after: HostView,
    event: PumpEvent,
    now: i64,
    action: PumpAction,
)
    requires
        stepped(pump, next, before, after, event, now, action),
        action is Query,
    ensures
        event matches PumpEvent::Revision(Some(_)),
{
}

fn look(host: &mut MutsukiTauriHost) -> (action: PumpAction)
    ensures
        looked(old(host)@, final(host)@, action),
{
    match host.tasks.active_snapshot() {
        Some(handles) => PumpAction::Query(handles),
        None => PumpAction::Stop,
    }
}

impl TaskPump {
    /// Starts a pump that knows of everything up to `revision`.
    pub fn start(revision: u64, host: &mut MutsukiTauriHost) -> (begun: (TaskPump, PumpAction))
        ensures
            begun.0@.revision == revision,
            looked(old(host)@, final(host)@, begun.1),
    {
        let action = look(host);
        (TaskPump { revision, states: Vec::new() }, action)
    }

    /// Takes in what the pump is told, and says what it does next.
    pub fn step(&mut self, host: &mut MutsukiTauriHost, event: PumpEvent, now: i64) -> (action:
        PumpAction)
        ensures
            stepped(
                old(self)@,
                final(self)@,
                old(host)@,
                final(host)@,
                event,
                now,
                action,
            ),
    {
        match event {
            PumpEvent::States(Ok(states)) => {
                self.states = states;
                PumpAction::Drain
            },
            PumpEvent::States(Err(error)) => {
                host.pump_failed(PumpFailure::Runtime(error), now);
                PumpAction::Stop
            },
            PumpEvent::Drained(Ok(_)) => {
                let mut states: Vec<HostTaskState> = Vec::new();
                std::mem::swap(&mut states, &mut self.states);
                if host.pump_settled(states) {
                    PumpAction::Wait(self.revision)
                } else {
                    PumpAction::Stop
                }
            },
            PumpEvent::Drained(Err(error)) => {
                host.pump_failed(PumpFailure::Observe(error), now);
                PumpAction::Stop
            },
            PumpEvent::Revision(Some(revision)) => {
                self.revision = revision;
                look(host)
            },
            PumpEvent::Revision(None) => {
                host.pump_failed(PumpFailure::Closed, now);
                PumpAction::Stop
            },
        }
    }
}

/// A pump that looks for tasks asks about every one in flight, and about no other; it stops exactly
/// where none is in flight or the host shuts down, and nothing else of the host changes.
pub proof fn law_pump_asks_about_every_task_in_flight(
    before: HostView,
    after: HostView,
    action: PumpAction,
    handle: TaskHandle,
)
    requires
        looked(before, after, action),
        before.tasks.active.dom().finite(),
    ensures
        action is Stop <==> before.tasks.active.len() == 0 || before.tasks.shutting_down,
        action is Stop || action is Query,
        action matches PumpAction::Query(handles) ==> {
            &&& after == before
            &&& handles.len() == before.tasks.active.len()
            &&& handles@.contains(handle) <==> exists|task: Seq<char>| #[trigger]
                before.tasks.active.contains_key(task) && before.tasks.active[task] == handle
        },
        after.hub == before.hub,
        after.tasks.active == before.tasks.active,
        after.tasks.results == before.tasks.results,
{
    if let PumpAction::Query(handles) = action {
        let active = before.tasks.active;
        let keys = crate::ordered_map::in_order(active.dom());
        crate::ordered_map::lemma_in_order_of(active.dom());
        let row = handles@;
        if row.contains(handle) {
            let i = choose|i: int| 0 <= i < row.len() && row[i] == handle;
            assert(keys.to_set().contains(keys[i]));
            assert(active.contains_key(keys[i]));
        }
        if exists|task: Seq<char>| #[trigger]
            active.contains_key(task) && active[task] == handle {
            let task = choose|task: Seq<char>| #[trigger]
                active.contains_key(task) && active[task] == handle;
            assert(keys.to_set().contains(task));
            let i = choose|i: int| 0 <= i < keys.len() && keys[i] == task;
            assert(row[i] == handle);
        }
    }
}

/// The pump reads the streams once it knows how the tasks stand, waits from where it stood once it
/// has read them, and asks again once it is told of something new.
pub proof fn law_pump_goes_round(
    pump: PumpView,
    next: PumpView,
    before: HostView,
    after: HostView,
    event: PumpEvent,
    now: i64,
    action: PumpAction,
)
    requires
        stepped(pump, next, before, after, event, now, action),
    ensures
        event matches PumpEvent::States(Ok(states)) ==> action is Drain && next.states == states@
            && next.revision == pump.revision && after == before,
        event matches PumpEvent::Drained(Ok(_)) ==> (action is Stop || action == PumpAction::Wait(
            pump.revision,
        )) && after.hub == before.hub && (action is Stop <==> after.tasks.active.len() == 0),
        event matches PumpEvent::Revision(Some(revision)) ==> next.revision == revision && (
        action is Query || action is Stop),
        event matches PumpEvent::States(Err(_)) ==> action is Stop,
        event matches PumpEvent::Drained(Err(_)) ==> action is Stop,
        event matches PumpEvent::Revision(None) ==> action is Stop,
{
}

/// A pump that cannot go on leaves no task in flight, and every task is told why: the runtime did
/// not say how the tasks stand, the streams could not be read, or the runtime tells no more.
pub proof fn law_pump_that_gives_up_says_why(
    pump: PumpView,
    next: PumpView,
    before: HostView,
    after: HostView,
    event: PumpEvent,
    now: i64,
    action: PumpAction,
)
    requires
        stepped(pump, next, before, after, event, now, action),
        event matches PumpEvent::States(Err(_)) || event matches PumpEvent::Drained(Err(_))
            || event matches PumpEvent::Revision(None),
    ensures
        after.tasks == supervision::all_failed(
            before.tasks,
            host::pump_words(
                match event {
                    PumpEvent::States(Err(error)) => PumpFailure::Runtime(error),
                    PumpEvent::Drained(Err(error)) => PumpFailure::Observe(error),
                    _ => PumpFailure::Closed,
                },
            ),
        ),
        !after.tasks.pump_running,
        after.tasks.active.len() == 0,
        event matches PumpEvent::Revision(None) ==> after.hub == before.hub,
        !(event matches PumpEvent::Revision(None)) ==> {
            &&& after.hub.handed.len() == before.hub.handed.len() + 1
            &&& after.hub.handed.last().envelope.payload matches events::FrontendEventView::Log {
                record,
            } && record.level == "error"@ && record.timestamp_ms == now
        },
        after == (HostView { hub: after.hub, tasks: after.tasks, ..before }),
{
    match event {
        PumpEvent::States(Err(error)) => {
            crate::observe::law_error_line_carries_the_error(
                "mutsuki_tauri_host.runtime"@,
                "runtime task pump failed"@,
                error@,
                now,
            );
            events::law_told_event_is_handed_over(
                before.hub,
                after.hub,
                host::pump_line(PumpFailure::Runtime(error), now)->0,
            );
        },
        PumpEvent::Drained(Err(error)) => {
            crate::observe::law_error_line_carries_the_error(
                "mutsuki_tauri_host.observe"@,
                "runtime observability drain failed"@,
                error@,
                now,
            );
            events::law_told_event_is_handed_over(
                before.hub,
                after.hub,
                host::pump_line(PumpFailure::Observe(error), now)->0,
            );
        },
        _ => {},
    }
    let words = host::pump_words(
        match event {
            PumpEvent::States(Err(error)) => PumpFailure::Runtime(error),
            PumpEvent::Drained(Err(error)) => PumpFailure::Observe(error),
            _ => PumpFailure::Closed,
        },
    );
    lemma_at_rest(before.tasks, words);
    supervision::lemma_failing_keeps_active(
        SupervisorView {
            active: Map::empty(),
            pump_running: false,
            pump_subscribed: false,
            ..before.tasks
        },
        crate::ordered_map::in_order(before.tasks.active.dom()),
        words,
    );
}

} // verus!
