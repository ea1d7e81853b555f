//! What the task supervisor remembers, as mathematics: the tasks in flight, the events kept for
//! them, and the results that wait to be read.
use crate::bridge::FrontendTaskResultView;
use crate::contracts::{RuntimeEventView, TaskHandle, TaskOutcomeView, TaskStatus};
use crate::events;
use crate::ordered_map;
use crate::redact;
use vstd::prelude::*;

verus! {

/// Results that wait to be read are forgotten, oldest first, beyond this many.
pub const MAX_RETAINED_RESULTS: usize = 256;

/// The events kept for one task, oldest first, and what is known to be missing from them.
#[verifier::ext_equal]
pub struct BufferView {
    pub events: Seq<RuntimeEventView>,
    pub dropped: u64,
    pub truncated: bool,
}

/// How a task ended: with a result, or with a message where the host gave up on it.
pub type Verdict = Result<FrontendTaskResultView, Seq<char>>;

/// What the supervisor remembers.
#[verifier::ext_equal]
pub struct SupervisorView {
    /// The tasks in flight.
    pub active: Map<Seq<char>, TaskHandle>,
    /// The events kept for each task.
    pub buffers: Map<Seq<char>, BufferView>,
    /// The kept events of all tasks, oldest first: the task of each and its number.
    pub order: Seq<(Seq<char>, u64)>,
    /// The results that wait to be read.
    pub results: Map<Seq<char>, Verdict>,
    /// The tasks that ended, oldest first.
    pub ended: Seq<Seq<char>>,
    /// How far the event stream has been read.
    pub event_cursor: u64,
    /// How far the trace stream has been read.
    pub trace_cursor: u64,
    pub pump_running: bool,
    pub pump_subscribed: bool,
    pub shutting_down: bool,
}

pub open spec fn empty_buffer() -> BufferView {
    BufferView { events: Seq::empty(), dropped: 0, truncated: false }
}

/// Nothing in flight, nothing kept.
pub open spec fn fresh() -> SupervisorView {
    SupervisorView {
        active: Map::empty(),
        buffers: Map::empty(),
        order: Seq::empty(),
        results: Map::empty(),
        ended: Seq::empty(),
        event_cursor: 0,
        trace_cursor: 0,
        pump_running: false,
        pump_subscribed: false,
        shutting_down: false,
    }
}

/// The events kept for a task; none where the task has no buffer.
pub open spec fn buffer_of(buffers: Map<Seq<char>, BufferView>, task: Seq<char>) -> BufferView {
    if buffers.contains_key(task) {
        buffers[task]
    } else {
        empty_buffer()
    }
}

/// A count with one added, up to the largest number it can hold.
pub open spec fn counted(n: u64) -> u64 {
    if n == u64::MAX {
        n
    } else {
        (n + 1) as u64
    }
}

/// A buffer that has let go of its oldest event.
pub open spec fn without_oldest(buffer: BufferView) -> BufferView {
    BufferView {
        events: buffer.events.drop_first(),
        dropped: counted(buffer.dropped),
        truncated: true,
    }
}

/// An entry of the order belongs to `task`.
pub open spec fn belongs_to(task: Seq<char>) -> spec_fn((Seq<char>, u64)) -> bool {
    |e: (Seq<char>, u64)| e.0 == task
}

/// An entry of the order belongs to another task.
pub open spec fn belongs_elsewhere(task: Seq<char>) -> spec_fn((Seq<char>, u64)) -> bool {
    |e: (Seq<char>, u64)| e.0 != task
}

/// A task is another one.
pub open spec fn differs_from(task: Seq<char>) -> spec_fn(Seq<char>) -> bool {
    |t: Seq<char>| t != task
}

/// The numbers of the kept events of one task, oldest first.
pub open spec fn numbers_of(order: Seq<(Seq<char>, u64)>, task: Seq<char>) -> Seq<u64> {
    order.filter(belongs_to(task)).map_values(|e: (Seq<char>, u64)| e.1)
}

/// The numbers of a row of events.
pub open spec fn numbers(events: Seq<RuntimeEventView>) -> Seq<u64> {
    events.map_values(|e: RuntimeEventView| e.sequence)
}

/// The kept events of all tasks but one.
pub open spec fn order_without(order: Seq<(Seq<char>, u64)>, task: Seq<char>) -> Seq<(Seq<char>, u64)> {
    order.filter(belongs_elsewhere(task))
}

/// The ended tasks without one of them.
pub open spec fn ended_without(ended: Seq<Seq<char>>, task: Seq<char>) -> Seq<Seq<char>> {
    ended.filter(differs_from(task))
}

/// `at` is where the oldest kept event of `task` stands.
pub open spec fn oldest_at(order: Seq<(Seq<char>, u64)>, task: Seq<char>, at: int) -> bool {
    0 <= at < order.len() && order[at].0 == task && forall|j: int|
        0 <= j < at ==> (#[trigger] order[j]).0 != task
}

/// Where the oldest kept event of `task` stands.
pub open spec fn oldest_of(order: Seq<(Seq<char>, u64)>, task: Seq<char>) -> int {
    choose|at: int| oldest_at(order, task, at)
}

/// The buffers and the order tell the same story, and everything stays within its bounds.
pub open spec fn sound(v: SupervisorView, per_task: nat, total: nat) -> bool {
    &&& forall|t: Seq<char>| #[trigger]
        numbers_of(v.order, t) == numbers(buffer_of(v.buffers, t).events)
    &&& v.order.len() <= total
    &&& forall|t: Seq<char>| (#[trigger] buffer_of(v.buffers, t)).events.len() <= per_task
    &&& v.ended.len() <= MAX_RETAINED_RESULTS
    &&& forall|t: Seq<char>| #[trigger] v.results.contains_key(t) ==> v.ended.contains(t)
    &&& forall|t: Seq<char>| #[trigger] v.active.contains_key(t) ==> !v.ended.contains(t)
}

/// The supervisor without the events kept for a task.
pub open spec fn events_taken(v: SupervisorView, task: Seq<char>) -> SupervisorView {
    SupervisorView {
        buffers: v.buffers.remove(task),
        order: order_without(v.order, task),
        ..v
    }
}

/// The supervisor once it follows a task: whatever it remembered of that task is gone.
pub open spec fn task_followed(v: SupervisorView, handle: TaskHandle) -> SupervisorView {
    let task = handle.task_id@;
    events_taken(
        SupervisorView {
            active: v.active.insert(task, handle),
            results: v.results.remove(task),
            ended: ended_without(v.ended, task),
            ..v
        },
        task,
    )
}

/// The supervisor without the result of a task.
pub open spec fn consumed(v: SupervisorView, task: Seq<char>) -> SupervisorView {
    SupervisorView { results: v.results.remove(task), ended: ended_without(v.ended, task), ..v }
}

/// The supervisor once a result waits to be read. Where too many tasks have ended, the oldest is
/// forgotten.
pub open spec fn verdict_kept(v: SupervisorView, task: Seq<char>, verdict: Verdict) -> SupervisorView {
    let w = SupervisorView {
        results: v.results.insert(task, verdict),
        ended: v.ended.push(task),
        ..v
    };
    if w.ended.len() > MAX_RETAINED_RESULTS {
        let oldest = w.ended[0];
        events_taken(
            SupervisorView { results: w.results.remove(oldest), ended: w.ended.drop_first(), ..w },
            oldest,
        )
    } else {
        w
    }
}

/// The supervisor once an event is kept for a task. Where the task holds as many events as it
/// may, its oldest makes room; where all tasks together hold more than they may, the oldest event
/// of all is let go.
pub open spec fn event_kept(
    v: SupervisorView,
    per_task: nat,
    total: nat,
    task: Seq<char>,
    event: RuntimeEventView,
) -> SupervisorView {
    let buffer = buffer_of(v.buffers, task);
    if per_task == 0 || total == 0 {
        SupervisorView {
            buffers: v.buffers.insert(
                task,
                BufferView { dropped: counted(buffer.dropped), truncated: true, ..buffer },
            ),
            ..v
        }
    } else {
        let w = event_filled(v, per_task, task, event);
        if w.order.len() > total {
            let oldest = w.order[0].0;
            SupervisorView {
                buffers: w.buffers.insert(oldest, without_oldest(w.buffers[oldest])),
                order: w.order.drop_first(),
                ..w
            }
        } else {
            w
        }
    }
}

/// The supervisor once an event of the runtime came by: it is kept, free of secrets, where it is
/// about a task in flight.
pub open spec fn event_seen(
    v: SupervisorView,
    per_task: nat,
    total: nat,
    event: RuntimeEventView,
) -> SupervisorView {
    let shown = redact::redacted_event(event);
    match events::event_task(shown) {
        Some(task) => if v.active.contains_key(task) {
            event_kept(v, per_task, total, task, shown)
        } else {
            v
        },
        None => v,
    }
}

/// The supervisor once a row of events came by.
pub open spec fn events_seen(
    v: SupervisorView,
    per_task: nat,
    total: nat,
    row: Seq<RuntimeEventView>,
) -> SupervisorView
    decreases row.len(),
{
    if row.len() == 0 {
        v
    } else {
        event_seen(events_seen(v, per_task, total, row.drop_last()), per_task, total, row.last())
    }
}

/// The supervisor once events were lost: the buffers of all tasks in flight are known to be
/// incomplete.
pub open spec fn gap_marked(v: SupervisorView) -> SupervisorView {
    gap_marked_in(v, v.active.dom())
}

/// The supervisor once the tasks in `marked` are known to have incomplete buffers.
pub open spec fn gap_marked_in(v: SupervisorView, marked: Set<Seq<char>>) -> SupervisorView {
    SupervisorView {
        buffers: Map::new(
            |t: Seq<char>| v.buffers.contains_key(t) || marked.contains(t),
            |t: Seq<char>|
                if marked.contains(t) {
                    BufferView { truncated: true, ..buffer_of(v.buffers, t) }
                } else {
                    v.buffers[t]
                },
        ),
        ..v
    }
}

/// The supervisor once a page of the event stream is in.
pub open spec fn page_seen(
    v: SupervisorView,
    per_task: nat,
    total: nat,
    row: Seq<RuntimeEventView>,
    next_sequence: u64,
    lost: u64,
) -> SupervisorView {
    let w = SupervisorView { event_cursor: next_sequence, ..v };
    events_seen(
        if lost > 0 {
            gap_marked(w)
        } else {
            w
        },
        per_task,
        total,
        row,
    )
}

/// What the frontend is told of a page of the event stream: first that events were lost, where
/// some were, then each event, free of secrets.
pub open spec fn page_told(
    row: Seq<RuntimeEventView>,
    lost: u64,
    dropped: u64,
) -> Seq<events::FrontendEventView> {
    gap_told("runtime_event"@, lost, dropped) + row_told(row)
}

/// What the frontend is told of a row of events, each of them free of secrets.
pub open spec fn row_told(row: Seq<RuntimeEventView>) -> Seq<events::FrontendEventView> {
    row.map_values(
        |event: RuntimeEventView| events::told_event(redact::redacted_event(event)),
    )
}

/// What the frontend is told of a gap in a stream; nothing where there is none.
pub open spec fn gap_told(stream: Seq<char>, lost: u64, dropped: u64) -> Seq<events::FrontendEventView> {
    if lost > 0 {
        seq![events::FrontendEventView::ObservabilityGap { stream, lost, dropped }]
    } else {
        Seq::empty()
    }
}

/// What the runtime says of one task.
pub struct TaskStateView {
    pub task_id: Seq<char>,
    pub status: Option<TaskStatus>,
    pub outcome: Option<TaskOutcomeView>,
}

/// The supervisor once the runtime's word on a task is in: a task with an outcome has ended, and
/// its result carries the events that were kept for it.
pub open spec fn task_settled(v: SupervisorView, state: TaskStateView) -> SupervisorView {
    if state.outcome is None {
        v
    } else {
        let buffer = buffer_of(v.buffers, state.task_id);
        let w = events_taken(v, state.task_id);
        verdict_kept(
            SupervisorView { active: w.active.remove(state.task_id), ..w },
            state.task_id,
            Ok(
                FrontendTaskResultView {
                    task_id: state.task_id,
                    status: state.status,
                    outcome: state.outcome,
                    events: buffer.events,
                    events_dropped: buffer.dropped,
                    events_truncated: buffer.truncated || buffer.dropped > 0,
                },
            ),
        )
    }
}

/// The supervisor once the runtime's word on a row of tasks is in.
pub open spec fn tasks_settled(v: SupervisorView, states: Seq<TaskStateView>) -> SupervisorView
    decreases states.len(),
{
    if states.len() == 0 {
        v
    } else {
        task_settled(tasks_settled(v, states.drop_last()), states.last())
    }
}

/// The supervisor once it gave up on a row of tasks.
pub open spec fn tasks_failed(
    v: SupervisorView,
    tasks: Seq<Seq<char>>,
    message: Seq<char>,
) -> SupervisorView
    decreases tasks.len(),
{
    if tasks.len() == 0 {
        v
    } else {
        let w = tasks_failed(v, tasks.drop_last(), message);
        verdict_kept(events_taken(w, tasks.last()), tasks.last(), Err(message))
    }
}

/// The supervisor once it gave up on all tasks in flight.
pub open spec fn all_failed(v: SupervisorView, message: Seq<char>) -> SupervisorView {
    tasks_failed(
        SupervisorView {
            active: Map::empty(),
            pump_running: false,
            pump_subscribed: false,
            ..v
        },
        ordered_map::in_order(v.active.dom()),
        message,
    )
}

/// Noting that tasks failed leaves the tasks in flight as they are.
pub proof fn lemma_failing_keeps_active(v: SupervisorView, tasks: Seq<Seq<char>>, message: Seq<char>)
    ensures
        tasks_failed(v, tasks, message).active == v.active,
    decreases tasks.len(),
{
    if tasks.len() > 0 {
        lemma_failing_keeps_active(v, tasks.drop_last(), message);
    }
}

/// Noting that tasks failed leaves the pump as it is.
pub proof fn lemma_failing_keeps_pump(v: SupervisorView, tasks: Seq<Seq<char>>, message: Seq<char>)
    ensures
        tasks_failed(v, tasks, message).pump_running == v.pump_running,
    decreases tasks.len(),
{
    if tasks.len() > 0 {
        lemma_failing_keeps_pump(v, tasks.drop_last(), message);
    }
}

proof fn lemma_numbers_push(order: Seq<(Seq<char>, u64)>, task: Seq<char>, n: u64, t: Seq<char>)
    ensures
        numbers_of(order.push((task, n)), t) == if t == task {
            numbers_of(order, t).push(n)
        } else {
            numbers_of(order, t)
        },
{
    let p = belongs_to(t);
    order.lemma_filter_push((task, n), p);
    assert(numbers_of(order.push((task, n)), t) =~= if t == task {
        numbers_of(order, t).push(n)
    } else {
        numbers_of(order, t)
    });
}

proof fn lemma_numbers_add(a: Seq<(Seq<char>, u64)>, b: Seq<(Seq<char>, u64)>, t: Seq<char>)
    ensures
        numbers_of(a + b, t) == numbers_of(a, t) + numbers_of(b, t),
{
    let p = belongs_to(t);
    Seq::filter_distributes_over_add(a, b, p);
    assert(numbers_of(a + b, t) =~= numbers_of(a, t) + numbers_of(b, t));
}

proof fn lemma_numbers_none(a: Seq<(Seq<char>, u64)>, t: Seq<char>)
    requires
        forall|j: int| 0 <= j < a.len() ==> (#[trigger] a[j]).0 != t,
    ensures
        numbers_of(a, t) == Seq::<u64>::empty(),
    decreases a.len(),
{
    reveal(Seq::filter);
    if a.len() > 0 {
        lemma_numbers_none(a.drop_last(), t);
        assert(a =~= a.drop_last().push(a.last()));
        lemma_numbers_push(a.drop_last(), a.last().0, a.last().1, t);
    }
    assert(numbers_of(a, t) =~= Seq::<u64>::empty());
}

/// Taking one entry out takes its number out of its task's row, at the front where the entry is
/// the oldest of its task.
pub(crate) proof fn lemma_numbers_remove(order: Seq<(Seq<char>, u64)>, task: Seq<char>, at: int, t: Seq<char>)
    requires
        oldest_at(order, task, at),
    ensures
        numbers_of(order, task).len() > 0,
        numbers_of(order, task)[0] == order[at].1,
        numbers_of(order.remove(at), t) == if t == task {
            numbers_of(order, t).drop_first()
        } else {
            numbers_of(order, t)
        },
{
    let a = order.take(at);
    let x = seq![order[at]];
    let b = order.skip(at + 1);
    assert(order =~= a + (x + b));
    assert(order.remove(at) =~= a + b);
    lemma_numbers_add(a, x + b, t);
    lemma_numbers_add(x, b, t);
    lemma_numbers_add(a, x + b, task);
    lemma_numbers_add(x, b, task);
    lemma_numbers_add(a, b, t);
    lemma_numbers_none(a, task);
    assert(x =~= Seq::empty().push(order[at]));
    lemma_numbers_push(Seq::empty(), order[at].0, order[at].1, t);
    lemma_numbers_push(Seq::empty(), order[at].0, order[at].1, task);
    lemma_numbers_none(Seq::empty(), t);
    lemma_numbers_none(Seq::empty(), task);
    assert(numbers_of(order, task) =~= seq![order[at].1] + numbers_of(b, task));
    if t == task {
        assert(numbers_of(order.remove(at), t) =~= numbers_of(order, t).drop_first());
    } else {
        assert(numbers_of(order.remove(at), t) =~= numbers_of(order, t));
    }
}

/// A task with a kept event has an oldest one.
pub(crate) proof fn lemma_oldest_exists(order: Seq<(Seq<char>, u64)>, task: Seq<char>)
    requires
        numbers_of(order, task).len() > 0,
    ensures
        oldest_at(order, task, oldest_of(order, task)),
    decreases order.len(),
{
    if forall|j: int| 0 <= j < order.len() ==> (#[trigger] order[j]).0 != task {
        lemma_numbers_none(order, task);
    }
    let k = choose|k: int| 0 <= k < order.len() && (#[trigger] order[k]).0 == task;
    lemma_first_below(order, task, k);
}

proof fn lemma_first_below(order: Seq<(Seq<char>, u64)>, task: Seq<char>, k: int)
    requires
        0 <= k < order.len(),
        order[k].0 == task,
    ensures
        exists|at: int| oldest_at(order, task, at),
    decreases k,
{
    if exists|j: int| 0 <= j < k && (#[trigger] order[j]).0 == task {
        let j = choose|j: int| 0 <= j < k && (#[trigger] order[j]).0 == task;
        lemma_first_below(order, task, j);
    } else {
        assert(oldest_at(order, task, k));
    }
}

proof fn lemma_numbers_without(order: Seq<(Seq<char>, u64)>, task: Seq<char>, t: Seq<char>)
    ensures
        numbers_of(order_without(order, task), t) == if t == task {
            Seq::<u64>::empty()
        } else {
            numbers_of(order, t)
        },
        order_without(order, task).len() + numbers_of(order, task).len() == order.len(),
    decreases order.len(),
{
    reveal(Seq::filter);
    if order.len() > 0 {
        let front = order.drop_last();
        let e = order.last();
        assert(order =~= front.push(e));
        lemma_numbers_without(front, task, t);
        front.lemma_filter_push(e, belongs_elsewhere(task));
        lemma_numbers_push(front, e.0, e.1, t);
        lemma_numbers_push(front, e.0, e.1, task);
        lemma_numbers_push(order_without(front, task), e.0, e.1, t);
    } else {
        assert(numbers_of(order_without(order, task), t) =~= Seq::<u64>::empty());
        assert(numbers_of(order, t) =~= Seq::<u64>::empty());
        assert(numbers_of(order, task) =~= Seq::<u64>::empty());
    }
}

/// A supervisor that remembers nothing is sound.
pub(crate) proof fn lemma_fresh_sound()
    ensures
        forall|per_task: nat, total: nat| sound(fresh(), per_task, total),
{
    assert forall|t: Seq<char>| #[trigger]
        numbers_of(fresh().order, t) == numbers(buffer_of(fresh().buffers, t).events) by {
        lemma_numbers_none(fresh().order, t);
        assert(numbers(empty_buffer().events) =~= Seq::<u64>::empty());
    }
}

/// How many kept events leave with a task.
pub(crate) proof fn lemma_taken_count(v: SupervisorView, per_task: nat, total: nat, task: Seq<char>)
    requires
        sound(v, per_task, total),
    ensures
        order_without(v.order, task).len() + buffer_of(v.buffers, task).events.len() == v.order.len(),
{
    lemma_numbers_without(v.order, task, task);
    assert(numbers_of(v.order, task) == numbers(buffer_of(v.buffers, task).events));
}

/// Letting go of a task's events keeps the supervisor sound.
pub proof fn law_taking_events_is_sound(v: SupervisorView, per_task: nat, total: nat, task: Seq<char>)
    requires
        sound(v, per_task, total),
    ensures
        sound(events_taken(v, task), per_task, total),
{
    let w = events_taken(v, task);
    assert forall|t: Seq<char>| #[trigger]
        numbers_of(w.order, t) == numbers(buffer_of(w.buffers, t).events) by {
        lemma_numbers_without(v.order, task, t);
        assert(numbers_of(v.order, t) == numbers(buffer_of(v.buffers, t).events));
        if t == task {
            assert(numbers(empty_buffer().events) =~= Seq::<u64>::empty());
        }
    }
    lemma_taken_count(v, per_task, total, task);
    assert forall|t: Seq<char>| (#[trigger] buffer_of(w.buffers, t)).events.len() <= per_task by {
        assert(buffer_of(v.buffers, t).events.len() <= per_task);
    }
}

proof fn lemma_ended_without(ended: Seq<Seq<char>>, task: Seq<char>, t: Seq<char>)
    ensures
        ended_without(ended, task).len() <= ended.len(),
        ended_without(ended, task).contains(t) == (ended.contains(t) && t != task),
    decreases ended.len(),
{
    reveal(Seq::filter);
    let p = differs_from(task);
    ended.lemma_filter_len(p);
    if ended.contains(t) && t != task {
        let i = choose|i: int| 0 <= i < ended.len() && ended[i] == t;
        ended.lemma_filter_contains(p, i);
    }
    if ended_without(ended, task).contains(t) {
        let f = ended_without(ended, task);
        let i = choose|i: int| 0 <= i < f.len() && f[i] == t;
        ended.lemma_filter_pred(p, i);
        ended.lemma_filter_contains_rev(p, t);
    }
}

/// Forgetting the result of a task keeps the supervisor sound.
pub proof fn law_consuming_is_sound(v: SupervisorView, per_task: nat, total: nat, task: Seq<char>)
    requires
        sound(v, per_task, total),
    ensures
        sound(consumed(v, task), per_task, total),
{
    let w = consumed(v, task);
    lemma_ended_without(v.ended, task, task);
    assert forall|t: Seq<char>| #[trigger] w.results.contains_key(t) implies w.ended.contains(t) by {
        assert(v.results.contains_key(t));
        lemma_ended_without(v.ended, task, t);
    }
    assert forall|t: Seq<char>| #[trigger] w.active.contains_key(t) implies !w.ended.contains(t) by {
        assert(v.active.contains_key(t));
        lemma_ended_without(v.ended, task, t);
    }
}

/// The supervisor is sound between following a task and letting go of its events.
pub(crate) proof fn lemma_followed_sound(
    v: SupervisorView,
    per_task: nat,
    total: nat,
    handle: TaskHandle,
)
    requires
        sound(v, per_task, total),
    ensures
        sound(
            SupervisorView {
                active: v.active.insert(handle.task_id@, handle),
                ..consumed(v, handle.task_id@)
            },
            per_task,
            total,
        ),
{
    let task = handle.task_id@;
    law_consuming_is_sound(v, per_task, total, task);
    let c = consumed(v, task);
    let w = SupervisorView { active: v.active.insert(task, handle), ..c };
    assert forall|t: Seq<char>| #[trigger] w.active.contains_key(t) implies !w.ended.contains(t) by {
        if t == task {
            lemma_ended_without(v.ended, task, task);
        } else {
            assert(c.active.contains_key(t));
        }
    }
    assert forall|t: Seq<char>| #[trigger] w.results.contains_key(t) implies w.ended.contains(t) by {
        assert(c.results.contains_key(t));
    }
}

/// Following a task keeps the supervisor sound.
pub proof fn law_tracking_is_sound(v: SupervisorView, per_task: nat, total: nat, handle: TaskHandle)
    requires
        sound(v, per_task, total),
    ensures
        sound(task_followed(v, handle), per_task, total),
{
    let task = handle.task_id@;
    lemma_followed_sound(v, per_task, total, handle);
    law_taking_events_is_sound(
        SupervisorView { active: v.active.insert(task, handle), ..consumed(v, task) },
        per_task,
        total,
        task,
    );
}

/// Keeping a result keeps the supervisor sound, so that no more than the retained number of
/// results ever waits to be read.
pub proof fn law_keeping_a_verdict_is_sound(
    v: SupervisorView,
    per_task: nat,
    total: nat,
    task: Seq<char>,
    verdict: Verdict,
)
    requires
        sound(v, per_task, total),
        !v.active.contains_key(task),
    ensures
        sound(verdict_kept(v, task, verdict), per_task, total),
{
    let w = SupervisorView {
        results: v.results.insert(task, verdict),
        ended: v.ended.push(task),
        ..v
    };
    if w.ended.len() > MAX_RETAINED_RESULTS {
        lemma_evicting_keeps_sound(v, per_task, total, task, verdict);
        law_taking_events_is_sound(
            SupervisorView {
                results: w.results.remove(w.ended[0]),
                ended: w.ended.drop_first(),
                ..w
            },
            per_task,
            total,
            w.ended[0],
        );
    } else {
        assert forall|t: Seq<char>| #[trigger] w.results.contains_key(t) implies w.ended.contains(
            t,
        ) by {
            if t == task {
                assert(w.ended.last() == task);
            } else {
                assert(v.results.contains_key(t));
                let i = choose|i: int| 0 <= i < v.ended.len() && v.ended[i] == t;
                assert(w.ended[i] == t);
            }
        }
        assert forall|t: Seq<char>| #[trigger] w.active.contains_key(t) implies !w.ended.contains(
            t,
        ) by {
            assert(v.active.contains_key(t));
            if w.ended.contains(t) {
                let i = choose|i: int| 0 <= i < w.ended.len() && w.ended[i] == t;
                if i < v.ended.len() {
                    assert(v.ended[i] == t);
                }
            }
        }
    }
}

/// The supervisor is sound between striking the oldest ended task and letting go of its events.
pub(crate) proof fn lemma_evicting_keeps_sound(
    v: SupervisorView,
    per_task: nat,
    total: nat,
    task: Seq<char>,
    verdict: Verdict,
)
    requires
        sound(v, per_task, total),
        v.ended.len() == MAX_RETAINED_RESULTS,
        !v.active.contains_key(task),
    ensures
        ({
            let w = SupervisorView {
                results: v.results.insert(task, verdict),
                ended: v.ended.push(task),
                ..v
            };
            sound(
                SupervisorView {
                    results: w.results.remove(w.ended[0]),
                    ended: w.ended.drop_first(),
                    ..w
                },
                per_task,
                total,
            )
        }),
{
    let w = SupervisorView {
        results: v.results.insert(task, verdict),
        ended: v.ended.push(task),
        ..v
    };
    let oldest = w.ended[0];
    let x = SupervisorView { results: w.results.remove(oldest), ended: w.ended.drop_first(), ..w };
    assert forall|t: Seq<char>| #[trigger] x.results.contains_key(t) implies x.ended.contains(t) by {
        if t == task {
            assert(x.ended.last() == task);
        } else {
            assert(v.results.contains_key(t));
            let i = choose|i: int| 0 <= i < v.ended.len() && v.ended[i] == t;
            assert(x.ended[i - 1] == t);
        }
    }
    assert forall|t: Seq<char>| #[trigger] x.active.contains_key(t) implies !x.ended.contains(t) by {
        assert(v.active.contains_key(t));
        if x.ended.contains(t) {
            let i = choose|i: int| 0 <= i < x.ended.len() && x.ended[i] == t;
            if i < x.ended.len() - 1 {
                assert(v.ended[i + 1] == t);
            }
        }
    }
}

/// Where the supervisor is sound, the oldest of all kept events is the oldest of its task.
pub(crate) proof fn lemma_head_is_oldest(
    buffers: Map<Seq<char>, BufferView>,
    order: Seq<(Seq<char>, u64)>,
)
    requires
        forall|t: Seq<char>| #[trigger] numbers_of(order, t) == numbers(buffer_of(buffers, t).events),
        order.len() > 0,
    ensures
        oldest_at(order, order[0].0, 0),
        buffers.contains_key(order[0].0),
        buffers[order[0].0].events.len() > 0,
        buffers[order[0].0].events[0].sequence == order[0].1,
{
    let task = order[0].0;
    assert(oldest_at(order, task, 0));
    lemma_numbers_remove(order, task, 0, task);
    assert(numbers_of(order, task) == numbers(buffer_of(buffers, task).events));
    assert(numbers(buffer_of(buffers, task).events)[0] == buffer_of(buffers, task).events[0].sequence);
}

/// The supervisor once an event is kept for a task that has room, whether or not all tasks
/// together hold too many.
pub open spec fn event_filled(
    v: SupervisorView,
    per_task: nat,
    task: Seq<char>,
    event: RuntimeEventView,
) -> SupervisorView {
    let buffer = buffer_of(v.buffers, task);
    let full = buffer.events.len() >= per_task;
    let roomy = if full {
        without_oldest(buffer)
    } else {
        buffer
    };
    let order = if full {
        v.order.remove(oldest_of(v.order, task))
    } else {
        v.order
    };
    SupervisorView {
        buffers: v.buffers.insert(task, BufferView { events: roomy.events.push(event), ..roomy }),
        order: order.push((task, event.sequence)),
        ..v
    }
}

/// Once an event is kept, the buffers and the order still tell the same story.
pub(crate) proof fn lemma_filled_tells_same_story(
    v: SupervisorView,
    per_task: nat,
    total: nat,
    task: Seq<char>,
    event: RuntimeEventView,
)
    requires
        sound(v, per_task, total),
        per_task > 0,
    ensures
        ({
            let w = event_filled(v, per_task, task, event);
            &&& forall|t: Seq<char>| #[trigger]
                numbers_of(w.order, t) == numbers(buffer_of(w.buffers, t).events)
            &&& forall|t: Seq<char>| (#[trigger] buffer_of(w.buffers, t)).events.len() <= per_task
        }),
{
    let buffer = buffer_of(v.buffers, task);
    assert(numbers_of(v.order, task) == numbers(buffer.events));
    let full = buffer.events.len() >= per_task;
    let roomy = if full {
        without_oldest(buffer)
    } else {
        buffer
    };
    let at = oldest_of(v.order, task);
    let order = if full {
        v.order.remove(at)
    } else {
        v.order
    };
    if full {
        assert(numbers(buffer.events).len() > 0);
        lemma_oldest_exists(v.order, task);
    }
    let w = event_filled(v, per_task, task, event);
    assert forall|t: Seq<char>| #[trigger]
        numbers_of(w.order, t) == numbers(buffer_of(w.buffers, t).events) by {
        assert(numbers_of(v.order, t) == numbers(buffer_of(v.buffers, t).events));
        lemma_numbers_push(order, task, event.sequence, t);
        if full {
            lemma_numbers_remove(v.order, task, at, t);
        }
        if t == task {
            assert(numbers(roomy.events.push(event)) =~= numbers(roomy.events).push(
                event.sequence,
            ));
            if full {
                assert(numbers(roomy.events) =~= numbers(buffer.events).drop_first());
            }
        }
    }
    assert forall|t: Seq<char>| (#[trigger] buffer_of(w.buffers, t)).events.len() <= per_task by {
        assert(buffer_of(v.buffers, t).events.len() <= per_task);
    }
}

/// Keeping an event keeps the supervisor sound, so that no task holds more events than it may and
/// all of them together hold no more than they may.
pub proof fn law_keeping_an_event_is_sound(
    v: SupervisorView,
    per_task: nat,
    total: nat,
    task: Seq<char>,
    event: RuntimeEventView,
)
    requires
        sound(v, per_task, total),
    ensures
        sound(event_kept(v, per_task, total, task, event), per_task, total),
{
    let r = event_kept(v, per_task, total, task, event);
    if per_task == 0 || total == 0 {
        assert forall|t: Seq<char>| #[trigger]
            numbers_of(r.order, t) == numbers(buffer_of(r.buffers, t).events) by {
            assert(numbers_of(v.order, t) == numbers(buffer_of(v.buffers, t).events));
        }
        assert forall|t: Seq<char>| (#[trigger] buffer_of(r.buffers, t)).events.len() <= per_task by {
            assert(buffer_of(v.buffers, t).events.len() <= per_task);
        }
    } else {
        lemma_filled_tells_same_story(v, per_task, total, task, event);
        let w = event_filled(v, per_task, task, event);
        assert(w.order.len() <= total + 1) by {
            let buffer = buffer_of(v.buffers, task);
            if buffer.events.len() >= per_task {
                assert(numbers_of(v.order, task) == numbers(buffer.events));
                assert(numbers(buffer.events).len() > 0);
                lemma_oldest_exists(v.order, task);
            }
        }
        if w.order.len() > total {
            lemma_head_is_oldest(w.buffers, w.order);
            let oldest = w.order[0].0;
            assert(w.order.remove(0) =~= w.order.drop_first());
            assert forall|t: Seq<char>| #[trigger]
                numbers_of(r.order, t) == numbers(buffer_of(r.buffers, t).events) by {
                assert(numbers_of(w.order, t) == numbers(buffer_of(w.buffers, t).events));
                lemma_numbers_remove(w.order, oldest, 0, t);
                if t == oldest {
                    assert(numbers(without_oldest(w.buffers[oldest]).events) =~= numbers(
                        w.buffers[oldest].events,
                    ).drop_first());
                }
            }
            assert forall|t: Seq<char>| (#[trigger] buffer_of(r.buffers, t)).events.len()
                <= per_task by {
                assert(buffer_of(w.buffers, t).events.len() <= per_task);
            }
        }
    }
}

/// A row of events that comes by keeps the supervisor sound.
pub proof fn law_seeing_events_is_sound(
    v: SupervisorView,
    per_task: nat,
    total: nat,
    row: Seq<RuntimeEventView>,
)
    requires
        sound(v, per_task, total),
    ensures
        sound(events_seen(v, per_task, total, row), per_task, total),
    decreases row.len(),
{
    if row.len() > 0 {
        law_seeing_events_is_sound(v, per_task, total, row.drop_last());
        let w = events_seen(v, per_task, total, row.drop_last());
        let shown = redact::redacted_event(row.last());
        if let Some(task) = events::event_task(shown) {
            law_keeping_an_event_is_sound(w, per_task, total, task, shown);
        }
    }
}

/// A row of events, each with the task that it is kept for, is kept.
pub open spec fn events_kept(
    v: SupervisorView,
    per_task: nat,
    total: nat,
    row: Seq<(Seq<char>, RuntimeEventView)>,
) -> SupervisorView
    decreases row.len(),
{
    if row.len() == 0 {
        v
    } else {
        event_kept(
            events_kept(v, per_task, total, row.drop_last()),
            per_task,
            total,
            row.last().0,
            row.last().1,
        )
    }
}

/// The events of a row that are given for a task, in their order.
pub open spec fn given_for(row: Seq<(Seq<char>, RuntimeEventView)>, task: Seq<char>) -> Seq<
    RuntimeEventView,
>
    decreases row.len(),
{
    if row.len() == 0 {
        Seq::empty()
    } else if row.last().0 == task {
        given_for(row.drop_last(), task).push(row.last().1)
    } else {
        given_for(row.drop_last(), task)
    }
}

/// The events of a row that came by and are about a task, in their order and free of secrets.
pub open spec fn shown_for(row: Seq<RuntimeEventView>, task: Seq<char>) -> Seq<RuntimeEventView>
    decreases row.len(),
{
    if row.len() == 0 {
        Seq::empty()
    } else {
        let shown = redact::redacted_event(row.last());
        if events::event_task(shown) == Some(task) {
            shown_for(row.drop_last(), task).push(shown)
        } else {
            shown_for(row.drop_last(), task)
        }
    }
}

/// A buffer accounts for the events that were given for its task: it holds the last of them, in
/// their order, counts the others as dropped, and is known to be incomplete exactly where it
/// dropped some.
pub open spec fn accounts_for(buffer: BufferView, given: Seq<RuntimeEventView>) -> bool {
    &&& buffer.events.len() + buffer.dropped == given.len()
    &&& buffer.events == given.skip(buffer.dropped as int)
    &&& buffer.truncated <==> buffer.dropped > 0
}

proof fn lemma_kept_accounts(
    v: SupervisorView,
    per_task: nat,
    total: nat,
    task: Seq<char>,
    event: RuntimeEventView,
    t: Seq<char>,
    given: Seq<RuntimeEventView>,
)
    requires
        sound(v, per_task, total),
        accounts_for(buffer_of(v.buffers, t), given),
        given.len() < u64::MAX,
    ensures
        accounts_for(
            buffer_of(event_kept(v, per_task, total, task, event).buffers, t),
            if t == task {
                given.push(event)
            } else {
                given
            },
        ),
{
    let now = if t == task {
        given.push(event)
    } else {
        given
    };
    let before = buffer_of(v.buffers, t);
    assert(numbers_of(v.order, t) == numbers(before.events));
    if per_task == 0 || total == 0 {
        assert(before.events.len() == 0) by {
            assert(buffer_of(v.buffers, t).events.len() <= per_task);
            if v.order.len() == 0 {
                lemma_numbers_none(v.order, t);
                assert(numbers(before.events).len() == before.events.len());
            }
        }
        let after = buffer_of(event_kept(v, per_task, total, task, event).buffers, t);
        assert(after.events =~= now.skip(after.dropped as int));
    } else {
        lemma_filled_tells_same_story(v, per_task, total, task, event);
        let w = event_filled(v, per_task, task, event);
        let filled = buffer_of(w.buffers, t);
        assert(filled.events =~= now.skip(filled.dropped as int));
        if w.order.len() > total {
            lemma_head_is_oldest(w.buffers, w.order);
            if t == w.order[0].0 {
                assert(without_oldest(filled).events =~= now.skip(filled.dropped + 1));
            }
        }
    }
}

/// From where nothing is kept for a task, whatever is kept for it and for others: the buffer of the
/// task holds the last of the events that were given for it, in their order; those and the dropped
/// ones are all that were given; it is known to be incomplete exactly where some were dropped;
/// and nothing is kept where there is no room at all. The bounds of each task and of all tasks
/// together hold throughout.
pub proof fn law_kept_events_are_accounted_for(
    v: SupervisorView,
    per_task: nat,
    total: nat,
    row: Seq<(Seq<char>, RuntimeEventView)>,
    task: Seq<char>,
)
    requires
        sound(v, per_task, total),
        buffer_of(v.buffers, task) == empty_buffer(),
        row.len() <= u64::MAX,
    ensures
        sound(events_kept(v, per_task, total, row), per_task, total),
        accounts_for(
            buffer_of(events_kept(v, per_task, total, row).buffers, task),
            given_for(row, task),
        ),
        given_for(row, task).len() <= row.len(),
        buffer_of(events_kept(v, per_task, total, row).buffers, task).events.len() <= per_task,
        buffer_of(events_kept(v, per_task, total, row).buffers, task).events.len() <= total,
    decreases row.len(),
{
    let kept = events_kept(v, per_task, total, row);
    if row.len() > 0 {
        let front = row.drop_last();
        law_kept_events_are_accounted_for(v, per_task, total, front, task);
        let w = events_kept(v, per_task, total, front);
        law_keeping_an_event_is_sound(w, per_task, total, row.last().0, row.last().1);
        lemma_kept_accounts(
            w,
            per_task,
            total,
            row.last().0,
            row.last().1,
            task,
            given_for(front, task),
        );
    } else {
        assert(given_for(row, task).skip(0) =~= Seq::<RuntimeEventView>::empty());
    }
    lemma_buffer_within_order(kept, per_task, total, task);
}

proof fn lemma_buffer_within_order(v: SupervisorView, per_task: nat, total: nat, task: Seq<char>)
    requires
        sound(v, per_task, total),
    ensures
        buffer_of(v.buffers, task).events.len() <= per_task,
        buffer_of(v.buffers, task).events.len() <= total,
{
    assert(numbers_of(v.order, task) == numbers(buffer_of(v.buffers, task).events));
    assert(numbers_of(v.order, task).len() <= v.order.len()) by {
        v.order.lemma_filter_len(belongs_to(task));
    }
}

/// How many events are kept for a row of tasks together.
pub open spec fn held_for(buffers: Map<Seq<char>, BufferView>, tasks: Seq<Seq<char>>) -> nat
    decreases tasks.len(),
{
    if tasks.len() == 0 {
        0
    } else {
        held_for(buffers, tasks.drop_last()) + buffer_of(buffers, tasks.last()).events.len()
    }
}

spec fn ordered_for(order: Seq<(Seq<char>, u64)>, tasks: Seq<Seq<char>>) -> nat
    decreases tasks.len(),
{
    if tasks.len() == 0 {
        0
    } else {
        ordered_for(order, tasks.drop_last()) + numbers_of(order, tasks.last()).len()
    }
}

proof fn lemma_ordered_without(
    order: Seq<(Seq<char>, u64)>,
    tasks: Seq<Seq<char>>,
    task: Seq<char>,
)
    requires
        !tasks.contains(task),
    ensures
        ordered_for(order_without(order, task), tasks) == ordered_for(order, tasks),
    decreases tasks.len(),
{
    if tasks.len() > 0 {
        let front = tasks.drop_last();
        assert(tasks.contains(tasks[tasks.len() - 1]));
        if front.contains(task) {
            let i = choose|i: int| 0 <= i < front.len() && front[i] == task;
            assert(tasks[i] == task);
        }
        lemma_ordered_without(order, front, task);
        lemma_numbers_without(order, task, tasks.last());
    }
}

proof fn lemma_ordered_within(order: Seq<(Seq<char>, u64)>, tasks: Seq<Seq<char>>)
    requires
        tasks.no_duplicates(),
    ensures
        ordered_for(order, tasks) <= order.len(),
    decreases tasks.len(),
{
    if tasks.len() > 0 {
        let front = tasks.drop_last();
        let task = tasks.last();
        if front.contains(task) {
            let i = choose|i: int| 0 <= i < front.len() && front[i] == task;
            assert(tasks[i] == tasks[tasks.len() - 1]);
        }
        lemma_ordered_without(order, front, task);
        lemma_numbers_without(order, task, task);
        lemma_ordered_within(order_without(order, task), front);
    }
}

/// The events of any tasks together are no more than all tasks together may keep.
pub proof fn law_buffers_together_are_bounded(
    v: SupervisorView,
    per_task: nat,
    total: nat,
    tasks: Seq<Seq<char>>,
)
    requires
        sound(v, per_task, total),
        tasks.no_duplicates(),
    ensures
        held_for(v.buffers, tasks) <= total,
{
    lemma_held_as_ordered(v, per_task, total, tasks);
    lemma_ordered_within(v.order, tasks);
}

proof fn lemma_held_as_ordered(
    v: SupervisorView,
    per_task: nat,
    total: nat,
    tasks: Seq<Seq<char>>,
)
    requires
        sound(v, per_task, total),
    ensures
        held_for(v.buffers, tasks) == ordered_for(v.order, tasks),
    decreases tasks.len(),
{
    if tasks.len() > 0 {
        lemma_held_as_ordered(v, per_task, total, tasks.drop_last());
        let task = tasks.last();
        assert(numbers_of(v.order, task) == numbers(buffer_of(v.buffers, task).events));
    }
}

/// The same of events of the runtime that come by, for a task in flight of which nothing is kept:
/// its buffer accounts for the events about it.
pub proof fn law_seen_events_are_accounted_for(
    v: SupervisorView,
    per_task: nat,
    total: nat,
    row: Seq<RuntimeEventView>,
    task: Seq<char>,
)
    requires
        sound(v, per_task, total),
        v.active.contains_key(task),
        buffer_of(v.buffers, task) == empty_buffer(),
        row.len() <= u64::MAX,
    ensures
        accounts_for(
            buffer_of(events_seen(v, per_task, total, row).buffers, task),
            shown_for(row, task),
        ),
        shown_for(row, task).len() <= row.len(),
        events_seen(v, per_task, total, row).active == v.active,
    decreases row.len(),
{
    if row.len() > 0 {
        let front = row.drop_last();
        law_seen_events_are_accounted_for(v, per_task, total, front, task);
        law_seeing_events_is_sound(v, per_task, total, front);
        let w = events_seen(v, per_task, total, front);
        let shown = redact::redacted_event(row.last());
        if let Some(about) = events::event_task(shown) {
            if w.active.contains_key(about) {
                lemma_kept_accounts(
                    w,
                    per_task,
                    total,
                    about,
                    shown,
                    task,
                    shown_for(front, task),
                );
            }
        }
    } else {
        assert(shown_for(row, task).skip(0) =~= Seq::<RuntimeEventView>::empty());
    }
}

/// Marking a gap keeps the supervisor sound.
pub proof fn law_marking_a_gap_is_sound(v: SupervisorView, per_task: nat, total: nat)
    requires
        sound(v, per_task, total),
    ensures
        sound(gap_marked(v), per_task, total),
{
    let w = gap_marked(v);
    assert forall|t: Seq<char>| #[trigger]
        numbers_of(w.order, t) == numbers(buffer_of(w.buffers, t).events) by {
        assert(numbers_of(v.order, t) == numbers(buffer_of(v.buffers, t).events));
    }
    assert forall|t: Seq<char>| (#[trigger] buffer_of(w.buffers, t)).events.len() <= per_task by {
        assert(buffer_of(v.buffers, t).events.len() <= per_task);
    }
}

/// The runtime's word on a row of tasks keeps the supervisor sound.
pub proof fn law_settling_tasks_is_sound(
    v: SupervisorView,
    per_task: nat,
    total: nat,
    states: Seq<TaskStateView>,
)
    requires
        sound(v, per_task, total),
    ensures
        sound(tasks_settled(v, states), per_task, total),
    decreases states.len(),
{
    if states.len() > 0 {
        law_settling_tasks_is_sound(v, per_task, total, states.drop_last());
        let w = tasks_settled(v, states.drop_last());
        let state = states.last();
        lemma_task_settled_sound(w, per_task, total, state);
    }
}

pub(crate) proof fn lemma_task_settled_sound(
    v: SupervisorView,
    per_task: nat,
    total: nat,
    state: TaskStateView,
)
    requires
        sound(v, per_task, total),
    ensures
        sound(task_settled(v, state), per_task, total),
{
    if state.outcome is Some {
        let buffer = buffer_of(v.buffers, state.task_id);
        law_taking_events_is_sound(v, per_task, total, state.task_id);
        let w = events_taken(v, state.task_id);
        law_keeping_a_verdict_is_sound(
            SupervisorView { active: w.active.remove(state.task_id), ..w },
            per_task,
            total,
            state.task_id,
            Ok(
                FrontendTaskResultView {
                    task_id: state.task_id,
                    status: state.status,
                    outcome: state.outcome,
                    events: buffer.events,
                    events_dropped: buffer.dropped,
                    events_truncated: buffer.truncated || buffer.dropped > 0,
                },
            ),
        );
    }
}

/// Giving up on a row of tasks keeps the supervisor sound.
pub proof fn law_failing_tasks_is_sound(
    v: SupervisorView,
    per_task: nat,
    total: nat,
    tasks: Seq<Seq<char>>,
    message: Seq<char>,
)
    requires
        sound(v, per_task, total),
        forall|i: int| 0 <= i < tasks.len() ==> !v.active.contains_key(#[trigger] tasks[i]),
    ensures
        sound(tasks_failed(v, tasks, message), per_task, total),
        tasks_failed(v, tasks, message).active == v.active,
    decreases tasks.len(),
{
    if tasks.len() > 0 {
        assert(forall|i: int| 0 <= i < tasks.drop_last().len() ==> tasks.drop_last()[i] == tasks[i]);
        law_failing_tasks_is_sound(v, per_task, total, tasks.drop_last(), message);
        let w = tasks_failed(v, tasks.drop_last(), message);
        law_taking_events_is_sound(w, per_task, total, tasks.last());
        law_keeping_a_verdict_is_sound(
            events_taken(w, tasks.last()),
            per_task,
            total,
            tasks.last(),
            Err(message),
        );
    }
}

/// A task in flight whose outcome is in has left the flight, and its result waits to be read: it
/// carries the outcome and the events that were kept for the task.
pub proof fn law_ended_task_has_its_result(
    v: SupervisorView,
    per_task: nat,
    total: nat,
    state: TaskStateView,
)
    requires
        sound(v, per_task, total),
        v.active.contains_key(state.task_id),
        state.outcome is Some,
    ensures
        ({
            let after = task_settled(v, state);
            let buffer = buffer_of(v.buffers, state.task_id);
            &&& !after.active.contains_key(state.task_id)
            &&& after.results.contains_key(state.task_id)
            &&& after.results[state.task_id] matches Ok(result) && {
                &&& result.task_id == state.task_id
                &&& result.status == state.status
                &&& result.outcome == state.outcome
                &&& result.events == buffer.events
                &&& result.events_dropped == buffer.dropped
                &&& result.events_truncated == (buffer.truncated || buffer.dropped > 0)
            }
        }),
{
    if v.ended.len() == MAX_RETAINED_RESULTS {
        assert(v.ended.contains(v.ended[0]));
        assert(v.ended.push(state.task_id)[0] == v.ended[0]);
    }
}

/// The newest entries of a row of ended tasks, as many as are retained.
spec fn newest(ended: Seq<Seq<char>>) -> Seq<Seq<char>> {
    if ended.len() > MAX_RETAINED_RESULTS {
        ended.skip(ended.len() - MAX_RETAINED_RESULTS)
    } else {
        ended
    }
}

proof fn lemma_given_up(v: SupervisorView, tasks: Seq<Seq<char>>, message: Seq<char>)
    requires
        v.ended.len() <= MAX_RETAINED_RESULTS,
        tasks.len() <= MAX_RETAINED_RESULTS,
        tasks.no_duplicates(),
        forall|i: int| 0 <= i < tasks.len() ==> !v.ended.contains(#[trigger] tasks[i]),
    ensures
        tasks_failed(v, tasks, message).ended == newest(v.ended + tasks),
        forall|i: int|
            0 <= i < tasks.len() ==> {
                let after = tasks_failed(v, tasks, message);
                after.results.contains_key(#[trigger] tasks[i]) && after.results[tasks[i]] == Err::<
                    FrontendTaskResultView,
                    Seq<char>,
                >(message)
            },
    decreases tasks.len(),
{
    if tasks.len() == 0 {
        assert(v.ended + tasks =~= v.ended);
    } else {
        let front = tasks.drop_last();
        let last = tasks.last();
        assert(forall|i: int| 0 <= i < front.len() ==> front[i] == tasks[i]);
        lemma_given_up(v, front, message);
        let w = tasks_failed(v, front, message);
        let r = tasks_failed(v, tasks, message);
        let pushed = w.ended.push(last);
        let all = v.ended + tasks;
        assert(all =~= (v.ended + front).push(last));
        if pushed.len() > MAX_RETAINED_RESULTS {
            let k = all.len() - MAX_RETAINED_RESULTS;
            assert(pushed =~= all.skip(k - 1));
            assert(pushed.drop_first() =~= all.skip(k));
            assert(pushed[0] == all[k - 1]);
            assert(pushed[0] == v.ended[k - 1]);
            assert(v.ended.contains(pushed[0]));
        } else {
            assert(pushed =~= newest(all));
        }
        assert(r.ended =~= newest(all));
        assert forall|i: int| 0 <= i < tasks.len() implies r.results.contains_key(
            #[trigger] tasks[i],
        ) && r.results[tasks[i]] == Err::<FrontendTaskResultView, Seq<char>>(message) by {
            if i < front.len() {
                assert(front[i] == tasks[i]);
                assert(w.results.contains_key(front[i]));
                assert(tasks[i] != last);
            }
        }
    }
}

/// Where the host gives up on its tasks in flight, and they are no more than the results it
/// retains, everyone who waits for one of them is told the message.
pub proof fn law_giving_up_answers_everyone(
    v: SupervisorView,
    per_task: nat,
    total: nat,
    message: Seq<char>,
    task: Seq<char>,
)
    requires
        sound(v, per_task, total),
        v.active.dom().finite(),
        v.active.len() <= MAX_RETAINED_RESULTS,
        v.active.contains_key(task),
    ensures
        all_failed(v, message).active == Map::<Seq<char>, TaskHandle>::empty(),
        all_failed(v, message).results.contains_key(task),
        all_failed(v, message).results[task] == Err::<FrontendTaskResultView, Seq<char>>(message),
{
    let tasks = ordered_map::in_order(v.active.dom());
    ordered_map::lemma_in_order_of(v.active.dom());
    let start = SupervisorView {
        active: Map::empty(),
        pump_running: false,
        pump_subscribed: false,
        ..v
    };
    assert forall|i: int| 0 <= i < tasks.len() implies !start.ended.contains(#[trigger] tasks[i]) by {
        assert(tasks.to_set().contains(tasks[i]));
        assert(v.active.contains_key(tasks[i]));
    }
    lemma_given_up(start, tasks, message);
    assert(sound(start, per_task, total));
    law_failing_tasks_is_sound(start, per_task, total, tasks, message);
    assert(tasks.to_set().contains(task));
    let i = choose|i: int| 0 <= i < tasks.len() && tasks[i] == task;
    assert(tasks[i] == task);
}

/// No more results wait to be read than are retained.
pub proof fn law_results_are_bounded(v: SupervisorView, per_task: nat, total: nat)
    requires
        sound(v, per_task, total),
    ensures
        v.results.dom().finite(),
        v.results.len() <= MAX_RETAINED_RESULTS,
{
    let ended = v.ended.to_set();
    assert(v.results.dom().subset_of(ended)) by {
        assert forall|t: Seq<char>| v.results.dom().contains(t) implies ended.contains(t) by {
            assert(v.results.contains_key(t));
        }
    }
    v.ended.lemma_cardinality_of_set();
    vstd::set_lib::lemma_len_subset(v.results.dom(), ended);
}

/// The frontend is told all of a page: first of a gap, where events were lost, with the numbers of
/// the page, and then every event of the page in its order, redacted and whole.
pub proof fn law_page_is_told_whole(row: Seq<RuntimeEventView>, lost: u64, dropped: u64, i: int)
    requires
        0 <= i < row.len(),
    ensures
        page_told(row, lost, dropped).len() == row.len() + if lost > 0 {
            1int
        } else {
            0int
        },
        lost > 0 ==> page_told(row, lost, dropped)[0]
            == (events::FrontendEventView::ObservabilityGap {
            stream: "runtime_event"@,
            lost,
            dropped,
        }),
        page_told(row, lost, dropped)[i + if lost > 0 {
            1int
        } else {
            0int
        }] == events::told_event(redact::redacted_event(row[i])),
{
}

/// A gap of a stream is told exactly where something was lost, with its numbers.
pub proof fn law_gap_is_told_where_there_is_one(stream: Seq<char>, lost: u64, dropped: u64)
    ensures
        lost == 0 <==> gap_told(stream, lost, dropped).len() == 0,
        lost > 0 ==> gap_told(stream, lost, dropped) == seq![
            events::FrontendEventView::ObservabilityGap { stream, lost, dropped },
        ],
{
}

/// Following a task makes it one in flight of which nothing older is remembered, and leaves every
/// other task alone.
pub proof fn law_followed_task_is_in_flight(
    v: SupervisorView,
    handle: TaskHandle,
    other: Seq<char>,
)
    requires
        other != handle.task_id@,
    ensures
        ({
            let w = task_followed(v, handle);
            let task = handle.task_id@;
            &&& w.active.contains_key(task) && w.active[task] == handle
            &&& !w.results.contains_key(task)
            &&& !w.ended.contains(task)
            &&& buffer_of(w.buffers, task) == empty_buffer()
            &&& w.active.contains_key(other) == v.active.contains_key(other)
            &&& v.active.contains_key(other) ==> w.active[other] == v.active[other]
            &&& w.results.contains_key(other) == v.results.contains_key(other)
            &&& v.results.contains_key(other) ==> w.results[other] == v.results[other]
            &&& buffer_of(w.buffers, other) == buffer_of(v.buffers, other)
            &&& w.event_cursor == v.event_cursor && w.trace_cursor == v.trace_cursor
            &&& w.pump_running == v.pump_running && w.pump_subscribed == v.pump_subscribed
            &&& w.shutting_down == v.shutting_down
        }),
{
    lemma_ended_without(v.ended, handle.task_id@, handle.task_id@);
}

/// Consuming a result takes it away and leaves everything else alone.
pub proof fn law_consumed_result_is_gone(v: SupervisorView, task: Seq<char>, other: Seq<char>)
    requires
        other != task,
    ensures
        !consumed(v, task).results.contains_key(task),
        !consumed(v, task).ended.contains(task),
        consumed(v, task).results.contains_key(other) == v.results.contains_key(other),
        v.results.contains_key(other) ==> consumed(v, task).results[other] == v.results[other],
        consumed(v, task).active == v.active,
        consumed(v, task).buffers == v.buffers,
{
    lemma_ended_without(v.ended, task, task);
}

/// A task without an outcome goes on: the runtime's word on it changes nothing.
pub proof fn law_unfinished_task_goes_on(v: SupervisorView, state: TaskStateView)
    requires
        state.outcome is None,
    ensures
        task_settled(v, state) == v,
{
}

/// A gap marks the buffers of the tasks in flight as incomplete, and changes nothing else.
pub proof fn law_gap_marks_the_tasks_in_flight(v: SupervisorView, task: Seq<char>)
    ensures
        v.active.contains_key(task) ==> buffer_of(gap_marked(v).buffers, task).truncated,
        buffer_of(gap_marked(v).buffers, task).events == buffer_of(v.buffers, task).events,
        buffer_of(gap_marked(v).buffers, task).dropped == buffer_of(v.buffers, task).dropped,
        !v.active.contains_key(task) ==> buffer_of(gap_marked(v).buffers, task) == buffer_of(
            v.buffers,
            task,
        ),
        gap_marked(v).active == v.active,
        gap_marked(v).results == v.results,
        gap_marked(v).ended == v.ended,
        gap_marked(v).order == v.order,
{
}

/// A page moves the cursor to where it says, marks a gap exactly where something was lost, and ends
/// no task.
pub proof fn law_page_moves_the_cursor(
    v: SupervisorView,
    per_task: nat,
    total: nat,
    row: Seq<RuntimeEventView>,
    next_sequence: u64,
    lost: u64,
)
    ensures
        ({
            let w = page_seen(v, per_task, total, row, next_sequence, lost);
            &&& w.event_cursor == next_sequence
            &&& w.trace_cursor == v.trace_cursor
            &&& w.active == v.active
            &&& w.results == v.results
            &&& w.ended == v.ended
            &&& row.len() == 0 && lost == 0 ==> w == (SupervisorView {
                event_cursor: next_sequence,
                ..v
            })
        }),
{
    let w = SupervisorView { event_cursor: next_sequence, ..v };
    lemma_seeing_keeps_the_rest(
        if lost > 0 {
            gap_marked(w)
        } else {
            w
        },
        per_task,
        total,
        row,
    );
}

proof fn lemma_seeing_keeps_the_rest(
    v: SupervisorView,
    per_task: nat,
    total: nat,
    row: Seq<RuntimeEventView>,
)
    ensures
        ({
            let w = events_seen(v, per_task, total, row);
            &&& w.event_cursor == v.event_cursor
            &&& w.trace_cursor == v.trace_cursor
            &&& w.active == v.active
            &&& w.results == v.results
            &&& w.ended == v.ended
        }),
    decreases row.len(),
{
    if row.len() > 0 {
        lemma_seeing_keeps_the_rest(v, per_task, total, row.drop_last());
    }
}

/// Events that come by are kept for the task they are about and for no other.
pub proof fn law_events_are_kept_for_their_own_task(
    v: SupervisorView,
    per_task: nat,
    total: nat,
    event: RuntimeEventView,
)
    requires
        sound(v, per_task, total),
        per_task > 0,
        total > 0,
        event.kind is Task,
        event.subject_id is Some,
        v.active.contains_key(event.subject_id->0),
    ensures
        buffer_of(event_seen(v, per_task, total, event).buffers, event.subject_id->0).events.last()
            == redact::redacted_event(event),
        buffer_of(event_seen(v, per_task, total, event).buffers, event.subject_id->0).events.len()
            > 0,
{
    let shown = redact::redacted_event(event);
    let task = event.subject_id->0;
    lemma_filled_tells_same_story(v, per_task, total, task, shown);
    let w = event_filled(v, per_task, task, shown);
    let filled = buffer_of(w.buffers, task);
    assert(filled.events.last() == shown);
    if w.order.len() > total {
        lemma_head_is_oldest(w.buffers, w.order);
        if w.order[0].0 == task {
            // The order holds at least two entries, the last of which is the new one.
            assert(numbers_of(w.order, task) == numbers(filled.events));
            lemma_two_kept(w, task, filled, total);
        }
    }
}

proof fn lemma_two_kept(w: SupervisorView, task: Seq<char>, filled: BufferView, total: nat)
    requires
        w.order.len() > total,
        total > 0,
        w.order[0].0 == task,
        w.order.last().0 == task,
        numbers_of(w.order, task) == numbers(filled.events),
    ensures
        filled.events.len() >= 2,
{
    let front = seq![w.order[0]];
    let middle = w.order.subrange(1, w.order.len() - 1);
    let back = seq![w.order.last()];
    assert(w.order =~= front + (middle + back));
    lemma_numbers_add(front, middle + back, task);
    lemma_numbers_add(middle, back, task);
    let none = Seq::<(Seq<char>, u64)>::empty();
    assert(front =~= none.push((task, w.order[0].1)));
    assert(back =~= none.push((task, w.order.last().1)));
    lemma_numbers_push(none, task, w.order[0].1, task);
    lemma_numbers_push(none, task, w.order.last().1, task);
    assert(numbers_of(w.order, task).len() >= 2);
    assert(numbers(filled.events).len() == filled.events.len());
}

/// An event about no task in flight is kept nowhere.
pub proof fn law_other_events_are_not_kept(
    v: SupervisorView,
    per_task: nat,
    total: nat,
    event: RuntimeEventView,
)
    requires
        !(event.kind is Task) || event.subject_id is None || !v.active.contains_key(
            event.subject_id->0,
        ),
    ensures
        event_seen(v, per_task, total, event) == v,
{
}

/// Giving up ends every task in flight with the words that were given, brings the pump to rest, and
/// leaves no task in flight; the task that is given up last is answered with those words.
pub proof fn law_giving_up_says_why(
    v: SupervisorView,
    tasks: Seq<Seq<char>>,
    message: Seq<char>,
)
    requires
        tasks.len() > 0,
        v.ended.len() <= MAX_RETAINED_RESULTS,
        !v.ended.contains(tasks.last()),
        tasks.no_duplicates(),
    ensures
        all_failed(v, message).active == Map::<Seq<char>, TaskHandle>::empty(),
        !all_failed(v, message).pump_running,
        tasks_failed(v, tasks, message).results.contains_key(tasks.last()),
        tasks_failed(v, tasks, message).results[tasks.last()] == Err::<
            FrontendTaskResultView,
            Seq<char>,
        >(message),
{
    let none = SupervisorView {
        active: Map::empty(),
        pump_running: false,
        pump_subscribed: false,
        ..v
    };
    let row = ordered_map::in_order(v.active.dom());
    lemma_failing_keeps_active(none, row, message);
    lemma_failing_keeps_pump(none, row, message);
    let w = tasks_failed(v, tasks.drop_last(), message);
    lemma_failing_bounds_the_ended(v, tasks.drop_last(), message, tasks.last());
}

proof fn lemma_failing_bounds_the_ended(
    v: SupervisorView,
    tasks: Seq<Seq<char>>,
    message: Seq<char>,
    other: Seq<char>,
)
    requires
        v.ended.len() <= MAX_RETAINED_RESULTS,
        !v.ended.contains(other),
        !tasks.contains(other),
    ensures
        tasks_failed(v, tasks, message).ended.len() <= MAX_RETAINED_RESULTS,
        !tasks_failed(v, tasks, message).ended.contains(other),
    decreases tasks.len(),
{
    if tasks.len() > 0 {
        let front = tasks.drop_last();
        assert(tasks.contains(tasks[tasks.len() - 1]));
        if front.contains(other) {
            let i = choose|i: int| 0 <= i < front.len() && front[i] == other;
            assert(tasks[i] == other);
        }
        lemma_failing_bounds_the_ended(v, front, message, other);
        let w = tasks_failed(v, front, message);
        let after = tasks_failed(v, tasks, message);
        if after.ended.contains(other) {
            let i = choose|i: int| 0 <= i < after.ended.len() && after.ended[i] == other;
            if w.ended.len() == MAX_RETAINED_RESULTS {
                if i + 1 < w.ended.len() {
                    assert(w.ended[i + 1] == other);
                }
            } else if i < w.ended.len() {
                assert(w.ended[i] == other);
            }
        }
    }
}

/// A supervisor that was just made follows nothing, keeps nothing and has read nothing.
pub proof fn law_new_supervisor_is_empty(task: Seq<char>)
    ensures
        ({
            let v = fresh();
            &&& !v.active.contains_key(task) && !v.results.contains_key(task)
            &&& !v.buffers.contains_key(task)
            &&& v.order.len() == 0 && v.ended.len() == 0
            &&& v.event_cursor == 0 && v.trace_cursor == 0
            &&& !v.pump_running && !v.pump_subscribed && !v.shutting_down
        }),
{
}

/// A result that is kept waits to be read, last among those that ended; the results of the others
/// stay, but for that of the task that ended first where more ended than are retained.
pub proof fn law_kept_result_forgets_the_oldest_only(
    v: SupervisorView,
    per_task: nat,
    total: nat,
    task: Seq<char>,
    verdict: Verdict,
    other: Seq<char>,
)
    requires
        sound(v, per_task, total),
        !v.ended.contains(task),
        other != task,
    ensures
        ({
            let w = verdict_kept(v, task, verdict);
            let full = v.ended.len() == 256;
            &&& w.results.contains_key(task) && w.results[task] == verdict
            &&& w.ended == if full {
                v.ended.drop_first().push(task)
            } else {
                v.ended.push(task)
            }
            &&& !full || other != v.ended[0] ==> {
                &&& w.results.contains_key(other) == v.results.contains_key(other)
                &&& v.results.contains_key(other) ==> w.results[other] == v.results[other]
                &&& buffer_of(w.buffers, other) == buffer_of(v.buffers, other)
            }
            &&& full && other == v.ended[0] ==> !w.results.contains_key(other)
            &&& w.active == v.active
        }),
{
    let w = verdict_kept(v, task, verdict);
    if v.ended.len() == 256 {
        assert(v.ended.contains(v.ended[0]));
        assert(v.ended.push(task)[0] == v.ended[0]);
        assert(v.ended.push(task).drop_first() =~= v.ended.drop_first().push(task));
    }
}

/// The end of a task leaves the other tasks in flight as they are.
pub proof fn law_ended_task_leaves_the_others_in_flight(
    v: SupervisorView,
    state: TaskStateView,
    other: Seq<char>,
)
    requires
        other != state.task_id,
    ensures
        ({
            let w = task_settled(v, state);
            &&& w.active.contains_key(other) == v.active.contains_key(other)
            &&& v.active.contains_key(other) ==> w.active[other] == v.active[other]
            &&& state.outcome is Some ==> !w.active.contains_key(state.task_id)
            &&& w.event_cursor == v.event_cursor && w.trace_cursor == v.trace_cursor
            &&& w.pump_running == v.pump_running && w.shutting_down == v.shutting_down
        }),
{
}

/// Once the runtime's word on a row of tasks is in, a task is in flight exactly where it was before
/// and the row names no outcome for it.
pub proof fn law_tasks_without_outcome_stay_in_flight(
    v: SupervisorView,
    states: Seq<TaskStateView>,
    task: Seq<char>,
)
    ensures
        tasks_settled(v, states).active.contains_key(task) <==> v.active.contains_key(task)
            && !exists|i: int|
            0 <= i < states.len() && (#[trigger] states[i]).task_id == task && states[i].outcome
                is Some,
        tasks_settled(v, states).active.contains_key(task) ==> tasks_settled(v, states).active[task]
            == v.active[task],
    decreases states.len(),
{
    if states.len() > 0 {
        let front = states.drop_last();
        let last = states.len() - 1;
        law_tasks_without_outcome_stay_in_flight(v, front, task);
        if exists|i: int|
            0 <= i < front.len() && (#[trigger] front[i]).task_id == task && front[i].outcome
                is Some {
            let i = choose|i: int|
                0 <= i < front.len() && (#[trigger] front[i]).task_id == task && front[i].outcome
                    is Some;
            assert(states[i].task_id == task);
        }
        if exists|i: int|
            0 <= i < states.len() && (#[trigger] states[i]).task_id == task && states[i].outcome
                is Some {
            let i = choose|i: int|
                0 <= i < states.len() && (#[trigger] states[i]).task_id == task && states[i].outcome
                    is Some;
            if i < last {
                assert(front[i].task_id == task);
            }
        }
        assert(states[last] == states.last());
    }
}

/// Taking the events of a task takes all of them and those of no other task.
pub proof fn law_taken_events_are_the_tasks_own(
    v: SupervisorView,
    task: Seq<char>,
    other: Seq<char>,
)
    requires
        other != task,
    ensures
        buffer_of(events_taken(v, task).buffers, task) == empty_buffer(),
        buffer_of(events_taken(v, task).buffers, other) == buffer_of(v.buffers, other),
        numbers_of(events_taken(v, task).order, other) == numbers_of(v.order, other),
        numbers_of(events_taken(v, task).order, task).len() == 0,
        events_taken(v, task).active == v.active,
        events_taken(v, task).results == v.results,
        events_taken(v, task).ended == v.ended,
        empty_buffer().events.len() == 0 && empty_buffer().dropped == 0
            && !empty_buffer().truncated,
{
    lemma_numbers_without(v.order, task, other);
    lemma_numbers_without(v.order, task, task);
}

} // verus!
