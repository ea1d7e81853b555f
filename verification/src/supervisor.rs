//! The task supervisor: it follows the tasks in flight, keeps a bounded row of events for each,
//! and holds the results until they are read.
use crate::bridge::{FrontendTaskResult, FrontendTaskResultView};
use crate::contracts::{
    HostTaskState, ObservabilityPage, RuntimeEvent, RuntimeEventView, TaskHandle, TraceSpan,
};
use crate::contracts;
use crate::error::{HostError, HostResult};
use crate::events::{FrontendEventView, MutsukiFrontendEvent};
use crate::events;
use crate::health::HostHealthState;
use crate::health;
use crate::ordered_map::{Entry, OrderedMap};
use crate::ordered_map;
use crate::redact;
use crate::supervision::{BufferView, MAX_RETAINED_RESULTS, SupervisorView, TaskStateView, Verdict};
use crate::supervision;
use crate::text;
use std::collections::VecDeque;
use vstd::prelude::*;
use vstd::string::*;

verus! {

broadcast use vstd::string::group_string_axioms;

/// The events kept for one task.
#[derive(Debug)]
struct TaskEventBuffer {
    events: VecDeque<RuntimeEvent>,
    dropped: u64,
    truncated: bool,
}

impl View for TaskEventBuffer {
    type V = BufferView;

    closed spec fn view(&self) -> BufferView {
        BufferView {
            events: contracts::event_views(self.events@),
            dropped: self.dropped,
            truncated: self.truncated,
        }
    }
}

impl TaskEventBuffer {
    fn new() -> (buffer: Self)
        ensures
            buffer@ == supervision::empty_buffer(),
    {
        let buffer = TaskEventBuffer { events: VecDeque::new(), dropped: 0, truncated: false };
        assert(buffer@ =~= supervision::empty_buffer());
        buffer
    }

    /// Lets go of the oldest event.
    fn drop_oldest(&mut self)
        requires
            old(self)@.events.len() > 0,
        ensures
            final(self)@ == supervision::without_oldest(old(self)@),
    {
        let _ = self.events.pop_front();
        self.dropped = self.dropped.saturating_add(1);
        self.truncated = true;
        assert(self@.events =~= old(self)@.events.drop_first());
    }
}

/// How a task ended, as it is held until it is read.
type HeldVerdict = Result<FrontendTaskResult, String>;

pub closed spec fn verdict_view(held: HeldVerdict) -> Verdict {
    match held {
        Ok(result) => Ok(result@),
        Err(message) => Err(message@),
    }
}

/// What the supervisor remembers.
#[derive(Debug)]
struct SupervisorState {
    active: OrderedMap<TaskHandle>,
    events_by_task: OrderedMap<TaskEventBuffer>,
    task_event_order: VecDeque<(String, u64)>,
    retained_task_events: usize,
    terminal_results: OrderedMap<HeldVerdict>,
    terminal_order: VecDeque<String>,
    last_runtime_event_sequence: u64,
    last_trace_span_sequence: u64,
    pump_running: bool,
    pump_subscribed: bool,
    shutting_down: bool,
}

closed spec fn buffer_views(buffers: Map<Seq<char>, TaskEventBuffer>) -> Map<Seq<char>, BufferView> {
    buffers.map_values(|buffer: TaskEventBuffer| buffer@)
}

closed spec fn order_view(order: Seq<(String, u64)>) -> Seq<(Seq<char>, u64)> {
    order.map_values(|e: (String, u64)| (e.0@, e.1))
}

closed spec fn verdict_views(results: Map<Seq<char>, HeldVerdict>) -> Map<Seq<char>, Verdict> {
    results.map_values(|held: HeldVerdict| verdict_view(held))
}

impl View for SupervisorState {
    type V = SupervisorView;

    closed spec fn view(&self) -> SupervisorView {
        SupervisorView {
            active: self.active@,
            buffers: buffer_views(self.events_by_task@),
            order: order_view(self.task_event_order@),
            results: verdict_views(self.terminal_results@),
            ended: text::texts(self.terminal_order@),
            event_cursor: self.last_runtime_event_sequence,
            trace_cursor: self.last_trace_span_sequence,
            pump_running: self.pump_running,
            pump_subscribed: self.pump_subscribed,
            shutting_down: self.shutting_down,
        }
    }
}

impl SupervisorState {
    spec fn keeps(self, per_task: nat, total: nat) -> bool {
        &&& supervision::sound(self@, per_task, total)
        &&& self.retained_task_events == self.task_event_order@.len()
    }

    fn new() -> (state: Self)
        ensures
            state@ == supervision::fresh(),
            forall|per_task: nat, total: nat| state.keeps(per_task, total),
    {
        let state = SupervisorState {
            active: OrderedMap::new(),
            events_by_task: OrderedMap::new(),
            task_event_order: VecDeque::new(),
            retained_task_events: 0,
            terminal_results: OrderedMap::new(),
            terminal_order: VecDeque::new(),
            last_runtime_event_sequence: 0,
            last_trace_span_sequence: 0,
            pump_running: false,
            pump_subscribed: false,
            shutting_down: false,
        };
        proof {
            assert(state@ =~= supervision::fresh());
            supervision::lemma_fresh_sound();
        }
        state
    }

    /// Takes the events kept for a task out.
    fn take_task_events(
        &mut self,
        task_id: &str,
        Ghost(per_task): Ghost<nat>,
        Ghost(total): Ghost<nat>,
    ) -> (buffer: TaskEventBuffer)
        requires
            old(self).keeps(per_task, total),
        ensures
            final(self).keeps(per_task, total),
            final(self)@ == supervision::events_taken(old(self)@, task_id@),
            buffer@ == supervision::buffer_of(old(self)@.buffers, task_id@),
    {
        let ghost before = self@;
        proof {
            supervision::lemma_taken_count(before, per_task, total, task_id@);
            supervision::law_taking_events_is_sound(before, per_task, total, task_id@);
        }
        let buffer = match self.events_by_task.remove(task_id) {
            Some(buffer) => buffer,
            None => TaskEventBuffer::new(),
        };
        assert(buffer_views(self.events_by_task@) =~= before.buffers.remove(task_id@));
        self.retained_task_events = self.retained_task_events.saturating_sub(buffer.events.len());
        let mut order: VecDeque<(String, u64)> = VecDeque::new();
        std::mem::swap(&mut order, &mut self.task_event_order);
        let ghost all = order_view(order@);
        let mut kept: VecDeque<(String, u64)> = VecDeque::new();
        let ghost mut done: int = 0;
        assert(all.take(0) =~= Seq::empty());
        assert(supervision::order_without(all.take(0), task_id@) =~= Seq::empty()) by {
            reveal(Seq::filter);
        }
        while order.len() > 0
            invariant
                0 <= done <= all.len(),
                order_view(order@) == all.skip(done),
                order_view(kept@) == supervision::order_without(all.take(done), task_id@),
            decreases order@.len(),
        {
            assert(order_view(order@).len() == order@.len());
            let ghost was = order_view(order@);
            match order.pop_front() {
                Some(entry) => {
                    proof {
                        assert((entry.0@, entry.1) == all.skip(done)[0]);
                        assert(all.take(done + 1) =~= all.take(done).push(all[done]));
                        all.take(done).lemma_filter_push(
                            all[done],
                            supervision::belongs_elsewhere(task_id@),
                        );
                        assert(order_view(order@) =~= was.drop_first());
                        assert(was.drop_first() =~= all.skip(done + 1));
                    }
                    if !text::text_eq(entry.0.as_str(), task_id) {
                        kept.push_back(entry);
                        assert(order_view(kept@) =~= supervision::order_without(
                            all.take(done),
                            task_id@,
                        ).push(all[done]));
                    }
                    proof {
                        done = done + 1;
                    }
                },
                None => {},
            }
        }
        assert(all.take(done) =~= all) by {
            assert(order_view(order@).len() == 0);
        }
        self.task_event_order = kept;
        assert(self@ =~= supervision::events_taken(before, task_id@));
        assert(order_view(kept@).len() == kept@.len());
        buffer
    }

    /// Strikes a task from the row of ended ones.
    fn forget_ended(&mut self, task_id: &str)
        ensures
            final(self)@ == (SupervisorView {
                ended: supervision::ended_without(old(self)@.ended, task_id@),
                ..old(self)@
            }),
            final(self).retained_task_events == old(self).retained_task_events,
            final(self).task_event_order == old(self).task_event_order,
    {
        let ghost before = self@;
        let mut order: VecDeque<String> = VecDeque::new();
        std::mem::swap(&mut order, &mut self.terminal_order);
        let ghost all = text::texts(order@);
        let mut kept: VecDeque<String> = VecDeque::new();
        let ghost mut done: int = 0;
        assert(all.take(0) =~= Seq::empty());
        assert(supervision::ended_without(all.take(0), task_id@) =~= Seq::empty()) by {
            reveal(Seq::filter);
        }
        while order.len() > 0
            invariant
                0 <= done <= all.len(),
                text::texts(order@) == all.skip(done),
                text::texts(kept@) == supervision::ended_without(all.take(done), task_id@),
            decreases order@.len(),
        {
            assert(text::texts(order@).len() == order@.len());
            let ghost was = text::texts(order@);
            match order.pop_front() {
                Some(ended) => {
                    proof {
                        assert(ended@ == all.skip(done)[0]);
                        assert(all.take(done + 1) =~= all.take(done).push(all[done]));
                        all.take(done).lemma_filter_push(
                            all[done],
                            supervision::differs_from(task_id@),
                        );
                        assert(text::texts(order@) =~= was.drop_first());
                        assert(was.drop_first() =~= all.skip(done + 1));
                    }
                    if !text::text_eq(ended.as_str(), task_id) {
                        kept.push_back(ended);
                        assert(text::texts(kept@) =~= supervision::ended_without(
                            all.take(done),
                            task_id@,
                        ).push(all[done]));
                    }
                    proof {
                        done = done + 1;
                    }
                },
                None => {},
            }
        }
        assert(all.take(done) =~= all) by {
            assert(text::texts(order@).len() == 0);
        }
        self.terminal_order = kept;
        assert(self@ =~= SupervisorView {
            ended: supervision::ended_without(before.ended, task_id@),
            ..before
        });
    }

    /// Holds a result until it is read, and forgets the oldest where too many tasks have ended.
    fn retain_terminal(
        &mut self,
        task_id: String,
        held: HeldVerdict,
        Ghost(per_task): Ghost<nat>,
        Ghost(total): Ghost<nat>,
    )
        requires
            old(self).keeps(per_task, total),
            !old(self)@.active.contains_key(task_id@),
        ensures
            final(self).keeps(per_task, total),
            final(self)@ == supervision::verdict_kept(old(self)@, task_id@, verdict_view(held)),
    {
        let ghost before = self@;
        let ghost task = task_id@;
        let ghost verdict = verdict_view(held);
        proof {
            supervision::law_keeping_a_verdict_is_sound(before, per_task, total, task, verdict);
        }
        self.terminal_results.insert(task_id.clone(), held);
        self.terminal_order.push_back(task_id);
        let ghost w = SupervisorView {
            results: before.results.insert(task, verdict),
            ended: before.ended.push(task),
            ..before
        };
        assert(self@ =~= w);
        assert(self@.ended.len() == self.terminal_order@.len());
        if self.terminal_order.len() > MAX_RETAINED_RESULTS {
            if let Some(evicted) = self.terminal_order.pop_front() {
                self.terminal_results.remove(evicted.as_str());
                let ghost x = SupervisorView {
                    results: w.results.remove(w.ended[0]),
                    ended: w.ended.drop_first(),
                    ..w
                };
                assert(evicted@ == w.ended[0]);
                assert(self@ =~= x);
                proof {
                    supervision::lemma_evicting_keeps_sound(before, per_task, total, task, verdict);
                }
                let _ = self.take_task_events(evicted.as_str(), Ghost(per_task), Ghost(total));
            }
        }
    }

    /// Keeps an event for a task within the given bounds.
    fn retain_task_event(&mut self, per_task: usize, total: usize, task_id: String, event: RuntimeEvent)
        requires
            old(self).keeps(per_task as nat, total as nat),
        ensures
            final(self).keeps(per_task as nat, total as nat),
            final(self)@ == supervision::event_kept(
                old(self)@,
                per_task as nat,
                total as nat,
                task_id@,
                event@,
            ),
    {
        let ghost before = self@;
        let ghost task = task_id@;
        let ghost shown = event@;
        proof {
            supervision::law_keeping_an_event_is_sound(
                before,
                per_task as nat,
                total as nat,
                task,
                shown,
            );
        }
        let mut buffer = match self.events_by_task.remove(task_id.as_str()) {
            Some(buffer) => buffer,
            None => TaskEventBuffer::new(),
        };
        assert(buffer@ == supervision::buffer_of(before.buffers, task));
        if per_task == 0 || total == 0 {
            buffer.dropped = buffer.dropped.saturating_add(1);
            buffer.truncated = true;
            self.events_by_task.insert(task_id, buffer);
            assert(self@.buffers =~= before.buffers.insert(task, buffer@));
            assert(self@ =~= supervision::event_kept(
                before,
                per_task as nat,
                total as nat,
                task,
                shown,
            ));
            return ;
        }
        let ghost full = buffer@.events.len() >= per_task;
        assert(supervision::numbers_of(before.order, task) == supervision::numbers(buffer@.events));
        assert(buffer@.events.len() == buffer.events@.len());
        if buffer.events.len() >= per_task {
            let sequence: u64 = buffer.events[0].sequence;
            proof {
                assert(supervision::numbers(buffer@.events)[0] == sequence);
                supervision::lemma_oldest_exists(before.order, task);
            }
            let ghost oldest = supervision::oldest_of(before.order, task);
            proof {
                supervision::lemma_numbers_remove(before.order, task, oldest, task);
            }
            buffer.drop_oldest();
            let mut at: usize = 0;
            while at < self.task_event_order.len() && !(text::text_eq(
                self.task_event_order[at].0.as_str(),
                task_id.as_str(),
            ) && self.task_event_order[at].1 == sequence)
                invariant
                    at <= self.task_event_order@.len(),
                    order_view(self.task_event_order@) == before.order,
                    task == task_id@,
                    supervision::oldest_at(before.order, task, oldest),
                    before.order[oldest].1 == sequence,
                    forall|j: int|
                        0 <= j < at ==> (#[trigger] before.order[j]).0 != task || before.order[j].1
                            != sequence,
                decreases self.task_event_order@.len() - at,
            {
                assert(before.order[at as int] == (
                    self.task_event_order@[at as int].0@,
                    self.task_event_order@[at as int].1,
                ));
                at = at + 1;
            }
            proof {
                assert(order_view(self.task_event_order@).len() == self.task_event_order@.len());
                assert(at <= oldest);
                assert(before.order[at as int] == (
                    self.task_event_order@[at as int].0@,
                    self.task_event_order@[at as int].1,
                ));
                if at < oldest {
                    assert(before.order[at as int].0 != task);
                }
            }
            let _ = self.task_event_order.remove(at);
            self.retained_task_events = self.retained_task_events.saturating_sub(1);
            assert(order_view(self.task_event_order@) =~= before.order.remove(oldest));
        }
        let ghost roomy = buffer@;
        let sequence: u64 = event.sequence;
        buffer.events.push_back(event);
        assert(buffer@.events =~= roomy.events.push(shown));
        let ghost filled = buffer@;
        self.events_by_task.insert(task_id.clone(), buffer);
        let ghost order = order_view(self.task_event_order@);
        assert(order_view(self.task_event_order@).len() == self.task_event_order@.len());
        self.task_event_order.push_back((task_id, sequence));
        let ghost w = SupervisorView {
            buffers: before.buffers.insert(task, filled),
            order: order.push((task, sequence)),
            ..before
        };
        assert(self@.buffers =~= w.buffers);
        assert(self@.order =~= w.order);
        assert(self@ =~= w);
        proof {
            supervision::lemma_filled_tells_same_story(
                before,
                per_task as nat,
                total as nat,
                task,
                shown,
            );
        }
        if self.retained_task_events >= total {
            // One event too many: the oldest of all leaves.
            proof {
                supervision::lemma_head_is_oldest(w.buffers, w.order);
            }
            if let Some(evicted) = self.task_event_order.pop_front() {
                assert((evicted.0@, evicted.1) == w.order[0]);
                if let Some(crowded) = self.events_by_task.remove(evicted.0.as_str()) {
                    let mut crowded = crowded;
                    assert(crowded@ == w.buffers[evicted.0@]);
                    crowded.drop_oldest();
                    assert(order_view(self.task_event_order@) =~= w.order.drop_first());
                    let ghost eased = crowded@;
                    self.events_by_task.insert(evicted.0, crowded);
                    assert(self@.buffers =~= w.buffers.insert(w.order[0].0, eased));
                }
            }
            assert(order_view(self.task_event_order@).len() == self.task_event_order@.len());
            assert(self@ =~= supervision::event_kept(
                before,
                per_task as nat,
                total as nat,
                task,
                shown,
            ));
        } else {
            self.retained_task_events = self.retained_task_events + 1;
            assert(order_view(self.task_event_order@).len() == self.task_event_order@.len());
            assert(self@ =~= supervision::event_kept(
                before,
                per_task as nat,
                total as nat,
                task,
                shown,
            ));
        }
    }

    /// Follows a task and forgets whatever was remembered of it.
    fn track(&mut self, handle: TaskHandle, Ghost(per_task): Ghost<nat>, Ghost(total): Ghost<nat>)
        requires
            old(self).keeps(per_task, total),
        ensures
            final(self).keeps(per_task, total),
            final(self)@ == supervision::task_followed(old(self)@, handle),
    {
        let ghost before = self@;
        let task_id = handle.task_id.clone();
        let ghost task = task_id@;
        self.active.insert(task_id.clone(), handle);
        self.terminal_results.remove(task_id.as_str());
        assert(self@.results =~= before.results.remove(task));
        self.forget_ended(task_id.as_str());
        let ghost w = SupervisorView {
            active: before.active.insert(task, handle),
            ..supervision::consumed(before, task)
        };
        assert(self@ =~= w);
        proof {
            supervision::lemma_followed_sound(before, per_task, total, handle);
        }
        let _ = self.take_task_events(task_id.as_str(), Ghost(per_task), Ghost(total));
        assert(self@ =~= supervision::task_followed(before, handle));
    }

    /// Marks the buffers of all tasks in flight as incomplete.
    fn mark_gap(&mut self, Ghost(per_task): Ghost<nat>, Ghost(total): Ghost<nat>)
        requires
            old(self).keeps(per_task, total),
        ensures
            final(self).keeps(per_task, total),
            final(self)@ == supervision::gap_marked(old(self)@),
    {
        let ghost before = self@;
        let n: usize = self.active.len();
        let ghost keys = self.active.keys();
        let mut i: usize = 0;
        assert(self@ =~= supervision::gap_marked_in(before, keys.take(0).to_set()));
        while i < n
            invariant
                i <= n,
                n == keys.len(),
                keys == self.active.keys(),
                self@ == supervision::gap_marked_in(before, keys.take(i as int).to_set()),
                self.retained_task_events == self.task_event_order@.len(),
            decreases n - i,
        {
            let key = self.active.key_at(i).clone();
            let ghost here = self@;
            let ghost task = key@;
            let mut buffer = match self.events_by_task.remove(key.as_str()) {
                Some(buffer) => buffer,
                None => TaskEventBuffer::new(),
            };
            assert(buffer@ == supervision::buffer_of(here.buffers, task));
            buffer.truncated = true;
            self.events_by_task.insert(key, buffer);
            proof {
                assert(self@.buffers =~= here.buffers.insert(task, buffer@));
                let next = keys.take(i + 1);
                assert(next =~= keys.take(i as int).push(task));
                keys.take(i as int).lemma_push_to_set_commute(task);
                assert(self@ =~= supervision::gap_marked_in(before, next.to_set()));
            }
            i = i + 1;
        }
        proof {
            assert(keys.take(i as int) =~= keys);
            supervision::law_marking_a_gap_is_sound(before, per_task, total);
        }
    }

    /// Takes in a page of the event stream, and tells what the frontend is to be told of it.
    fn ingest_runtime_page(
        &mut self,
        per_task: usize,
        total: usize,
        page: ObservabilityPage<RuntimeEvent>,
        health: &mut HostHealthState,
        now: i64,
    ) -> (told: Vec<MutsukiFrontendEvent>)
        requires
            old(self).keeps(per_task as nat, total as nat),
        ensures
            final(self).keeps(per_task as nat, total as nat),
            final(self)@ == supervision::page_seen(
                old(self)@,
                per_task as nat,
                total as nat,
                contracts::event_views(page.items@),
                page.next_sequence,
                page.lost,
            ),
            final(health)@ == health::events_noted(
                old(health)@,
                contracts::event_views(page.items@),
                now,
            ),
            events::frontend_views(told@) == supervision::page_told(
                contracts::event_views(page.items@),
                page.lost,
                page.dropped,
            ),
    {
        let ghost row = contracts::event_views(page.items@);
        let ghost items = page.items@;
        let ghost health_before = health@;
        self.last_runtime_event_sequence = page.next_sequence;
        assert(self@ =~= SupervisorView { event_cursor: page.next_sequence, ..old(self)@ });
        let mut told: Vec<MutsukiFrontendEvent> = Vec::new();
        if page.lost > 0 {
            self.mark_gap(Ghost(per_task as nat), Ghost(total as nat));
            told.push(
                MutsukiFrontendEvent::ObservabilityGap {
                    stream: "runtime_event".to_owned(),
                    lost: page.lost,
                    dropped: page.dropped,
                },
            );
        }
        let ghost start = self@;
        let ghost gap = supervision::gap_told("runtime_event"@, page.lost, page.dropped);
        assert(events::frontend_views(told@) =~= gap);
        assert(row.take(0) =~= Seq::empty());
        assert(supervision::events_seen(start, per_task as nat, total as nat, row.take(0)) == start);
        let ghost mut done: int = 0;
        for event in it: page.items
            invariant
                it.seq() == items,
                done == it.index(),
                row == contracts::event_views(items),
                self.keeps(per_task as nat, total as nat),
                self@ == supervision::events_seen(
                    start,
                    per_task as nat,
                    total as nat,
                    row.take(done),
                ),
                health@ == health::events_noted(health_before, row.take(done), now),
                events::frontend_views(told@) == gap + supervision::row_told(row.take(done)),
        {
            proof {
                assert(event@ == row[done]);
                assert(row.take(done + 1).drop_last() =~= row.take(done));
            }
            let ghost raw = event@;
            let event = redact::redact_runtime_event(event);
            health.record_runtime_event_error(&event, now);
            let task = events::task_event_id(&event);
            if let Some(task_id) = task {
                if self.active.contains_key(task_id.as_str()) {
                    self.retain_task_event(per_task, total, task_id, event.clone());
                }
            }
            let ghost told_before = told@;
            told.push(events::frontend_event_for_runtime_event(event));
            proof {
                assert(events::frontend_views(told@) =~= events::frontend_views(told_before).push(
                    told@.last()@,
                ));
                assert(supervision::row_told(row.take(done + 1)) =~= supervision::row_told(
                    row.take(done),
                ).push(told@.last()@));
                done = done + 1;
            }
        }
        assert(row.take(done) =~= row);
        told
    }

    /// Takes in the runtime's word on a row of tasks.
    fn finish_tasks(
        &mut self,
        states: Vec<HostTaskState>,
        Ghost(per_task): Ghost<nat>,
        Ghost(total): Ghost<nat>,
    )
        requires
            old(self).keeps(per_task, total),
        ensures
            final(self).keeps(per_task, total),
            final(self)@ == supervision::tasks_settled(old(self)@, state_views(states@)),
    {
        let ghost before = self@;
        let ghost rows = states@;
        let ghost row = state_views(states@);
        let ghost mut done: int = 0;
        assert(row.take(0) =~= Seq::empty());
        for task_state in it: states
            invariant
                it.seq() == rows,
                done == it.index(),
                row == state_views(rows),
                self.keeps(per_task, total),
                self@ == supervision::tasks_settled(before, row.take(done)),
        {
            proof {
                assert(state_view(task_state) == row[done]);
                assert(row.take(done + 1).drop_last() =~= row.take(done));
                supervision::lemma_task_settled_sound(self@, per_task, total, row[done]);
                done = done + 1;
            }
            let ghost here = self@;
            if task_state.outcome.is_some() {
                let task_id = task_state.handle.task_id;
                let buffer = self.take_task_events(
                    task_id.as_str(),
                    Ghost(per_task),
                    Ghost(total),
                );
                let ghost kept = buffer@;
                let mut kept_events: Vec<RuntimeEvent> = Vec::new();
                let ghost all = buffer.events@;
                let dropped: u64 = buffer.dropped;
                let truncated = buffer.truncated;
                let mut events = buffer.events;
                while events.len() > 0
                    invariant
                        kept_events@ + events@ == all,
                    decreases events@.len(),
                {
                    if let Some(event) = events.pop_front() {
                        kept_events.push(event);
                        assert(kept_events@ + events@ =~= all);
                    }
                }
                assert(kept_events@ =~= all);
                let result = FrontendTaskResult {
                    task_id: task_id.clone(),
                    status: task_state.status,
                    outcome: task_state.outcome,
                    events: kept_events,
                    events_dropped: dropped,
                    events_truncated: truncated || dropped > 0,
                };
                self.active.remove(task_id.as_str());
                let ghost w = supervision::events_taken(here, task_id@);
                assert(self@ =~= SupervisorView { active: w.active.remove(task_id@), ..w });
                self.retain_terminal(task_id, Ok(result), Ghost(per_task), Ghost(total));
            }
        }
        assert(row.take(done) =~= row);
    }

    /// Gives up on all tasks in flight.
    fn fail_all(&mut self, message: &str, Ghost(per_task): Ghost<nat>, Ghost(total): Ghost<nat>)
        requires
            old(self).keeps(per_task, total),
        ensures
            final(self).keeps(per_task, total),
            final(self)@ == supervision::all_failed(old(self)@, message@),
    {
        let ghost before = self@;
        self.pump_running = false;
        self.pump_subscribed = false;
        let mut active: OrderedMap<TaskHandle> = OrderedMap::new();
        std::mem::swap(&mut active, &mut self.active);
        let ghost start = SupervisorView {
            active: Map::empty(),
            pump_running: false,
            pump_subscribed: false,
            ..before
        };
        assert(self@ =~= start);
        let ghost keys = active.keys();
        let entries = active.into_entries();
        let ghost rows = entries@;
        let ghost mut done: int = 0;
        assert(keys.take(0) =~= Seq::empty());
        for entry in it: entries
            invariant
                it.seq() == rows,
                done == it.index(),
                keys == ordered_map::entry_keys(rows),
                self.keeps(per_task, total),
                self@ == supervision::tasks_failed(start, keys.take(done), message@),
                self@.active == Map::<Seq<char>, TaskHandle>::empty(),
        {
            proof {
                assert(entry.key@ == keys[done]);
                assert(keys.take(done + 1).drop_last() =~= keys.take(done));
                done = done + 1;
            }
            let _ = self.take_task_events(entry.key.as_str(), Ghost(per_task), Ghost(total));
            self.retain_terminal(
                entry.key,
                Err(message.to_owned()),
                Ghost(per_task),
                Ghost(total),
            );
        }
        assert(keys.take(done) =~= keys);
    }
}

/// What the runtime says of a task.
pub open spec fn state_view(state: HostTaskState) -> TaskStateView {
    TaskStateView {
        task_id: state.handle.task_id@,
        status: state.status,
        outcome: contracts::opt_outcome(state.outcome),
    }
}

/// What the runtime says of a row of tasks.
pub open spec fn state_views(states: Seq<HostTaskState>) -> Seq<TaskStateView> {
    states.map_values(|state: HostTaskState| state_view(state))
}

/// The handles of tasks in flight, in the order of their identifiers.
pub open spec fn handles_in_order(active: Map<Seq<char>, TaskHandle>) -> Seq<TaskHandle> {
    ordered_map::in_order(active.dom()).map_values(|task: Seq<char>| active[task])
}

/// Follows the tasks in flight, keeps a bounded row of events for each, and holds their results
/// until they are read.
#[derive(Debug)]
pub struct TaskSupervisor {
    state: SupervisorState,
    task_event_capacity_per_task: usize,
    task_event_capacity_total: usize,
}

impl View for TaskSupervisor {
    type V = SupervisorView;

    closed spec fn view(&self) -> SupervisorView {
        self.state@
    }
}

impl TaskSupervisor {
    #[verifier::type_invariant]
    spec fn within_bounds(self) -> bool {
        self.state.keeps(
            self.task_event_capacity_per_task as nat,
            self.task_event_capacity_total as nat,
        )
    }

    /// How many events one task may keep.
    pub closed spec fn per_task(self) -> nat {
        self.task_event_capacity_per_task as nat
    }

    /// How many events all tasks together may keep.
    pub closed spec fn total(self) -> nat {
        self.task_event_capacity_total as nat
    }

    /// The bounds are those of `other`.
    pub open spec fn bounds_of(self, other: TaskSupervisor) -> bool {
        self.per_task() == other.per_task() && self.total() == other.total()
    }

    /// A supervisor that keeps up to `task_event_capacity_per_task` events for a task and up to
    /// `task_event_capacity_total` for all of them.
    pub fn new(task_event_capacity_per_task: usize, task_event_capacity_total: usize) -> (tasks:
        Self)
        ensures
            tasks@ == supervision::fresh(),
            tasks.per_task() == task_event_capacity_per_task,
            tasks.total() == task_event_capacity_total,
    {
        TaskSupervisor {
            state: SupervisorState::new(),
            task_event_capacity_per_task,
            task_event_capacity_total,
        }
    }

    /// Whatever was done to it, a supervisor is sound: its buffers tell the story of its order
    /// and stay within their bounds, and no more results wait than are retained.
    pub fn retained(&self) -> (events: usize)
        ensures
            supervision::sound(self@, self.per_task(), self.total()),
            events == self@.order.len(),
    {
        proof {
            use_type_invariant(self);
        }
        assert(order_view(self.state.task_event_order@).len() == self.state.task_event_order@.len());
        self.state.retained_task_events
    }

    /// How many events are kept for a task.
    pub fn retained_for(&self, task_id: &str) -> (events: usize)
        ensures
            events == supervision::buffer_of(self@.buffers, task_id@).events.len(),
            events <= self.per_task(),
    {
        proof {
            use_type_invariant(self);
            assert(supervision::buffer_of(self@.buffers, task_id@).events.len() <= self.per_task());
        }
        match self.state.events_by_task.get(task_id) {
            Some(buffer) => {
                assert(buffer@.events.len() == buffer.events@.len());
                buffer.events.len()
            },
            None => 0,
        }
    }

    /// How many results wait to be read.
    pub fn waiting_results(&self) -> (results: usize)
        ensures
            results == self@.results.len(),
            results <= MAX_RETAINED_RESULTS,
    {
        proof {
            use_type_invariant(self);
            supervision::law_results_are_bounded(self@, self.per_task(), self.total());
            assert(self@.results.dom() =~= self.state.terminal_results@.dom());
        }
        self.state.terminal_results.len()
    }

    fn take_state(&mut self) -> (state: SupervisorState)
        ensures
            state == old(self).state,
            state.keeps(old(self).per_task(), old(self).total()),
            final(self).bounds_of(*old(self)),
    {
        proof {
            use_type_invariant(&*self);
        }
        let mut state = SupervisorState::new();
        std::mem::swap(&mut state, &mut self.state);
        state
    }

    /// Follows a task.
    pub fn track(&mut self, handle: TaskHandle)
        ensures
            final(self)@ == supervision::task_followed(old(self)@, handle),
            final(self).bounds_of(*old(self)),
    {
        let mut state = self.take_state();
        state.track(handle, Ghost(old(self).per_task()), Ghost(old(self).total()));
        self.state = state;
    }

    /// The handle of a task in flight.
    pub fn handle_for(&self, task_id: &str) -> (handle: Option<TaskHandle>)
        ensures
            match handle {
                Some(h) => self@.active.contains_key(task_id@) && h == self@.active[task_id@],
                None => !self@.active.contains_key(task_id@),
            },
    {
        match self.state.active.get(task_id) {
            Some(handle) => Some(handle.clone()),
            None => None,
        }
    }

    /// `answer` is what asking for the result of a task gives, and `after` is what is remembered
    /// then: a result that waits is handed out, and forgotten where it is a success and is
    /// consumed; a task that is not followed has no result; a task in flight has none yet.
    pub open spec fn answers(
        before: SupervisorView,
        after: SupervisorView,
        task: Seq<char>,
        consume: bool,
        answer: Option<HostResult<FrontendTaskResult>>,
    ) -> bool {
        if before.results.contains_key(task) {
            match before.results[task] {
                Ok(result) => {
                    &&& answer matches Some(Ok(given)) && given@ == result
                    &&& after == if consume {
                        supervision::consumed(before, task)
                    } else {
                        before
                    }
                },
                Err(message) => {
                    &&& answer matches Some(Err(HostError::Runtime(words))) && words@ == message
                    &&& after == before
                },
            }
        } else {
            &&& after == before
            &&& if before.active.contains_key(task) {
                answer is None
            } else {
                answer matches Some(Err(HostError::Runtime(words))) && words@
                    == "task result is not tracked: "@ + task
            }
        }
    }

    /// Asks for the result of a task. Nothing is answered while the task is in flight.
    pub fn poll_result(&mut self, task_id: &str, consume: bool) -> (answer: Option<
        HostResult<FrontendTaskResult>,
    >)
        ensures
            TaskSupervisor::answers(old(self)@, final(self)@, task_id@, consume, answer),
            answer is None <==> !old(self)@.results.contains_key(task_id@)
                && old(self)@.active.contains_key(task_id@),
            answer is Some && answer->0 is Ok <==> old(self)@.results.contains_key(task_id@)
                && old(self)@.results[task_id@] is Ok,
            final(self).bounds_of(*old(self)),
    {
        let mut state = self.take_state();
        let ghost before = state@;
        let ghost task = task_id@;
        let answer = match state.terminal_results.get(task_id) {
            Some(Ok(result)) => {
                let given = result.clone();
                if consume {
                    state.terminal_results.remove(task_id);
                    assert(state@.results =~= before.results.remove(task));
                    state.forget_ended(task_id);
                    assert(state@ =~= supervision::consumed(before, task));
                    proof {
                        supervision::law_consuming_is_sound(
                            before,
                            old(self).per_task(),
                            old(self).total(),
                            task,
                        );
                    }
                }
                Some(Ok(given))
            },
            Some(Err(message)) => Some(Err(HostError::Runtime(message.clone()))),
            None => {
                if state.active.contains_key(task_id) {
                    None
                } else {
                    Some(
                        Err(
                            HostError::Runtime(
                                text::join2("task result is not tracked: ", task_id),
                            ),
                        ),
                    )
                }
            },
        };
        self.state = state;
        answer
    }

    /// Claims the task pump. It is not to be started where it runs or the host shuts down.
    pub fn start_pump(&mut self) -> (claimed: bool)
        ensures
            claimed == (!old(self)@.pump_running && !old(self)@.shutting_down),
            final(self)@ == (SupervisorView {
                pump_running: old(self)@.pump_running || claimed,
                ..old(self)@
            }),
            final(self).bounds_of(*old(self)),
    {
        let mut state = self.take_state();
        let claimed = !(state.pump_running || state.shutting_down);
        if claimed {
            state.pump_running = true;
            assert(state@ =~= SupervisorView { pump_running: true, ..old(self)@ });
        }
        self.state = state;
        claimed
    }

    /// Notes that the pump listens for completions. It is refused where the pump was stopped in
    /// the meantime.
    pub fn set_pump_subscription(&mut self) -> (accepted: bool)
        ensures
            accepted == (old(self)@.pump_running && !old(self)@.shutting_down),
            final(self)@ == (SupervisorView {
                pump_subscribed: old(self)@.pump_subscribed || accepted,
                ..old(self)@
            }),
            final(self).bounds_of(*old(self)),
    {
        let mut state = self.take_state();
        let accepted = !(state.shutting_down || !state.pump_running);
        if accepted {
            state.pump_subscribed = true;
            assert(state@ =~= SupervisorView { pump_subscribed: true, ..old(self)@ });
        }
        self.state = state;
        accepted
    }

    /// Whether the thread of the pump may be kept. A host that shuts down hands it back.
    pub fn accepts_pump_thread(&self) -> (accepted: bool)
        ensures
            accepted == !self@.shutting_down,
    {
        !self.state.shutting_down
    }

    /// The tasks in flight. Where there is none, or the host shuts down, the pump comes to rest.
    pub fn active_snapshot(&mut self) -> (active: Option<Vec<TaskHandle>>)
        ensures
            final(self).bounds_of(*old(self)),
            match active {
                Some(handles) => {
                    &&& old(self)@.active.len() > 0
                    &&& !old(self)@.shutting_down
                    &&& handles@ == handles_in_order(old(self)@.active)
                    &&& final(self)@ == old(self)@
                },
                None => {
                    &&& old(self)@.active.len() == 0 || old(self)@.shutting_down
                    &&& final(self)@ == (SupervisorView {
                        pump_running: false,
                        pump_subscribed: false,
                        ..old(self)@
                    })
                },
            },
    {
        let mut state = self.take_state();
        let n: usize = state.active.len();
        if n == 0 || state.shutting_down {
            state.pump_running = false;
            state.pump_subscribed = false;
            self.state = state;
            return None;
        }
        let ghost keys = state.active.keys();
        let mut handles: Vec<TaskHandle> = Vec::new();
        let mut i: usize = 0;
        while i < n
            invariant
                i <= n,
                n == keys.len(),
                keys == state.active.keys(),
                handles@ == handles_in_order(state.active@).take(i as int),
            decreases n - i,
        {
            handles.push(state.active.value_at(i).clone());
            i = i + 1;
            assert(handles@ =~= handles_in_order(state.active@).take(i as int));
        }
        assert(handles@ =~= handles_in_order(state.active@));
        self.state = state;
        Some(handles)
    }

    /// How far the event stream and the trace stream have been read.
    pub fn observe_cursor(&self) -> (cursor: (u64, u64))
        ensures
            cursor == (self@.event_cursor, self@.trace_cursor),
    {
        (self.state.last_runtime_event_sequence, self.state.last_trace_span_sequence)
    }

    /// Keeps an event for a task. Where the task, or all tasks together, hold more events than they
    /// may, the oldest makes room and is counted as dropped.
    pub fn retain_task_event(&mut self, task_id: String, event: RuntimeEvent)
        ensures
            final(self)@ == supervision::event_kept(
                old(self)@,
                old(self).per_task(),
                old(self).total(),
                task_id@,
                event@,
            ),
            final(self).bounds_of(*old(self)),
            supervision::sound(final(self)@, final(self).per_task(), final(self).total()),
    {
        let mut state = self.take_state();
        state.retain_task_event(
            self.task_event_capacity_per_task,
            self.task_event_capacity_total,
            task_id,
            event,
        );
        self.state = state;
        proof {
            use_type_invariant(&*self);
        }
    }

    /// Takes in a page of the event stream, and tells what the frontend is to be told of it.
    pub fn ingest_runtime_page(
        &mut self,
        page: ObservabilityPage<RuntimeEvent>,
        health: &mut HostHealthState,
        now: i64,
    ) -> (told: Vec<MutsukiFrontendEvent>)
        ensures
            final(self)@ == supervision::page_seen(
                old(self)@,
                old(self).per_task(),
                old(self).total(),
                contracts::event_views(page.items@),
                page.next_sequence,
                page.lost,
            ),
            final(self).bounds_of(*old(self)),
            final(health)@ == health::events_noted(
                old(health)@,
                contracts::event_views(page.items@),
                now,
            ),
            events::frontend_views(told@) == supervision::page_told(
                contracts::event_views(page.items@),
                page.lost,
                page.dropped,
            ),
    {
        let mut state = self.take_state();
        let told = state.ingest_runtime_page(
            self.task_event_capacity_per_task,
            self.task_event_capacity_total,
            page,
            health,
            now,
        );
        self.state = state;
        told
    }

    /// Takes in a page of the trace stream, and tells what the frontend is to be told of it.
    pub fn ingest_trace_page(&mut self, page: ObservabilityPage<TraceSpan>) -> (told: Vec<
        MutsukiFrontendEvent,
    >)
        ensures
            final(self)@ == (SupervisorView { trace_cursor: page.next_sequence, ..old(self)@ }),
            final(self).bounds_of(*old(self)),
            events::frontend_views(told@) == supervision::gap_told(
                "trace"@,
                page.lost,
                page.dropped,
            ) + page.items@.map_values(|span: TraceSpan| FrontendEventView::Trace { span }),
    {
        let mut state = self.take_state();
        state.last_trace_span_sequence = page.next_sequence;
        self.state = state;
        let mut told: Vec<MutsukiFrontendEvent> = Vec::new();
        if page.lost > 0 {
            told.push(
                MutsukiFrontendEvent::ObservabilityGap {
                    stream: "trace".to_owned(),
                    lost: page.lost,
                    dropped: page.dropped,
                },
            );
        }
        let ghost gap = supervision::gap_told("trace"@, page.lost, page.dropped);
        let ghost items = page.items@;
        let ghost all = items.map_values(|span: TraceSpan| FrontendEventView::Trace { span });
        assert(events::frontend_views(told@) =~= gap + all.take(0));
        for span in it: page.items
            invariant
                it.seq() == items,
                all == items.map_values(|span: TraceSpan| FrontendEventView::Trace { span }),
                events::frontend_views(told@) == gap + all.take(it.index()),
        {
            let ghost told_before = told@;
            let ghost at = it.index();
            told.push(MutsukiFrontendEvent::Trace { span });
            proof {
                assert(events::frontend_views(told@) =~= events::frontend_views(told_before).push(
                    told@.last()@,
                ));
                assert(all.take(at + 1) =~= all.take(at).push(all[at]));
            }
        }
        assert(all.take(all.len() as int) =~= all);
        told
    }

    /// Takes in the runtime's word on a row of tasks, and says whether any is still in flight.
    /// Where none is, the pump comes to rest.
    pub fn finish_tasks(&mut self, states: Vec<HostTaskState>) -> (has_active: bool)
        ensures
            ({
                let settled = supervision::tasks_settled(old(self)@, state_views(states@));
                &&& has_active == (settled.active.len() > 0)
                &&& final(self)@ == if has_active {
                    settled
                } else {
                    SupervisorView { pump_running: false, pump_subscribed: false, ..settled }
                }
            }),
            final(self).bounds_of(*old(self)),
    {
        let mut state = self.take_state();
        state.finish_tasks(states, Ghost(old(self).per_task()), Ghost(old(self).total()));
        let has_active = state.active.len() > 0;
        if !has_active {
            state.pump_running = false;
            state.pump_subscribed = false;
        }
        self.state = state;
        has_active
    }

    /// Gives up on all tasks in flight.
    pub fn fail_active(&mut self, message: &str)
        ensures
            final(self)@ == supervision::all_failed(old(self)@, message@),
            final(self).bounds_of(*old(self)),
    {
        let mut state = self.take_state();
        state.fail_all(message, Ghost(old(self).per_task()), Ghost(old(self).total()));
        self.state = state;
    }

    /// Gives up on all tasks in flight, for good: the pump is not started again.
    pub fn shutdown(&mut self, message: &str)
        ensures
            final(self)@ == supervision::all_failed(
                SupervisorView { shutting_down: true, ..old(self)@ },
                message@,
            ),
            final(self).bounds_of(*old(self)),
    {
        let mut state = self.take_state();
        state.shutting_down = true;
        assert(state@ =~= SupervisorView { shutting_down: true, ..old(self)@ });
        state.fail_all(message, Ghost(old(self).per_task()), Ghost(old(self).total()));
        self.state = state;
    }
}

impl Default for TaskSupervisor {
    fn default() -> (tasks: Self)
        ensures
            tasks@ == supervision::fresh(),
            tasks.per_task() == 256,
            tasks.total() == 4096,
    {
        TaskSupervisor::new(256, 4096)
    }
}

/// Two answers say the same.
pub open spec fn same_answer(
    a: Option<HostResult<FrontendTaskResult>>,
    b: Option<HostResult<FrontendTaskResult>>,
) -> bool {
    match (a, b) {
        (Some(Ok(x)), Some(Ok(y))) => x@ == y@,
        (Some(Err(HostError::Runtime(x))), Some(Err(HostError::Runtime(y)))) => x@ == y@,
        (None, None) => true,
        _ => false,
    }
}

/// Looking at a result without consuming it changes nothing, and a second look shows the same.
pub proof fn law_peeking_is_repeatable(
    before: SupervisorView,
    between: SupervisorView,
    after: SupervisorView,
    task: Seq<char>,
    first: Option<HostResult<FrontendTaskResult>>,
    second: Option<HostResult<FrontendTaskResult>>,
)
    requires
        TaskSupervisor::answers(before, between, task, false, first),
        TaskSupervisor::answers(between, after, task, false, second),
    ensures
        between == before,
        after == before,
        same_answer(first, second),
{
}

/// A success is handed out once: whoever asks for it again, in either way, is told that the task
/// is not followed.
pub proof fn law_success_is_read_once(
    before: SupervisorView,
    per_task: nat,
    total: nat,
    between: SupervisorView,
    after: SupervisorView,
    task: Seq<char>,
    consume: bool,
    first: Option<HostResult<FrontendTaskResult>>,
    second: Option<HostResult<FrontendTaskResult>>,
)
    requires
        supervision::sound(before, per_task, total),
        before.results.contains_key(task),
        before.results[task] is Ok,
        TaskSupervisor::answers(before, between, task, true, first),
        TaskSupervisor::answers(between, after, task, consume, second),
    ensures
        first matches Some(Ok(_)),
        second matches Some(Err(HostError::Runtime(words))) && words@
            == "task result is not tracked: "@ + task,
        after == between,
{
}

/// A failure can be read as often as one likes, in either way.
pub proof fn law_failure_stays_readable(
    before: SupervisorView,
    between: SupervisorView,
    after: SupervisorView,
    task: Seq<char>,
    first_consumes: bool,
    second_consumes: bool,
    first: Option<HostResult<FrontendTaskResult>>,
    second: Option<HostResult<FrontendTaskResult>>,
)
    requires
        before.results.contains_key(task),
        before.results[task] is Err,
        TaskSupervisor::answers(before, between, task, first_consumes, first),
        TaskSupervisor::answers(between, after, task, second_consumes, second),
    ensures
        first matches Some(Err(_)),
        after == before,
        same_answer(first, second),
{
}

/// Once the host gave up on its tasks in flight, nobody waits any more: whoever asks for the result
/// of a task, in either way, is answered.
pub proof fn law_giving_up_leaves_nobody_waiting(
    before: SupervisorView,
    message: Seq<char>,
    after: SupervisorView,
    task: Seq<char>,
    consume: bool,
    answer: Option<HostResult<FrontendTaskResult>>,
)
    requires
        TaskSupervisor::answers(
            supervision::all_failed(before, message),
            after,
            task,
            consume,
            answer,
        ),
    ensures
        answer is Some,
{
    supervision::lemma_failing_keeps_active(
        SupervisorView {
            active: Map::empty(),
            pump_running: false,
            pump_subscribed: false,
            ..before
        },
        ordered_map::in_order(before.active.dom()),
        message,
    );
}

/// What the runtime says of a task is seen with the task's own identifier, status and outcome.
pub proof fn law_word_on_a_task_is_seen_whole(states: Seq<HostTaskState>, i: int)
    requires
        0 <= i < states.len(),
    ensures
        state_views(states).len() == states.len(),
        state_views(states)[i].task_id == states[i].handle.task_id@,
        state_views(states)[i].status == states[i].status,
        states[i].outcome is None <==> state_views(states)[i].outcome is None,
        states[i].outcome matches Some(outcome) ==> state_views(states)[i].outcome == Some(outcome@),
{
}

/// A result that waits is handed out as it is, and is gone only where it is a success that is
/// consumed. A task in flight without a result is not answered yet, and a task that is neither is
/// said not to be followed.
pub proof fn law_result_is_handed_out_as_it_is(
    before: SupervisorView,
    after: SupervisorView,
    task: Seq<char>,
    consume: bool,
    answer: Option<HostResult<FrontendTaskResult>>,
    other: Seq<char>,
)
    requires
        TaskSupervisor::answers(before, after, task, consume, answer),
        other != task,
    ensures
        answer is None <==> !before.results.contains_key(task) && before.active.contains_key(task),
        before.results.contains_key(task) && before.results[task] is Ok ==> (answer matches Some(
            Ok(given),
        ) && given@ == before.results[task]->Ok_0),
        before.results.contains_key(task) && before.results[task] is Err ==> (answer matches Some(
            Err(HostError::Runtime(words)),
        ) && words@ == before.results[task]->Err_0),
        !before.results.contains_key(task) && !before.active.contains_key(task) ==> (
        answer matches Some(Err(HostError::Runtime(words))) && words@
            == "task result is not tracked: "@ + task),
        after.results.contains_key(task) <==> before.results.contains_key(task) && !(consume
            && before.results[task] is Ok),
        after.results.contains_key(other) == before.results.contains_key(other),
        before.results.contains_key(other) ==> after.results[other] == before.results[other],
        after.active == before.active,
        after.buffers == before.buffers,
{
}

/// The handles of the tasks in flight are listed all, once each, in the order of the identifiers.
pub proof fn law_every_task_in_flight_is_listed(
    active: Map<Seq<char>, TaskHandle>,
    handle: TaskHandle,
)
    requires
        active.dom().finite(),
    ensures
        handles_in_order(active).len() == active.len(),
        handles_in_order(active).contains(handle) <==> exists|task: Seq<char>| #[trigger]
            active.contains_key(task) && active[task] == handle,
{
    let keys = ordered_map::in_order(active.dom());
    ordered_map::lemma_in_order_of(active.dom());
    let row = handles_in_order(active);
    if row.contains(handle) {
        let i = choose|i: int| 0 <= i < row.len() && row[i] == handle;
        assert(keys.to_set().contains(keys[i]));
        assert(active.contains_key(keys[i]));
    }
    if exists|task: Seq<char>| #[trigger] active.contains_key(task) && active[task] == handle {
        let task = choose|task: Seq<char>| #[trigger]
            active.contains_key(task) && active[task] == handle;
        assert(keys.to_set().contains(task));
        let i = choose|i: int| 0 <= i < keys.len() && keys[i] == task;
        assert(row[i] == handle);
    }
}

/// Two supervisors have one set of bounds exactly where a task, and all tasks together, may keep as
/// many events in both.
pub proof fn law_bounds_are_those_of_events(a: TaskSupervisor, b: TaskSupervisor)
    ensures
        a.bounds_of(b) <==> a.per_task() == b.per_task() && a.total() == b.total(),
{
}

} // verus!
