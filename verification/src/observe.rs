//! What the host observes and tells the frontend: log lines, the runtime's event and trace streams
//! read page by page, and the batches they are told in.
use crate::bridge::{FrontendLogRecord, FrontendLogRecordView};
use crate::bridge;
use crate::contracts::{ObservabilityPage, RuntimeEvent, TraceSpan};
use crate::contracts;
use crate::events::{EventHub, FrontendEventView, HubView, MutsukiFrontendEvent};
use crate::events;
use crate::health::HostHealthState;
use crate::health;
use crate::json::JsonValue;
use crate::ordered_map::OrderedMap;
use crate::redact;
use crate::supervision::SupervisorView;
use crate::supervision;
use crate::supervisor::TaskSupervisor;
use vstd::prelude::*;
use vstd::string::*;

verus! {

broadcast use vstd::string::group_string_axioms;

/// How many entries of a stream are asked for at once.
pub const PAGE_LIMIT: usize = 256;

/// Tells the frontend a line of the log, with what it must not show replaced.
pub fn emit_log_record(
    events: &mut EventHub,
    level: &str,
    target: &str,
    message: String,
    fields: OrderedMap<JsonValue>,
    now: i64,
)
    ensures
        events::tried(
            old(events).story(),
            final(events).story(),
            FrontendEventView::Log {
                record: log_line(level@, target@, message@, redact::json_fields(fields@), now),
            },
        ),
{
    let record = bridge::redact_log_record(
        FrontendLogRecord {
            level: level.to_owned(),
            target: target.to_owned(),
            message,
            timestamp_ms: now,
            trace_id: None,
            correlation_id: None,
            fields,
        },
    );
    events.tell(MutsukiFrontendEvent::Log { record });
}

/// A line of the log as it is told.
pub open spec fn log_line(
    level: Seq<char>,
    target: Seq<char>,
    message: Seq<char>,
    fields: Map<Seq<char>, crate::json::JsonView>,
    now: i64,
) -> FrontendLogRecordView {
    bridge::redacted_record(
        FrontendLogRecordView {
            level,
            target,
            message,
            timestamp_ms: now,
            trace_id: None,
            correlation_id: None,
            fields,
        },
    )
}

/// The line of the log that tells of an error.
pub open spec fn error_line(
    target: Seq<char>,
    message: Seq<char>,
    error: Seq<char>,
    now: i64,
) -> FrontendLogRecordView {
    log_line(
        "error"@,
        target,
        message,
        map!["error"@ => crate::json::JsonView::String(error)],
        now,
    )
}

/// Tells the frontend of an error.
pub fn emit_error_line(events: &mut EventHub, target: &str, message: &str, error: &str, now: i64)
    ensures
        events::tried(
            old(events).story(),
            final(events).story(),
            FrontendEventView::Log { record: error_line(target@, message@, error@, now) },
        ),
{
    let mut fields: OrderedMap<JsonValue> = OrderedMap::new();
    fields.insert("error".to_owned(), JsonValue::String(error.to_owned()));
    assert(redact::json_fields(fields@)
        =~= map!["error"@ => crate::json::JsonView::String(error@)]);
    emit_log_record(events, "error", target, message.to_owned(), fields, now);
}

/// A row of events in batches of up to `size`.
pub open spec fn batches(row: Seq<FrontendEventView>, size: nat) -> Seq<Seq<FrontendEventView>>
    decreases row.len(),
{
    if row.len() == 0 || size == 0 {
        Seq::empty()
    } else if row.len() <= size {
        seq![row]
    } else {
        seq![row.take(size as int)] + batches(row.skip(size as int), size)
    }
}

/// The hub went from `before` to `after` when it was to tell a row of batches, one after the
/// other.
pub open spec fn tried_all(
    before: HubView,
    rows: Seq<Seq<FrontendEventView>>,
    after: HubView,
) -> bool
    decreases rows.len(),
{
    if rows.len() == 0 {
        after == before
    } else {
        exists|between: HubView|
            tried_all(before, rows.drop_last(), between) && #[trigger] events::tried(
                between,
                after,
                events::batch_view(rows.last()),
            )
    }
}

/// The size of a batch: at least one.
pub open spec fn batch_size(wanted: usize) -> nat {
    if wanted < 1 {
        1
    } else {
        wanted as nat
    }
}

/// Every event of a row is in its batches, in its order: put together again, they are the row.
/// No batch is empty, and none is larger than asked for.
pub proof fn law_batches_keep_every_event(row: Seq<FrontendEventView>, size: nat)
    requires
        size > 0,
    ensures
        batches(row, size).flatten() == row,
        forall|i: int|
            0 <= i < batches(row, size).len() ==> 0 < (#[trigger] batches(row, size)[i]).len()
                <= size,
    decreases row.len(),
{
    let all = batches(row, size);
    if row.len() == 0 {
        assert(all.flatten() =~= row);
    } else if row.len() <= size {
        all.lemma_flatten_one_element();
    } else {
        let rest = batches(row.skip(size as int), size);
        law_batches_keep_every_event(row.skip(size as int), size);
        assert(all.first() =~= row.take(size as int));
        assert(all.drop_first() =~= rest);
        assert(all.flatten() =~= row.take(size as int) + rest.flatten());
        assert(row.take(size as int) + row.skip(size as int) =~= row);
        assert forall|i: int| 0 <= i < all.len() implies 0 < (#[trigger] all[i]).len() <= size by {
            if i > 0 {
                assert(all[i] == rest[i - 1]);
            }
        }
    }
}

/// Tells a row of events in batches of up to `batch_size`, and at least one.
pub fn emit_frontend_events(
    events: &mut EventHub,
    frontend_events: Vec<MutsukiFrontendEvent>,
    batch_size: usize,
)
    ensures
        tried_all(
            old(events).story(),
            batches(events::frontend_views(frontend_events@), self::batch_size(batch_size)),
            final(events).story(),
        ),
{
    let size: usize = if batch_size < 1 {
        1
    } else {
        batch_size
    };
    let ghost all = events::frontend_views(frontend_events@);
    let ghost mut done: Seq<Seq<FrontendEventView>> = Seq::empty();
    let mut pending = frontend_events;
    assert(done + batches(all, size as nat) =~= batches(all, size as nat));
    while pending.len() > 0
        invariant
            size >= 1,
            size as nat == self::batch_size(batch_size),
            all == events::frontend_views(frontend_events@),
            done + batches(events::frontend_views(pending@), size as nat) == batches(
                all,
                size as nat,
            ),
            tried_all(old(events).story(), done, events.story()),
        decreases pending.len(),
    {
        let ghost row = pending@;
        let ghost views = events::frontend_views(row);
        let tail = if pending.len() > size {
            pending.split_off(size)
        } else {
            Vec::new()
        };
        let ghost head = pending@;
        let ghost between = events.story();
        proof {
            let first = events::frontend_views(head);
            let rest = batches(events::frontend_views(tail@), size as nat);
            if row.len() > size {
                assert(first =~= views.take(size as int));
                assert(events::frontend_views(tail@) =~= views.skip(size as int));
            } else {
                assert(first =~= views);
                assert(rest =~= Seq::empty());
            }
            assert(batches(views, size as nat) =~= seq![first] + rest);
            assert(done.push(first) + rest =~= done + batches(views, size as nat));
        }
        events.tell_batch(pending);
        proof {
            let first = events::frontend_views(head);
            assert(done.push(first).drop_last() =~= done);
            let grown = done.push(first);
            assert(tried_all(old(events).story(), grown.drop_last(), between));
            assert(events::tried(between, events.story(), events::batch_view(grown.last())));
            done = grown;
        }
        pending = tail;
    }
    assert(batches(events::frontend_views(pending@), size as nat) =~= Seq::empty());
    assert(done =~= batches(all, size as nat));
}

/// What the reading of the runtime's streams does next.
#[derive(Debug, PartialEq, Eq)]
pub enum DrainAction {
    /// Ask for up to `limit` events behind a number.
    ReadEvents { after: u64, limit: usize },
    /// Ask for up to `limit` spans behind a number.
    ReadTraces { after: u64, limit: usize },
    /// Stop, with what came of it.
    Finish(Result<(), String>),
}

/// One reading of the runtime's streams: all events first, and the spans after them.
#[derive(Debug, PartialEq, Eq)]
pub struct Drain {
    event_cursor: u64,
    trace_cursor: u64,
}

/// Where a reading stands in the two streams.
#[verifier::ext_equal]
pub struct DrainView {
    pub event_cursor: u64,
    pub trace_cursor: u64,
}

impl View for Drain {
    type V = DrainView;

    closed spec fn view(&self) -> DrainView {
        DrainView { event_cursor: self.event_cursor, trace_cursor: self.trace_cursor }
    }
}

/// `action` is what follows a page of the event stream.
pub open spec fn after_events(
    before: DrainView,
    after: DrainView,
    truncated: bool,
    next_sequence: u64,
    action: DrainAction,
) -> bool {
    if !truncated {
        &&& after == before
        &&& action == (DrainAction::ReadTraces { after: before.trace_cursor, limit: PAGE_LIMIT })
    } else if next_sequence <= before.event_cursor {
        &&& after == before
        &&& action matches DrainAction::Finish(Err(words)) && words@
            == "runtime event cursor did not advance"@
    } else {
        &&& after == (DrainView { event_cursor: next_sequence, ..before })
        &&& action == (DrainAction::ReadEvents { after: next_sequence, limit: PAGE_LIMIT })
    }
}

/// `action` is what follows a page of the trace stream.
pub open spec fn after_traces(
    before: DrainView,
    after: DrainView,
    truncated: bool,
    next_sequence: u64,
    action: DrainAction,
) -> bool {
    if !truncated {
        &&& after == before
        &&& action == DrainAction::Finish(Ok(()))
    } else if next_sequence <= before.trace_cursor {
        &&& after == before
        &&& action matches DrainAction::Finish(Err(words)) && words@
            == "trace cursor did not advance"@
    } else {
        &&& after == (DrainView { trace_cursor: next_sequence, ..before })
        &&& action == (DrainAction::ReadTraces { after: next_sequence, limit: PAGE_LIMIT })
    }
}

/// Reading the streams comes to an end: while it goes on, each page is asked for behind the one
/// before it.
pub proof fn law_reading_gets_on(
    before: DrainView,
    after: DrainView,
    truncated: bool,
    next_sequence: u64,
    action: DrainAction,
)
    ensures
        after_events(before, after, truncated, next_sequence, action) && action is ReadEvents ==> (
        action->ReadEvents_after > before.event_cursor && after.event_cursor > before.event_cursor),
        after_traces(before, after, truncated, next_sequence, action) ==> !(action is ReadEvents)
            && (action is ReadTraces ==> action->ReadTraces_after > before.trace_cursor
            && after.trace_cursor > before.trace_cursor),
{
}

impl Drain {
    /// Starts where the supervisor left off.
    pub fn start(tasks: &TaskSupervisor) -> (begun: (Drain, DrainAction))
        ensures
            begun.0@ == (DrainView {
                event_cursor: tasks@.event_cursor,
                trace_cursor: tasks@.trace_cursor,
            }),
            begun.1 == (DrainAction::ReadEvents {
                after: tasks@.event_cursor,
                limit: PAGE_LIMIT,
            }),
    {
        let (event_cursor, trace_cursor) = tasks.observe_cursor();
        (
            Drain { event_cursor, trace_cursor },
            DrainAction::ReadEvents { after: event_cursor, limit: PAGE_LIMIT },
        )
    }

    /// Takes in a page of the event stream: the supervisor keeps what belongs to its tasks, the
    /// health of the host is brought up to date, and the frontend is told in batches. A stream that
    /// could not be read ends the reading.
    pub fn take_events(
        &mut self,
        events: &mut EventHub,
        tasks: &mut TaskSupervisor,
        health: &mut HostHealthState,
        read: Result<ObservabilityPage<RuntimeEvent>, String>,
        batch_size: usize,
        now: i64,
    ) -> (action: DrainAction)
        ensures
            final(tasks).bounds_of(*old(tasks)),
            match read {
                Ok(page) => {
                    &&& after_events(
                        old(self)@,
                        final(self)@,
                        page.truncated,
                        page.next_sequence,
                        action,
                    )
                    &&& final(tasks)@ == supervision::page_seen(
                        old(tasks)@,
                        old(tasks).per_task(),
                        old(tasks).total(),
                        contracts::event_views(page.items@),
                        page.next_sequence,
                        page.lost,
                    )
                    &&& final(health)@ == health::events_noted(
                        old(health)@,
                        contracts::event_views(page.items@),
                        now,
                    )
                    &&& tried_all(
                        old(events).story(),
                        batches(
                            supervision::page_told(
                                contracts::event_views(page.items@),
                                page.lost,
                                page.dropped,
                            ),
                            self::batch_size(batch_size),
                        ),
                        final(events).story(),
                    )
                },
                Err(error) => {
                    &&& action == DrainAction::Finish(Err(error))
                    &&& final(self)@ == old(self)@
                    &&& final(tasks)@ == old(tasks)@
                    &&& final(health)@ == old(health)@
                    &&& final(events).story() == old(events).story()
                },
            },
    {
        let page = match read {
            Ok(page) => page,
            Err(error) => {
                return DrainAction::Finish(Err(error));
            },
        };
        let next_sequence: u64 = page.next_sequence;
        let truncated = page.truncated;
        let told = tasks.ingest_runtime_page(page, health, now);
        emit_frontend_events(events, told, batch_size);
        if !truncated {
            return DrainAction::ReadTraces { after: self.trace_cursor, limit: PAGE_LIMIT };
        }
        if next_sequence <= self.event_cursor {
            return DrainAction::Finish(Err("runtime event cursor did not advance".to_owned()));
        }
        self.event_cursor = next_sequence;
        DrainAction::ReadEvents { after: next_sequence, limit: PAGE_LIMIT }
    }

    /// Takes in a page of the trace stream, and tells the frontend in batches. A stream that could
    /// not be read ends the reading.
    pub fn take_traces(
        &mut self,
        events: &mut EventHub,
        tasks: &mut TaskSupervisor,
        read: Result<ObservabilityPage<TraceSpan>, String>,
        batch_size: usize,
    ) -> (action: DrainAction)
        ensures
            final(tasks).bounds_of(*old(tasks)),
            match read {
                Ok(page) => {
                    &&& after_traces(
                        old(self)@,
                        final(self)@,
                        page.truncated,
                        page.next_sequence,
                        action,
                    )
                    &&& final(tasks)@ == (SupervisorView {
                        trace_cursor: page.next_sequence,
                        ..old(tasks)@
                    })
                    &&& tried_all(
                        old(events).story(),
                        batches(
                            supervision::gap_told("trace"@, page.lost, page.dropped)
                                + page.items@.map_values(
                                |span: TraceSpan| FrontendEventView::Trace { span },
                            ),
                            self::batch_size(batch_size),
                        ),
                        final(events).story(),
                    )
                },
                Err(error) => {
                    &&& action == DrainAction::Finish(Err(error))
                    &&& final(self)@ == old(self)@
                    &&& final(tasks)@ == old(tasks)@
                    &&& final(events).story() == old(events).story()
                },
            },
    {
        let page = match read {
            Ok(page) => page,
            Err(error) => {
                return DrainAction::Finish(Err(error));
            },
        };
        let next_sequence: u64 = page.next_sequence;
        let truncated = page.truncated;
        let told = tasks.ingest_trace_page(page);
        emit_frontend_events(events, told, batch_size);
        if !truncated {
            return DrainAction::Finish(Ok(()));
        }
        if next_sequence <= self.trace_cursor {
            return DrainAction::Finish(Err("trace cursor did not advance".to_owned()));
        }
        self.trace_cursor = next_sequence;
        DrainAction::ReadTraces { after: next_sequence, limit: PAGE_LIMIT }
    }
}

/// Telling a row of batches hands each of them to the channel, one after the other: what was handed
/// over before stays, and behind it stand the batches and nothing else.
pub proof fn law_batches_are_handed_over(
    before: HubView,
    rows: Seq<Seq<FrontendEventView>>,
    after: HubView,
)
    requires
        tried_all(before, rows, after),
    ensures
        after.handed.len() == before.handed.len() + rows.len(),
        forall|i: int|
            0 <= i < before.handed.len() ==> after.handed[i] == #[trigger] before.handed[i],
        forall|i: int|
            0 <= i < rows.len() ==> after.handed[before.handed.len() + i].envelope.payload
                == events::batch_view(#[trigger] rows[i]),
    decreases rows.len(),
{
    if rows.len() > 0 {
        let front = rows.drop_last();
        let between = choose|between: HubView|
            tried_all(before, front, between) && #[trigger] events::tried(
                between,
                after,
                events::batch_view(rows.last()),
            );
        law_batches_are_handed_over(before, front, between);
        events::law_told_event_is_handed_over(between, after, events::batch_view(rows.last()));
        assert forall|i: int| 0 <= i < before.handed.len() implies after.handed[i]
            == #[trigger] before.handed[i] by {
            assert(between.handed[i] == before.handed[i]);
        }
        assert forall|i: int| 0 <= i < rows.len() implies after.handed[before.handed.len()
            + i].envelope.payload == events::batch_view(#[trigger] rows[i]) by {
            if i < front.len() {
                assert(front[i] == rows[i]);
                assert(after.handed[before.handed.len() + i] == between.handed[before.handed.len()
                    + i]);
            }
        }
    }
}

/// The events of what was handed to the channel, in their order.
pub open spec fn events_handed(handed: Seq<events::HandedView>) -> Seq<FrontendEventView>
    decreases handed.len(),
{
    if handed.len() == 0 {
        Seq::empty()
    } else {
        events_handed(handed.drop_last()) + events::events_of(handed.last().envelope.payload)
    }
}

proof fn lemma_events_handed(
    before: HubView,
    rows: Seq<Seq<FrontendEventView>>,
    after: HubView,
    n: int,
)
    requires
        tried_all(before, rows, after),
        0 <= n <= rows.len(),
        forall|i: int, j: int|
            0 <= i < rows.len() && 0 <= j < rows[i].len() ==> (#[trigger] rows[i][j]) !is Batch,
    ensures
        events_handed(after.handed.subrange(before.handed.len() as int, before.handed.len() + n))
            == rows.take(n).flatten(),
    decreases n,
{
    law_batches_are_handed_over(before, rows, after);
    let start = before.handed.len() as int;
    let new = after.handed.subrange(start, start + n);
    if n > 0 {
        lemma_events_handed(before, rows, after, n - 1);
        let last = rows[n - 1];
        assert(new.drop_last() =~= after.handed.subrange(start, start + n - 1));
        assert(new.last().envelope.payload == events::batch_view(last));
        events::law_batch_holds_its_events(last);
        if last.len() == 1 {
            assert(rows[n - 1][0] !is Batch);
        }
        let taken = rows.take(n);
        assert(taken.drop_last() =~= rows.take(n - 1));
        taken.lemma_flatten_and_flatten_alt_are_equivalent();
        rows.take(n - 1).lemma_flatten_and_flatten_alt_are_equivalent();
    } else {
        assert(new =~= Seq::empty());
        assert(rows.take(0) =~= Seq::empty());
    }
}

/// A row of events reaches the channel whole: the events of what is handed over, put together, are
/// the row, in its order, and nothing that is handed over holds more than `size` of them.
pub proof fn law_row_reaches_the_channel(
    before: HubView,
    after: HubView,
    row: Seq<FrontendEventView>,
    size: nat,
)
    requires
        size > 0,
        tried_all(before, batches(row, size), after),
        forall|i: int| 0 <= i < row.len() ==> (#[trigger] row[i]) !is Batch,
    ensures
        after.handed.len() >= before.handed.len(),
        after.handed.take(before.handed.len() as int) == before.handed,
        events_handed(after.handed.skip(before.handed.len() as int)) == row,
        forall|i: int|
            before.handed.len() <= i < after.handed.len() ==> 0 < events::events_of(
                (#[trigger] after.handed[i]).envelope.payload,
            ).len() <= size,
{
    let rows = batches(row, size);
    let start = before.handed.len() as int;
    law_batches_keep_every_event(row, size);
    law_batches_are_handed_over(before, rows, after);
    assert(after.handed.take(start) =~= before.handed);
    lemma_batches_hold_plain_events(row, size);
    lemma_events_handed(before, rows, after, rows.len() as int);
    assert(rows.take(rows.len() as int) =~= rows);
    assert(after.handed.skip(start) =~= after.handed.subrange(start, start + rows.len()));
    assert forall|i: int| start <= i < after.handed.len() implies 0 < events::events_of(
        (#[trigger] after.handed[i]).envelope.payload,
    ).len() <= size by {
        let k = i - start;
        assert(after.handed[start + k].envelope.payload == events::batch_view(rows[k]));
        events::law_batch_holds_its_events(rows[k]);
        assert(0 < rows[k].len() <= size);
        if rows[k].len() == 1 {
            assert(rows[k][0] !is Batch);
        }
    }
}

proof fn lemma_batches_hold_plain_events(row: Seq<FrontendEventView>, size: nat)
    requires
        size > 0,
        forall|i: int| 0 <= i < row.len() ==> (#[trigger] row[i]) !is Batch,
    ensures
        forall|i: int, j: int|
            0 <= i < batches(row, size).len() && 0 <= j < batches(row, size)[i].len() ==> (
            #[trigger] batches(row, size)[i][j]) !is Batch,
    decreases row.len(),
{
    if row.len() > size {
        let rest = row.skip(size as int);
        lemma_batches_hold_plain_events(rest, size);
        let all = batches(row, size);
        assert forall|i: int, j: int| 0 <= i < all.len() && 0 <= j < all[i].len() implies (
        #[trigger] all[i][j]) !is Batch by {
            if i > 0 {
                assert(all[i] == batches(rest, size)[i - 1]);
            } else {
                assert(all[0][j] == row[j]);
            }
        }
    }
}

/// A batch holds as many events as are wanted, and one where none are.
pub proof fn law_batches_hold_what_is_wanted(wanted: usize)
    ensures
        wanted > 0 ==> batch_size(wanted) == wanted,
        wanted == 0 ==> batch_size(wanted) == 1,
{
}

/// What follows a page: where the stream goes on, it is read on from where the page ended; where
/// the events are at their end, the spans are read, and where the spans are, the reading is done.
/// A stream that goes on without getting on is given up. Nothing else moves.
pub proof fn law_streams_are_read_to_their_end(
    before: DrainView,
    after: DrainView,
    truncated: bool,
    next_sequence: u64,
    action: DrainAction,
)
    ensures
        after_events(before, after, truncated, next_sequence, action) ==> {
            &&& after.trace_cursor == before.trace_cursor
            &&& action is ReadTraces <==> !truncated
            &&& action is ReadEvents <==> truncated && next_sequence > before.event_cursor
            &&& action matches DrainAction::ReadTraces { after: from, limit } ==> from
                == before.trace_cursor && limit == 256
            &&& action matches DrainAction::ReadEvents { after: from, limit } ==> from
                == next_sequence && limit == 256 && after.event_cursor == next_sequence
            &&& action matches DrainAction::Finish(done) ==> done is Err && after == before
        },
        after_traces(before, after, truncated, next_sequence, action) ==> {
            &&& after.event_cursor == before.event_cursor
            &&& action == DrainAction::Finish(Ok(())) <==> !truncated
            &&& action is ReadTraces <==> truncated && next_sequence > before.trace_cursor
            &&& action matches DrainAction::ReadTraces { after: from, limit } ==> from
                == next_sequence && limit == 256 && after.trace_cursor == next_sequence
            &&& action is Finish ==> after == before
        },
{
}

/// A line that tells of an error is marked as one, names the place it comes from and the time, and
/// carries the error under its name.
pub proof fn law_error_line_carries_the_error(
    target: Seq<char>,
    message: Seq<char>,
    error: Seq<char>,
    now: i64,
)
    ensures
        ({
            let line = error_line(target, message, error, now);
            &&& line.level == "error"@
            &&& line.target == target
            &&& line.message == redact::redacted_message(message)
            &&& line.timestamp_ms == now
            &&& line.fields.dom() == set!["error"@]
            &&& line.fields["error"@] == crate::json::JsonView::String(error)
        }),
{
    let line = error_line(target, message, error, now);
    let key = "error"@;
    reveal_strlit("error");
    reveal_strlit("token");
    reveal_strlit("secret");
    reveal_strlit("password");
    reveal_strlit("credential");
    reveal_strlit("api_key");
    reveal_strlit("apikey");
    reveal_strlit("authorization");
    let folded = crate::text::folded(key);
    assert(folded =~= key);
    crate::text::lemma_missing_char(folded, "token"@, 0);
    crate::text::lemma_missing_char(folded, "secret"@, 0);
    crate::text::lemma_missing_char(folded, "password"@, 0);
    crate::text::lemma_missing_char(folded, "credential"@, 0);
    crate::text::lemma_missing_char(folded, "api_key"@, 0);
    crate::text::lemma_missing_char(folded, "apikey"@, 0);
    crate::text::lemma_missing_char(folded, "authorization"@, 0);
    assert(!redact::sensitive_key(key));
    assert(line.fields.dom() =~= set!["error"@]);
}

/// A line of the log is told with its own level, target and time, its message and fields redacted.
pub proof fn law_log_line_is_told_redacted(
    level: Seq<char>,
    target: Seq<char>,
    message: Seq<char>,
    fields: Map<Seq<char>, crate::json::JsonView>,
    now: i64,
)
    ensures
        ({
            let line = log_line(level, target, message, fields, now);
            &&& line.level == level
            &&& line.target == target
            &&& line.timestamp_ms == now
            &&& line.message == redact::redacted_message(message)
            &&& line.fields == redact::redacted_fields(fields)
            &&& line.trace_id is None
            &&& line.correlation_id is None
        }),
{
}

/// A stream that goes on without getting on is given up with words that name it.
pub proof fn law_stuck_stream_is_named(
    before: DrainView,
    after: DrainView,
    truncated: bool,
    next_sequence: u64,
    action: DrainAction,
)
    requires
        truncated,
    ensures
        after_events(before, after, truncated, next_sequence, action) && next_sequence
            <= before.event_cursor ==> (action matches DrainAction::Finish(Err(words)) && words@
            == "runtime event cursor did not advance"@),
        after_traces(before, after, truncated, next_sequence, action) && next_sequence
            <= before.trace_cursor ==> (action matches DrainAction::Finish(Err(words)) && words@
            == "trace cursor did not advance"@),
{
}

} // verus!
