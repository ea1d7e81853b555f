//! The events that the frontend listens to, and the hub that numbers them and hands them out.
use crate::bridge::{
    ApprovalRequest, BridgeError, DeliveryProgress, FrontendLogRecord, FrontendLogRecordView,
    PluginSummary, PluginSummaryView,
};
use crate::contracts::{RuntimeEvent, RuntimeEventKind, RuntimeEventView, TraceSpan};
use tokio::sync::broadcast;
use vstd::prelude::*;
use vstd::string::*;

verus! {

broadcast use vstd::string::group_string_axioms;

/// Something that the frontend is told.
#[derive(Debug, PartialEq, Eq)]
pub enum MutsukiFrontendEvent {
    Batch { events: Vec<MutsukiFrontendEvent> },
    ObservabilityGap { stream: String, lost: u64, dropped: u64 },
    Task { task_id: String, event: RuntimeEvent },
    Runtime { event: RuntimeEvent },
    Trace { span: TraceSpan },
    Log { record: FrontendLogRecord },
    Resource { ref_id: String, operation: String },
    Approval { request: ApprovalRequest },
    Plugin { plugin: PluginSummary, operation: String },
    Runner { runner_id: String, status: String },
    AppDelivery { progress: DeliveryProgress },
}

pub enum FrontendEventView {
    Batch { events: Seq<FrontendEventView> },
    ObservabilityGap { stream: Seq<char>, lost: u64, dropped: u64 },
    Task { task_id: Seq<char>, event: RuntimeEventView },
    Runtime { event: RuntimeEventView },
    Trace { span: TraceSpan },
    Log { record: FrontendLogRecordView },
    Resource { ref_id: Seq<char>, operation: Seq<char> },
    Approval { request: ApprovalRequest },
    Plugin { plugin: PluginSummaryView, operation: Seq<char> },
    Runner { runner_id: Seq<char>, status: Seq<char> },
    AppDelivery { progress: crate::bridge::DeliveryProgressView },
}

pub open spec fn frontend_event_view(event: MutsukiFrontendEvent) -> FrontendEventView
    decreases event,
{
    match event {
        MutsukiFrontendEvent::Batch { events } => FrontendEventView::Batch {
            events: Seq::new(
                events@.len(),
                |i: int|
                    if 0 <= i < events@.len() {
                        frontend_event_view(events@[i])
                    } else {
                        arbitrary()
                    },
            ),
        },
        MutsukiFrontendEvent::ObservabilityGap { stream, lost, dropped } =>
            FrontendEventView::ObservabilityGap { stream: stream@, lost, dropped },
        MutsukiFrontendEvent::Task { task_id, event } => FrontendEventView::Task {
            task_id: task_id@,
            event: event@,
        },
        MutsukiFrontendEvent::Runtime { event } => FrontendEventView::Runtime { event: event@ },
        MutsukiFrontendEvent::Trace { span } => FrontendEventView::Trace { span },
        MutsukiFrontendEvent::Log { record } => FrontendEventView::Log { record: record@ },
        MutsukiFrontendEvent::Resource { ref_id, operation } => FrontendEventView::Resource {
            ref_id: ref_id@,
            operation: operation@,
        },
        MutsukiFrontendEvent::Approval { request } => FrontendEventView::Approval { request },
        MutsukiFrontendEvent::Plugin { plugin, operation } => FrontendEventView::Plugin {
            plugin: plugin@,
            operation: operation@,
        },
        MutsukiFrontendEvent::Runner { runner_id, status } => FrontendEventView::Runner {
            runner_id: runner_id@,
            status: status@,
        },
        MutsukiFrontendEvent::AppDelivery { progress } => FrontendEventView::AppDelivery {
            progress: progress@,
        },
    }
}

impl View for MutsukiFrontendEvent {
    type V = FrontendEventView;

    open spec fn view(&self) -> FrontendEventView {
        frontend_event_view(*self)
    }
}

/// The views of a row of events.
pub open spec fn frontend_views(events: Seq<MutsukiFrontendEvent>) -> Seq<FrontendEventView> {
    events.map_values(|event: MutsukiFrontendEvent| event@)
}

impl Clone for MutsukiFrontendEvent {
    fn clone(&self) -> (copy: Self)
        ensures
            copy@ == self@,
        decreases self,
    {
        match self {
            MutsukiFrontendEvent::Batch { events } => {
                let mut out: Vec<MutsukiFrontendEvent> = Vec::new();
                let mut i: usize = 0;
                while i < events.len()
                    invariant
                        i <= events.len(),
                        out.len() == i,
                        forall|j: int| 0 <= j < i ==> (#[trigger] out@[j])@ == events@[j]@,
                        decreases_to!(self => events),
                    decreases events.len() - i,
                {
                    out.push(events[i].clone());
                    i = i + 1;
                }
                let copy = MutsukiFrontendEvent::Batch { events: out };
                assert(copy@->Batch_events =~= self@->Batch_events);
                copy
            },
            MutsukiFrontendEvent::ObservabilityGap { stream, lost, dropped } =>
                MutsukiFrontendEvent::ObservabilityGap {
                    stream: stream.clone(),
                    lost: *lost,
                    dropped: *dropped,
                },
            MutsukiFrontendEvent::Task { task_id, event } => MutsukiFrontendEvent::Task {
                task_id: task_id.clone(),
                event: event.clone(),
            },
            MutsukiFrontendEvent::Runtime { event } => MutsukiFrontendEvent::Runtime {
                event: event.clone(),
            },
            MutsukiFrontendEvent::Trace { span } => MutsukiFrontendEvent::Trace {
                span: span.clone(),
            },
            MutsukiFrontendEvent::Log { record } => MutsukiFrontendEvent::Log {
                record: record.clone(),
            },
            MutsukiFrontendEvent::Resource { ref_id, operation } => MutsukiFrontendEvent::Resource {
                ref_id: ref_id.clone(),
                operation: operation.clone(),
            },
            MutsukiFrontendEvent::Approval { request } => MutsukiFrontendEvent::Approval {
                request: request.clone(),
            },
            MutsukiFrontendEvent::Plugin { plugin, operation } => MutsukiFrontendEvent::Plugin {
                plugin: plugin.clone(),
                operation: operation.clone(),
            },
            MutsukiFrontendEvent::Runner { runner_id, status } => MutsukiFrontendEvent::Runner {
                runner_id: runner_id.clone(),
                status: status.clone(),
            },
            MutsukiFrontendEvent::AppDelivery { progress } => MutsukiFrontendEvent::AppDelivery {
                progress: progress.clone(),
            },
        }
    }
}

/// The name of the channel that an event is told on.
pub open spec fn channel_of(event: FrontendEventView) -> Seq<char> {
    match event {
        FrontendEventView::Batch { .. } => "mutsuki://event/batch"@,
        FrontendEventView::ObservabilityGap { .. } => "mutsuki://observe/gap"@,
        FrontendEventView::Task { .. } => "mutsuki://task/event"@,
        FrontendEventView::Runtime { .. } => "mutsuki://runtime/event"@,
        FrontendEventView::Trace { .. } => "mutsuki://trace/event"@,
        FrontendEventView::Log { .. } => "mutsuki://log/event"@,
        FrontendEventView::Resource { .. } => "mutsuki://resource/event"@,
        FrontendEventView::Approval { .. } => "mutsuki://approval/event"@,
        FrontendEventView::Plugin { .. } => "mutsuki://plugin/event"@,
        FrontendEventView::Runner { .. } => "mutsuki://runner/event"@,
        FrontendEventView::AppDelivery { .. } => "mutsuki://app_delivery/event"@,
    }
}

impl MutsukiFrontendEvent {
    /// The channel that the event is told on.
    pub fn channel(&self) -> (name: &'static str)
        ensures
            name@ == channel_of(self@),
    {
        match self {
            MutsukiFrontendEvent::Batch { .. } => "mutsuki://event/batch",
            MutsukiFrontendEvent::ObservabilityGap { .. } => "mutsuki://observe/gap",
            MutsukiFrontendEvent::Task { .. } => "mutsuki://task/event",
            MutsukiFrontendEvent::Runtime { .. } => "mutsuki://runtime/event",
            MutsukiFrontendEvent::Trace { .. } => "mutsuki://trace/event",
            MutsukiFrontendEvent::Log { .. } => "mutsuki://log/event",
            MutsukiFrontendEvent::Resource { .. } => "mutsuki://resource/event",
            MutsukiFrontendEvent::Approval { .. } => "mutsuki://approval/event",
            MutsukiFrontendEvent::Plugin { .. } => "mutsuki://plugin/event",
            MutsukiFrontendEvent::Runner { .. } => "mutsuki://runner/event",
            MutsukiFrontendEvent::AppDelivery { .. } => "mutsuki://app_delivery/event",
        }
    }
}

/// The task that a runtime event is about, where it is about one.
pub open spec fn event_task(event: RuntimeEventView) -> Option<Seq<char>> {
    if event.kind is Task {
        event.subject_id
    } else {
        None
    }
}

/// How a runtime event is told: as an event of its task, or of the runtime where it has none.
pub open spec fn told_event(event: RuntimeEventView) -> FrontendEventView {
    match event_task(event) {
        Some(task_id) => FrontendEventView::Task { task_id, event },
        None => FrontendEventView::Runtime { event },
    }
}

/// The task that a runtime event is about, where it is about one.
pub fn task_event_id(event: &RuntimeEvent) -> (task_id: Option<String>)
    ensures
        crate::text::opt_text(task_id) == event_task(event@),
{
    match event.kind {
        RuntimeEventKind::Task => event.subject_id.clone(),
        _ => None,
    }
}

/// Turns a runtime event into what the frontend is told.
pub fn frontend_event_for_runtime_event(event: RuntimeEvent) -> (told: MutsukiFrontendEvent)
    ensures
        told@ == told_event(event@),
{
    match task_event_id(&event) {
        Some(task_id) => MutsukiFrontendEvent::Task { task_id, event },
        None => MutsukiFrontendEvent::Runtime { event },
    }
}

/// An event with its number and its channel.
#[derive(Debug, PartialEq, Eq)]
pub struct FrontendEventEnvelope {
    pub sequence: u64,
    pub channel: String,
    pub payload: MutsukiFrontendEvent,
}

pub struct EnvelopeView {
    pub sequence: u64,
    pub channel: Seq<char>,
    pub payload: FrontendEventView,
}

impl View for FrontendEventEnvelope {
    type V = EnvelopeView;

    open spec fn view(&self) -> EnvelopeView {
        EnvelopeView {
            sequence: self.sequence,
            channel: self.channel@,
            payload: self.payload@,
        }
    }
}

impl Clone for FrontendEventEnvelope {
    fn clone(&self) -> (copy: Self)
        ensures
            copy@ == self@,
    {
        FrontendEventEnvelope {
            sequence: self.sequence,
            channel: self.channel.clone(),
            payload: self.payload.clone(),
        }
    }
}

/// `tokio::sync::broadcast::Sender`: the sending end of a channel with many listeners.
#[verifier::external_type_specification]
#[verifier::external_body]
#[verifier::reject_recursive_types(T)]
pub struct ExSender<T>(broadcast::Sender<T>);

/// `tokio::sync::broadcast::Receiver`: the end of the channel that a listener holds.
#[verifier::external_type_specification]
#[verifier::external_body]
#[verifier::reject_recursive_types(T)]
pub struct ExReceiver<T>(broadcast::Receiver<T>);

/// What was handed to a sender, first to last: each envelope, with whether the channel took it.
pub uninterp spec fn published(tx: broadcast::Sender<FrontendEventEnvelope>) -> Seq<
    (FrontendEventEnvelope, bool),
>;

/// The envelopes of a row that the channel took, in their order.
pub open spec fn taken(row: Seq<(FrontendEventEnvelope, bool)>) -> Seq<FrontendEventEnvelope>
    decreases row.len(),
{
    if row.len() == 0 {
        Seq::empty()
    } else if row.last().1 {
        taken(row.drop_last()).push(row.last().0)
    } else {
        taken(row.drop_last())
    }
}

/// The envelopes that were put into the channel of a receiver before the place where the receiver
/// reads on, first to last.
pub uninterp spec fn passed(rx: broadcast::Receiver<FrontendEventEnvelope>) -> Seq<
    FrontendEventEnvelope,
>;

/// `tokio::sync::broadcast::channel`: a new channel, to which nothing has been handed yet. Its
/// first receiver is dropped. The outside function panics on a capacity of zero and on one above
/// half of the largest `usize`.
#[verifier::external_body]
fn open_channel(capacity: usize) -> (tx: broadcast::Sender<FrontendEventEnvelope>)
    requires
        0 < capacity <= usize::MAX / 2,
    ensures
        published(tx) == Seq::<(FrontendEventEnvelope, bool)>::empty(),
{
    broadcast::channel(capacity).0
}

/// `tokio::sync::broadcast::Sender::send`: hands an envelope to the channel. The channel takes it
/// and tells how many receivers it has, which is at least one; with no receiver, and only then, it
/// takes nothing and hands the envelope back. Which of the two happens depends on who listens at
/// the time.
#[verifier::external_body]
fn send(
    tx: &mut broadcast::Sender<FrontendEventEnvelope>,
    envelope: FrontendEventEnvelope,
) -> (sent: Result<usize, FrontendEventEnvelope>)
    ensures
        match sent {
            Ok(listeners) => listeners > 0 && published(*final(tx)) == published(*old(tx)).push(
                (envelope, true),
            ),
            Err(back) => back == envelope && published(*final(tx)) == published(*old(tx)).push(
                (envelope, false),
            ),
        },
{
    tx.send(envelope).map_err(|error| error.0)
}

/// `tokio::sync::broadcast::Sender::subscribe`: a receiver that starts behind everything that was
/// put into the channel so far. What it gets of what is put in later is not stated: a receiver
/// that reads too slowly loses the oldest envelopes. The outside function panics where a quarter of
/// the largest `usize` receivers are alive, which is more than memory holds.
#[verifier::external_body]
fn listen(tx: &broadcast::Sender<FrontendEventEnvelope>) -> (rx: broadcast::Receiver<
    FrontendEventEnvelope,
>)
    ensures
        passed(rx) == taken(published(*tx)),
{
    tx.subscribe()
}

/// The number after `sequence`. The count starts over behind the largest number.
pub open spec fn next_sequence(sequence: u64) -> u64 {
    if sequence == u64::MAX {
        0
    } else {
        (sequence + 1) as u64
    }
}

/// Numbers events and hands them to whoever listens.
#[derive(Debug)]
pub struct EventHub {
    sequence: u64,
    tx: broadcast::Sender<FrontendEventEnvelope>,
}

/// `envelope` is `payload` under the number `sequence`, on the channel of `payload`.
pub open spec fn sealed(
    envelope: FrontendEventEnvelope,
    sequence: u64,
    payload: MutsukiFrontendEvent,
) -> bool {
    &&& envelope.sequence == sequence
    &&& envelope.channel@ == channel_of(payload@)
    &&& envelope.payload == payload
}

/// Puts an event under the number after `last`, on its channel.
pub fn seal(last: u64, payload: MutsukiFrontendEvent) -> (envelope: FrontendEventEnvelope)
    ensures
        sealed(envelope, next_sequence(last), payload),
{
    FrontendEventEnvelope {
        sequence: last.wrapping_add(1),
        channel: payload.channel().to_owned(),
        payload,
    }
}

/// What whoever tells an event is answered, given what came of sending it.
pub fn answer(envelope: FrontendEventEnvelope, sent: Result<usize, FrontendEventEnvelope>) -> (told:
    Result<FrontendEventEnvelope, BridgeError>)
    ensures
        told == match sent {
            Ok(_) => Ok(envelope),
            Err(_) => Err(BridgeError::NoEventReceiver),
        },
{
    match sent {
        Ok(_) => Ok(envelope),
        Err(_) => Err(BridgeError::NoEventReceiver),
    }
}

/// `payload` is how a row of events is told at once: a single event as it is, more of them as a
/// batch.
pub open spec fn batched(events: Seq<MutsukiFrontendEvent>, payload: MutsukiFrontendEvent) -> bool {
    if events.len() == 1 {
        payload == events[0]
    } else {
        payload matches MutsukiFrontendEvent::Batch { events: held } && held@ == events
    }
}

/// An envelope that was handed to the channel, and whether the channel took it.
pub struct HandedView {
    pub envelope: EnvelopeView,
    pub taken: bool,
}

/// The number of the last event, and what was handed to the channel.
#[verifier::ext_equal]
pub struct HubView {
    pub sequence: u64,
    pub handed: Seq<HandedView>,
}

/// The views of a row of envelopes.
pub open spec fn envelope_views(envelopes: Seq<FrontendEventEnvelope>) -> Seq<EnvelopeView> {
    envelopes.map_values(|envelope: FrontendEventEnvelope| envelope@)
}

/// The envelopes of a row that reached listeners, in their order.
pub open spec fn reached(row: Seq<HandedView>) -> Seq<EnvelopeView> {
    row.filter(|handed: HandedView| handed.taken).map_values(|handed: HandedView| handed.envelope)
}

/// The views of what was handed to the channel.
pub open spec fn handed_views(row: Seq<(FrontendEventEnvelope, bool)>) -> Seq<HandedView> {
    row.map_values(|e: (FrontendEventEnvelope, bool)| HandedView { envelope: e.0@, taken: e.1 })
}

/// An event under a number, on its channel.
pub open spec fn envelope_of(sequence: u64, payload: FrontendEventView) -> EnvelopeView {
    EnvelopeView { sequence, channel: channel_of(payload), payload }
}

/// The hub went from `before` to `after` when it told an event: a number is used up, and the event
/// is handed to the channel under it. The channel takes it unless nobody listens.
pub open spec fn tried(before: HubView, after: HubView, payload: FrontendEventView) -> bool {
    let sequence = next_sequence(before.sequence);
    &&& after.sequence == sequence
    &&& after.handed.len() == before.handed.len() + 1
    &&& after.handed.drop_last() == before.handed
    &&& after.handed.last().envelope == envelope_of(sequence, payload)
}

/// A new hub was to tell a row of events, one after the other: `hubs` are its states, from the
/// first one on.
pub open spec fn told_in_turn(hubs: Seq<HubView>, row: Seq<FrontendEventView>) -> bool {
    &&& hubs.len() == row.len() + 1
    &&& hubs[0] == HubView { sequence: 0, handed: Seq::empty() }
    &&& forall|i: int| 0 <= i < row.len() ==> tried(hubs[i], hubs[i + 1], #[trigger] row[i])
}

/// The n-th event that a hub is to tell has the number n, whether or not the channel took the ones
/// before it. Every event is handed to the channel, exactly once and in its turn, under its number
/// and on the channel of its kind; so the numbers go up and none is used twice.
pub proof fn law_events_are_numbered_in_turn(
    hubs: Seq<HubView>,
    row: Seq<FrontendEventView>,
    n: int,
)
    requires
        told_in_turn(hubs, row),
        0 <= n <= row.len() <= u64::MAX,
    ensures
        hubs[n].sequence == n,
        hubs[n].handed.len() == n,
        forall|i: int|
            0 <= i < n ==> {
                let envelope = (#[trigger] hubs[n].handed[i]).envelope;
                envelope.sequence == i + 1 && envelope.payload == row[i] && envelope.channel
                    == channel_of(row[i])
            },
        forall|j: int|
            0 <= j < reached(hubs[n].handed).len() ==> {
                let envelope = #[trigger] reached(hubs[n].handed)[j];
                1 <= envelope.sequence <= n && envelope == envelope_of(
                    envelope.sequence,
                    row[envelope.sequence - 1],
                )
            },
        forall|j: int, k: int|
            0 <= j < k < reached(hubs[n].handed).len() ==> (#[trigger] reached(
                hubs[n].handed,
            )[j]).sequence < (#[trigger] reached(hubs[n].handed)[k]).sequence,
    decreases n,
{
    if n > 0 {
        lemma_reached_grows(hubs[n].handed);
        assert(tried(hubs[n - 1], hubs[n - 1 + 1], row[n - 1]));
        law_events_are_numbered_in_turn(hubs, row, n - 1);
        let event = row[n - 1];
        assert(tried(hubs[n - 1], hubs[n - 1 + 1], event));
        let before = hubs[n - 1].handed;
        let after = hubs[n].handed;
        assert forall|i: int| 0 <= i < n implies {
            let envelope = (#[trigger] after[i]).envelope;
            envelope.sequence == i + 1 && envelope.payload == row[i] && envelope.channel
                == channel_of(row[i])
        } by {
            if i < before.len() {
                assert(after.drop_last()[i] == before[i]);
            }
        }
        let old_row = reached(before);
        let new_row = reached(after);
        assert forall|j: int| 0 <= j < new_row.len() implies {
            let envelope = #[trigger] new_row[j];
            1 <= envelope.sequence <= n && envelope == envelope_of(
                envelope.sequence,
                row[envelope.sequence - 1],
            )
        } by {
            if j < old_row.len() {
                assert(new_row[j] == old_row[j]);
            }
        }
        assert forall|j: int, k: int| 0 <= j < k < new_row.len() implies (
        #[trigger] new_row[j]).sequence < (#[trigger] new_row[k]).sequence by {
            assert(new_row[j] == old_row[j]);
            if k < old_row.len() {
                assert(new_row[k] == old_row[k]);
            }
        }
    } else {
        reveal(Seq::filter);
        assert(reached(hubs[0].handed) =~= Seq::empty());
    }
}

proof fn lemma_reached_grows(row: Seq<HandedView>)
    requires
        row.len() > 0,
    ensures
        reached(row) == if row.last().taken {
            reached(row.drop_last()).push(row.last().envelope)
        } else {
            reached(row.drop_last())
        },
{
    reveal(Seq::filter);
    let p = |handed: HandedView| handed.taken;
    let f = |handed: HandedView| handed.envelope;
    let front = row.drop_last();
    if row.last().taken {
        assert(row.filter(p) == front.filter(p).push(row.last()));
        assert(front.filter(p).push(row.last()).map_values(f) =~= front.filter(p).map_values(f).push(
            row.last().envelope,
        ));
    } else {
        assert(row.filter(p) == front.filter(p));
    }
}

/// What reaches listeners is what the channel took of what was handed to it, in the same order.
pub proof fn law_taken_envelopes_reach_listeners(row: Seq<(FrontendEventEnvelope, bool)>)
    ensures
        envelope_views(taken(row)) == reached(handed_views(row)),
    decreases row.len(),
{
    let views = handed_views(row);
    if row.len() > 0 {
        law_taken_envelopes_reach_listeners(row.drop_last());
        lemma_reached_grows(views);
        assert(views.drop_last() =~= handed_views(row.drop_last()));
        if row.last().1 {
            assert(envelope_views(taken(row)) =~= envelope_views(taken(row.drop_last())).push(
                row.last().0@,
            ));
        }
    } else {
        reveal(Seq::filter);
        assert(envelope_views(taken(row)) =~= Seq::empty());
        assert(reached(views) =~= Seq::empty());
    }
}

/// Telling an event hands it to the channel, whatever it is and however large: nothing that was
/// handed over before is lost or changed, nothing else is added, and the event itself is the last.
pub proof fn law_told_event_is_handed_over(
    before: HubView,
    after: HubView,
    payload: FrontendEventView,
)
    requires
        tried(before, after, payload),
    ensures
        after.handed.len() == before.handed.len() + 1,
        after.handed.last().envelope.payload == payload,
        after.handed.last().envelope.channel == channel_of(payload),
        after.handed.last().envelope.sequence == after.sequence,
        after.sequence == if before.sequence == u64::MAX {
            0
        } else {
            before.sequence + 1
        },
        forall|i: int|
            0 <= i < before.handed.len() ==> after.handed[i] == #[trigger] before.handed[i],
{
    assert forall|i: int| 0 <= i < before.handed.len() implies after.handed[i]
        == #[trigger] before.handed[i] by {
        assert(after.handed.drop_last()[i] == before.handed[i]);
    }
}

/// The events of a payload: those of a batch, or the payload itself.
pub open spec fn events_of(payload: FrontendEventView) -> Seq<FrontendEventView> {
    match payload {
        FrontendEventView::Batch { events } => events,
        _ => seq![payload],
    }
}

/// A row that is told at once holds all of its events, in their order and nothing else: one event
/// is told as itself, and any other number of them as a batch.
pub proof fn law_batch_holds_its_events(row: Seq<FrontendEventView>)
    ensures
        row.len() == 1 ==> batch_view(row) == row[0],
        row.len() != 1 ==> batch_view(row) is Batch && events_of(batch_view(row)) == row,
        row.len() == 1 && row[0] !is Batch ==> events_of(batch_view(row)) == row,
{
    if row.len() == 1 {
        assert(seq![row[0]] =~= row);
    }
}

/// Each kind of event is told on a channel of its own.
pub proof fn law_each_kind_has_its_channel(event: FrontendEventView)
    ensures
        event is Batch ==> channel_of(event) == "mutsuki://event/batch"@,
        event is ObservabilityGap ==> channel_of(event) == "mutsuki://observe/gap"@,
        event is Task ==> channel_of(event) == "mutsuki://task/event"@,
        event is Runtime ==> channel_of(event) == "mutsuki://runtime/event"@,
        event is Trace ==> channel_of(event) == "mutsuki://trace/event"@,
        event is Log ==> channel_of(event) == "mutsuki://log/event"@,
        event is Resource ==> channel_of(event) == "mutsuki://resource/event"@,
        event is Approval ==> channel_of(event) == "mutsuki://approval/event"@,
        event is Plugin ==> channel_of(event) == "mutsuki://plugin/event"@,
        event is Runner ==> channel_of(event) == "mutsuki://runner/event"@,
        event is AppDelivery ==> channel_of(event) == "mutsuki://app_delivery/event"@,
{
}

/// A runtime event is told whole. It is told to a task exactly where it is about a task and names
/// one, and then to that task.
pub proof fn law_runtime_event_is_told_whole(event: RuntimeEventView)
    ensures
        told_event(event) is Task <==> event.kind is Task && event.subject_id is Some,
        told_event(event) is Task ==> told_event(event)->Task_task_id == event.subject_id->0
            && told_event(event)->Task_event == event,
        told_event(event) !is Task ==> told_event(event) is Runtime
            && told_event(event)->Runtime_event == event,
{
}

/// How a row of events is told at once.
pub open spec fn batch_view(events: Seq<FrontendEventView>) -> FrontendEventView {
    if events.len() == 1 {
        events[0]
    } else {
        FrontendEventView::Batch { events }
    }
}

proof fn lemma_told_was_tried(
    before: EventHub,
    after: EventHub,
    payload: MutsukiFrontendEvent,
    told: Result<FrontendEventEnvelope, BridgeError>,
)
    requires
        EventHub::tells(before, after, payload, told),
    ensures
        tried(before.story(), after.story(), payload@),
{
    assert(after.story().handed.drop_last() =~= handed_views(after.handed().drop_last()));
}

impl EventHub {
    /// The number of the last event.
    pub closed spec fn last_sequence(self) -> u64 {
        self.sequence
    }

    /// What was handed to the channel, first to last: each envelope, with whether the channel took
    /// it.
    pub closed spec fn handed(self) -> Seq<(FrontendEventEnvelope, bool)> {
        published(self.tx)
    }

    /// The envelopes that were handed to listeners, first to last.
    pub open spec fn sent(self) -> Seq<FrontendEventEnvelope> {
        taken(self.handed())
    }

    /// A hub that holds up to `buffer` events for a slow listener, and at least one.
    pub fn new(buffer: usize) -> (hub: Self)
        requires
            buffer <= usize::MAX / 2,
        ensures
            hub.last_sequence() == 0,
            hub.handed() == Seq::<(FrontendEventEnvelope, bool)>::empty(),
            hub.sent() == Seq::<FrontendEventEnvelope>::empty(),
    {
        let capacity: usize = if buffer < 1 {
            1
        } else {
            buffer
        };
        EventHub { sequence: 0, tx: open_channel(capacity) }
    }

    /// `told` is the answer to telling `payload`, which took the hub from `before` to `after`:
    /// the number is used up and the envelope is handed to the channel in any case. It is handed
    /// out where somebody listens, and only a channel that nobody listens to refuses it.
    pub open spec fn tells(
        before: EventHub,
        after: EventHub,
        payload: MutsukiFrontendEvent,
        told: Result<FrontendEventEnvelope, BridgeError>,
    ) -> bool {
        &&& after.last_sequence() == next_sequence(before.last_sequence())
        &&& after.handed().len() == before.handed().len() + 1
        &&& after.handed().drop_last() == before.handed()
        &&& sealed(after.handed().last().0, after.last_sequence(), payload)
        &&& after.handed().last().1 == told is Ok
        &&& match told {
            Ok(envelope) => {
                &&& after.sent().len() == before.sent().len() + 1
                &&& after.sent().drop_last() == before.sent()
                &&& sealed(after.sent().last(), after.last_sequence(), payload)
                &&& envelope@ == after.sent().last()@
            },
            Err(error) => error is NoEventReceiver && after.sent() == before.sent(),
        }
    }

    /// Numbers an event and hands it out.
    pub fn emit(&mut self, payload: MutsukiFrontendEvent) -> (told: Result<
        FrontendEventEnvelope,
        BridgeError,
    >)
        ensures
            EventHub::tells(*old(self), *final(self), payload, told),
            tried(old(self).story(), final(self).story(), payload@),
            final(self).handed().len() == old(self).handed().len() + 1,
            final(self).handed().drop_last() == old(self).handed(),
            final(self).handed().last().0.payload == payload,
            final(self).handed().last().1 == told is Ok,
            told matches Ok(envelope) ==> envelope@ == final(self).handed().last().0@,
            told matches Err(error) ==> error is NoEventReceiver,
    {
        let envelope = seal(self.sequence, payload);
        self.sequence = envelope.sequence;
        let copy = envelope.clone();
        let sent = send(&mut self.tx, envelope);
        assert(self.handed().drop_last() =~= old(self).handed());
        assert(sent is Ok ==> self.sent().drop_last() =~= old(self).sent());
        let told = answer(copy, sent);
        proof {
            lemma_told_was_tried(*old(self), *self, payload, told);
        }
        told
    }

    /// Hands out a row of events under one number. An empty row is not told.
    pub fn emit_batch(&mut self, events: Vec<MutsukiFrontendEvent>) -> (told: Result<
        Option<FrontendEventEnvelope>,
        BridgeError,
    >)
        ensures
            events.len() == 0 ==> told == Ok::<Option<FrontendEventEnvelope>, BridgeError>(None)
                && final(self).last_sequence() == old(self).last_sequence() && final(self).sent()
                == old(self).sent() && final(self).handed() == old(self).handed(),
            events.len() > 0 ==> exists|payload: MutsukiFrontendEvent|
                #![trigger batched(events@, payload)]
                batched(events@, payload) && match told {
                    Ok(Some(envelope)) => EventHub::tells(
                        *old(self),
                        *final(self),
                        payload,
                        Ok(envelope),
                    ),
                    Ok(None) => false,
                    Err(error) => EventHub::tells(*old(self), *final(self), payload, Err(error)),
                },
            events.len() > 0 ==> final(self).handed().len() == old(self).handed().len() + 1
                && final(self).handed().drop_last() == old(self).handed()
                && final(self).handed().last().1 == told is Ok,
            events.len() == 1 ==> final(self).handed().last().0.payload == events[0],
            events.len() > 1 ==> (final(self).handed().last().0.payload matches
                MutsukiFrontendEvent::Batch { events: held } && held@ == events@),
    {
        let ghost row = events@;
        let mut events = events;
        let n: usize = events.len();
        if n == 0 {
            return Ok(None);
        }
        let payload = if n == 1 {
            events.swap_remove(0)
        } else {
            MutsukiFrontendEvent::Batch { events }
        };
        assert(batched(row, payload));
        match self.emit(payload) {
            Ok(envelope) => Ok(Some(envelope)),
            Err(error) => Err(error),
        }
    }

    /// The hub as its listeners know it.
    pub open spec fn story(self) -> HubView {
        HubView { sequence: self.last_sequence(), handed: handed_views(self.handed()) }
    }

    /// Hands out an event and leaves it at that: where nobody listens it is lost.
    pub fn tell(&mut self, payload: MutsukiFrontendEvent)
        ensures
            tried(old(self).story(), final(self).story(), payload@),
            final(self).handed().len() == old(self).handed().len() + 1,
            final(self).handed().drop_last() == old(self).handed(),
            final(self).handed().last().0.payload == payload,
    {
        let told = self.emit(payload);
        proof {
            lemma_told_was_tried(*old(self), *self, payload, told);
        }
    }

    /// Hands out a row of events under one number and leaves it at that. An empty row is not told.
    pub fn tell_batch(&mut self, events: Vec<MutsukiFrontendEvent>)
        ensures
            if events.len() == 0 {
                final(self).story() == old(self).story()
            } else {
                tried(
                    old(self).story(),
                    final(self).story(),
                    batch_view(frontend_views(events@)),
                )
            },
            final(self).handed().len() == old(self).handed().len() + if events.len() == 0 {
                0int
            } else {
                1int
            },
            events.len() > 0 ==> final(self).handed().drop_last() == old(self).handed() && batched(
                events@,
                final(self).handed().last().0.payload,
            ),
    {
        let ghost row = events@;
        let told = self.emit_batch(events);
        proof {
            if row.len() > 0 {
                let payload = choose|payload: MutsukiFrontendEvent|
                    #![trigger batched(row, payload)]
                    batched(row, payload) && match told {
                        Ok(Some(envelope)) => EventHub::tells(
                            *old(self),
                            *self,
                            payload,
                            Ok(envelope),
                        ),
                        Ok(None) => false,
                        Err(error) => EventHub::tells(*old(self), *self, payload, Err(error)),
                    };
                match told {
                    Ok(Some(envelope)) => {
                        lemma_told_was_tried(*old(self), *self, payload, Ok(envelope));
                    },
                    Ok(None) => {},
                    Err(error) => {
                        lemma_told_was_tried(*old(self), *self, payload, Err(error));
                    },
                }
                if row.len() > 1 {
                    assert(payload@->Batch_events =~= frontend_views(row));
                }
            }
        }
    }

    /// A receiver of the events that are told from now on: it starts behind those that were handed
    /// out before.
    pub fn subscribe(&self) -> (rx: broadcast::Receiver<FrontendEventEnvelope>)
        ensures
            passed(rx) == self.sent(),
    {
        listen(&self.tx)
    }
}

impl Default for EventHub {
    fn default() -> (hub: Self)
        ensures
            hub.last_sequence() == 0,
            hub.handed() == Seq::<(FrontendEventEnvelope, bool)>::empty(),
            hub.sent() == Seq::<FrontendEventEnvelope>::empty(),
    {
        EventHub::new(1024)
    }
}

/// The view of an event of the frontend tells its kind and all of its parts.
pub proof fn law_frontend_event_is_seen_whole(event: MutsukiFrontendEvent, i: int)
    ensures
        match event {
            MutsukiFrontendEvent::Batch { events } => event@ matches FrontendEventView::Batch {
                events: row,
            } && row.len() == events@.len() && (0 <= i < events@.len() ==> row[i] == events@[i]@),
            MutsukiFrontendEvent::ObservabilityGap { stream, lost, dropped } => event@
                == (FrontendEventView::ObservabilityGap { stream: stream@, lost, dropped }),
            MutsukiFrontendEvent::Task { task_id, event: told } => event@
                == (FrontendEventView::Task { task_id: task_id@, event: told@ }),
            MutsukiFrontendEvent::Runtime { event: told } => event@
                == (FrontendEventView::Runtime { event: told@ }),
            MutsukiFrontendEvent::Trace { span } => event@ == (FrontendEventView::Trace { span }),
            MutsukiFrontendEvent::Log { record } => event@ == (FrontendEventView::Log {
                record: record@,
            }),
            MutsukiFrontendEvent::Resource { ref_id, operation } => event@
                == (FrontendEventView::Resource { ref_id: ref_id@, operation: operation@ }),
            MutsukiFrontendEvent::Approval { request } => event@ == (FrontendEventView::Approval {
                request,
            }),
            MutsukiFrontendEvent::Plugin { plugin, operation } => event@
                == (FrontendEventView::Plugin { plugin: plugin@, operation: operation@ }),
            MutsukiFrontendEvent::Runner { runner_id, status } => event@
                == (FrontendEventView::Runner { runner_id: runner_id@, status: status@ }),
            MutsukiFrontendEvent::AppDelivery { progress } => event@
                == (FrontendEventView::AppDelivery { progress: progress@ }),
        },
{
}

/// The view of an envelope tells all of it.
pub proof fn law_envelope_is_seen_whole(envelope: FrontendEventEnvelope)
    ensures
        envelope@.sequence == envelope.sequence,
        envelope@.channel == envelope.channel@,
        envelope@.payload == envelope.payload@,
{
}

/// A row of events that is told at once is told as the view of the row says.
pub proof fn law_batch_is_seen_as_its_row(
    events: Seq<MutsukiFrontendEvent>,
    payload: MutsukiFrontendEvent,
)
    requires
        batched(events, payload),
    ensures
        payload@ == batch_view(frontend_views(events)),
        events.len() == 1 ==> payload == events[0],
        events.len() != 1 ==> (payload matches MutsukiFrontendEvent::Batch { events: held } && held@
            == events),
{
    if let MutsukiFrontendEvent::Batch { events: held } = payload {
        if events.len() != 1 {
            assert(payload@->Batch_events =~= frontend_views(events));
        }
    }
}

} // verus!
