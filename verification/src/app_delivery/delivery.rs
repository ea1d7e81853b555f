//! One delivery from the request to its receipt: connect, activate the target where it is off,
//! wait for the capability, hand the request over, and keep a draft where it fails.
use crate::app_delivery::draft::{DeliveryDraft, DeliveryDraftStore};
use crate::app_delivery::operation_history::{
    HistoryView, OperationHistory, OperationHistoryPolicy, OperationHistoryStats,
};
use crate::app_delivery::operation_history;
use crate::app_delivery::transport::AppLinkSession;
use crate::app_delivery::transport;
use crate::app_delivery::types::{
    ActivationError, AppDeliveryError, AppDeliveryOptions, AppId, AppIdentity,
    CapabilityDescriptor, CapabilityRequestEnvelope, DeliveryPhase, DeliveryReceipt,
    HOST_PROTOCOL_VERSION,
};
use crate::app_delivery::types;
use crate::bridge::{DeliveryProgress, DeliveryProgressView};
use crate::ids;
use crate::text;
use vstd::prelude::*;
use vstd::string::*;

verus! {

broadcast use vstd::string::group_string_axioms;

/// What the delivery waits for.
#[derive(Clone, Copy, Debug, PartialEq, Eq, Structural)]
pub enum DeliveryStage {
    Connecting,
    Activating,
    AwaitingEndpoint,
    AwaitingCapability,
    Transmitting,
    QueryingReceipt,
    Finished,
}

/// What happened to what the delivery waited for.
#[derive(Debug, PartialEq, Eq)]
pub enum DeliveryEvent {
    Connected(Result<AppLinkSession, AppDeliveryError>),
    Activated(Result<(), ActivationError>),
    EndpointAwaited(Result<AppLinkSession, AppDeliveryError>),
    CapabilityAwaited(Result<AppLinkSession, AppDeliveryError>),
    /// Absent where no receipt came in time.
    Transmitted(Option<Result<DeliveryReceipt, AppDeliveryError>>),
    Queried(Result<Option<DeliveryReceipt>, AppDeliveryError>),
}

/// What the delivery comes to.
#[derive(Debug, PartialEq, Eq)]
pub enum DeliveryVerdict {
    /// The target is off and is to be started.
    Activate,
    /// The target is started and its endpoint is awaited.
    AwaitEndpoint,
    /// The target is connected and the capability is awaited.
    AwaitCapability(AppLinkSession),
    /// The target offers the capability and is handed the request.
    Transmit(AppLinkSession),
    /// No receipt came in time and the target is asked for it.
    QueryReceipt,
    /// The target answered.
    Deliver(DeliveryReceipt),
    /// The delivery failed, which is worth a draft.
    Fail(AppDeliveryError),
    /// The target could not be started.
    Quit(AppDeliveryError),
}

/// The phases that the delivery went through, and what it comes to.
#[derive(Debug, PartialEq, Eq)]
pub struct DeliveryDecision {
    pub phases: Vec<DeliveryPhase>,
    pub verdict: DeliveryVerdict,
}

pub struct DecisionView {
    pub phases: Seq<DeliveryPhase>,
    pub verdict: DeliveryVerdict,
}

/// The event answers what the delivery waits for.
pub open spec fn expected(stage: DeliveryStage, event: DeliveryEvent) -> bool {
    match event {
        DeliveryEvent::Connected(_) => stage == DeliveryStage::Connecting,
        DeliveryEvent::Activated(_) => stage == DeliveryStage::Activating,
        DeliveryEvent::EndpointAwaited(_) => stage == DeliveryStage::AwaitingEndpoint,
        DeliveryEvent::CapabilityAwaited(_) => stage == DeliveryStage::AwaitingCapability,
        DeliveryEvent::Transmitted(_) => stage == DeliveryStage::Transmitting,
        DeliveryEvent::Queried(_) => stage == DeliveryStage::QueryingReceipt,
    }
}

/// What a delivery comes to once the target is connected: a host that speaks another protocol
/// fails it, a target that offers the capability is handed the request, and any other is waited
/// for.
pub open spec fn on_session(session: AppLinkSession, capability: CapabilityDescriptor) -> DecisionView {
    if session.host_protocol_version != HOST_PROTOCOL_VERSION {
        DecisionView {
            phases: Seq::empty(),
            verdict: DeliveryVerdict::Fail(AppDeliveryError::ProtocolIncompatible),
        }
    } else if transport::offers(session.capabilities@, capability@) {
        DecisionView {
            phases: seq![
                DeliveryPhase::Negotiating,
                DeliveryPhase::TargetReady,
                DeliveryPhase::Transmitting,
            ],
            verdict: DeliveryVerdict::Transmit(session),
        }
    } else {
        DecisionView {
            phases: seq![DeliveryPhase::Negotiating],
            verdict: DeliveryVerdict::AwaitCapability(session),
        }
    }
}

/// What a delivery comes to once the wait for the capability is over.
pub open spec fn on_ready_session(session: AppLinkSession, capability: CapabilityDescriptor) -> DecisionView {
    if transport::offers(session.capabilities@, capability@) {
        DecisionView {
            phases: seq![DeliveryPhase::TargetReady, DeliveryPhase::Transmitting],
            verdict: DeliveryVerdict::Transmit(session),
        }
    } else {
        DecisionView {
            phases: seq![DeliveryPhase::TargetReady],
            verdict: DeliveryVerdict::Fail(
                if transport::offers_name(session.capabilities@, capability@) {
                    AppDeliveryError::ProtocolIncompatible
                } else {
                    AppDeliveryError::CapabilityUnavailable
                },
            ),
        }
    }
}

/// A decision that goes through no phase.
pub open spec fn straight(verdict: DeliveryVerdict) -> DecisionView {
    DecisionView { phases: Seq::empty(), verdict }
}

/// What a delivery comes to after an event.
pub open spec fn decision(
    capability: CapabilityDescriptor,
    activate_if_offline: bool,
    event: DeliveryEvent,
) -> DecisionView {
    match event {
        DeliveryEvent::Connected(Ok(session)) => on_session(session, capability),
        DeliveryEvent::Connected(Err(error)) => if error
            == AppDeliveryError::EndpointUnavailable && activate_if_offline {
            DecisionView {
                phases: seq![DeliveryPhase::TargetActivating],
                verdict: DeliveryVerdict::Activate,
            }
        } else {
            straight(DeliveryVerdict::Fail(error))
        },
        DeliveryEvent::Activated(Ok(_)) => straight(DeliveryVerdict::AwaitEndpoint),
        DeliveryEvent::Activated(Err(error)) => straight(
            DeliveryVerdict::Quit(types::activation_failure(error)),
        ),
        DeliveryEvent::EndpointAwaited(Ok(session)) => on_session(session, capability),
        DeliveryEvent::EndpointAwaited(Err(error)) => straight(DeliveryVerdict::Quit(error)),
        DeliveryEvent::CapabilityAwaited(Ok(session)) => on_ready_session(session, capability),
        DeliveryEvent::CapabilityAwaited(Err(error)) => straight(DeliveryVerdict::Fail(error)),
        DeliveryEvent::Transmitted(Some(Ok(receipt))) => straight(DeliveryVerdict::Deliver(receipt)),
        DeliveryEvent::Transmitted(Some(Err(error))) => straight(DeliveryVerdict::Fail(error)),
        DeliveryEvent::Transmitted(None) => straight(DeliveryVerdict::QueryReceipt),
        DeliveryEvent::Queried(Ok(Some(receipt))) => straight(DeliveryVerdict::Deliver(receipt)),
        DeliveryEvent::Queried(Ok(None)) => straight(
            DeliveryVerdict::Fail(AppDeliveryError::ReceiptTimeout),
        ),
        DeliveryEvent::Queried(Err(error)) => straight(DeliveryVerdict::Fail(error)),
    }
}

/// A request is only ever handed to a target that offers its capability.
pub proof fn law_request_waits_for_the_capability(
    capability: CapabilityDescriptor,
    activate_if_offline: bool,
    event: DeliveryEvent,
    session: AppLinkSession,
)
    requires
        decision(capability, activate_if_offline, event).verdict == DeliveryVerdict::Transmit(session),
    ensures
        transport::offers(session.capabilities@, capability@),
{
}

/// A target whose host speaks another protocol is never handed a request on its connection.
pub proof fn law_foreign_protocol_is_refused(
    capability: CapabilityDescriptor,
    activate_if_offline: bool,
    session: AppLinkSession,
)
    requires
        session.host_protocol_version != HOST_PROTOCOL_VERSION,
    ensures
        decision(
            capability,
            activate_if_offline,
            DeliveryEvent::Connected(Ok(session)),
        ).verdict == DeliveryVerdict::Fail(AppDeliveryError::ProtocolIncompatible),
        decision(
            capability,
            activate_if_offline,
            DeliveryEvent::EndpointAwaited(Ok(session)),
        ).verdict == DeliveryVerdict::Fail(AppDeliveryError::ProtocolIncompatible),
{
}

fn decide_on_session(session: AppLinkSession, capability: &CapabilityDescriptor) -> (decided:
    DeliveryDecision)
    ensures
        decided.phases@ == on_session(session, *capability).phases,
        decided.verdict == on_session(session, *capability).verdict,
{
    if let Err(error) = session.ensure_protocol_compatible() {
        return DeliveryDecision { phases: Vec::new(), verdict: DeliveryVerdict::Fail(error) };
    }
    if session.capability_ready(capability) {
        let phases = vec![
            DeliveryPhase::Negotiating,
            DeliveryPhase::TargetReady,
            DeliveryPhase::Transmitting,
        ];
        assert(phases@ =~= on_session(session, *capability).phases);
        DeliveryDecision { phases, verdict: DeliveryVerdict::Transmit(session) }
    } else {
        let phases = vec![DeliveryPhase::Negotiating];
        assert(phases@ =~= on_session(session, *capability).phases);
        DeliveryDecision { phases, verdict: DeliveryVerdict::AwaitCapability(session) }
    }
}

fn decide_on_ready_session(session: AppLinkSession, capability: &CapabilityDescriptor) -> (decided:
    DeliveryDecision)
    ensures
        decided.phases@ == on_ready_session(session, *capability).phases,
        decided.verdict == on_ready_session(session, *capability).verdict,
{
    match session.ensure_capability_ready(capability) {
        Ok(_) => {
            let phases = vec![DeliveryPhase::TargetReady, DeliveryPhase::Transmitting];
            assert(phases@ =~= on_ready_session(session, *capability).phases);
            DeliveryDecision { phases, verdict: DeliveryVerdict::Transmit(session) }
        },
        Err(error) => {
            let phases = vec![DeliveryPhase::TargetReady];
            assert(phases@ =~= on_ready_session(session, *capability).phases);
            DeliveryDecision { phases, verdict: DeliveryVerdict::Fail(error) }
        },
    }
}

fn straight_to(verdict: DeliveryVerdict) -> (decided: DeliveryDecision)
    ensures
        decided.phases@ == straight(verdict).phases,
        decided.verdict == verdict,
{
    DeliveryDecision { phases: Vec::new(), verdict }
}

/// Decides what a delivery comes to after an event.
pub fn decide(
    capability: &CapabilityDescriptor,
    activate_if_offline: bool,
    event: DeliveryEvent,
) -> (decided: DeliveryDecision)
    ensures
        decided.phases@ == decision(*capability, activate_if_offline, event).phases,
        decided.verdict == decision(*capability, activate_if_offline, event).verdict,
{
    match event {
        DeliveryEvent::Connected(Ok(session)) => decide_on_session(session, capability),
        DeliveryEvent::Connected(Err(error)) => match error {
            AppDeliveryError::EndpointUnavailable if activate_if_offline => {
                let phases = vec![DeliveryPhase::TargetActivating];
                assert(phases@ =~= decision(*capability, activate_if_offline, event).phases);
                DeliveryDecision { phases, verdict: DeliveryVerdict::Activate }
            },
            error => straight_to(DeliveryVerdict::Fail(error)),
        },
        DeliveryEvent::Activated(Ok(_)) => straight_to(DeliveryVerdict::AwaitEndpoint),
        DeliveryEvent::Activated(Err(error)) => straight_to(
            DeliveryVerdict::Quit(AppDeliveryError::from(error)),
        ),
        DeliveryEvent::EndpointAwaited(Ok(session)) => decide_on_session(session, capability),
        DeliveryEvent::EndpointAwaited(Err(error)) => straight_to(DeliveryVerdict::Quit(error)),
        DeliveryEvent::CapabilityAwaited(Ok(session)) => decide_on_ready_session(
            session,
            capability,
        ),
        DeliveryEvent::CapabilityAwaited(Err(error)) => straight_to(DeliveryVerdict::Fail(error)),
        DeliveryEvent::Transmitted(Some(Ok(receipt))) => straight_to(
            DeliveryVerdict::Deliver(receipt),
        ),
        DeliveryEvent::Transmitted(Some(Err(error))) => straight_to(DeliveryVerdict::Fail(error)),
        DeliveryEvent::Transmitted(None) => straight_to(DeliveryVerdict::QueryReceipt),
        DeliveryEvent::Queried(Ok(Some(receipt))) => straight_to(DeliveryVerdict::Deliver(receipt)),
        DeliveryEvent::Queried(Ok(None)) => straight_to(
            DeliveryVerdict::Fail(AppDeliveryError::ReceiptTimeout),
        ),
        DeliveryEvent::Queried(Err(error)) => straight_to(DeliveryVerdict::Fail(error)),
    }
}

/// The receipt that an event brings, where it brings one.
pub open spec fn answer_of(event: DeliveryEvent) -> Option<DeliveryReceipt> {
    match event {
        DeliveryEvent::Transmitted(Some(Ok(receipt))) => Some(receipt),
        DeliveryEvent::Queried(Ok(Some(receipt))) => Some(receipt),
        _ => None,
    }
}

/// The phase that a receipt brings a delivery to.
pub open spec fn receipt_phase(receipt: DeliveryReceipt) -> DeliveryPhase {
    match receipt {
        DeliveryReceipt::Accepted { .. } => DeliveryPhase::Accepted,
        DeliveryReceipt::Duplicate { .. } => DeliveryPhase::Accepted,
        DeliveryReceipt::Completed { .. } => DeliveryPhase::Completed,
        DeliveryReceipt::Rejected { .. } => DeliveryPhase::DeliveryFailed,
        DeliveryReceipt::Failed { .. } => DeliveryPhase::DeliveryFailed,
    }
}

fn phase_of_receipt(receipt: &DeliveryReceipt) -> (phase: DeliveryPhase)
    ensures
        phase == receipt_phase(*receipt),
        phase is Accepted <==> receipt is Accepted || receipt is Duplicate,
        phase is Completed <==> receipt is Completed,
        phase is DeliveryFailed <==> receipt is Rejected || receipt is Failed,
{
    match receipt {
        DeliveryReceipt::Accepted { .. } | DeliveryReceipt::Duplicate { .. } => {
            DeliveryPhase::Accepted
        },
        DeliveryReceipt::Completed { .. } => DeliveryPhase::Completed,
        DeliveryReceipt::Rejected { .. } | DeliveryReceipt::Failed { .. } => {
            DeliveryPhase::DeliveryFailed
        },
    }
}

/// A phase that a delivery came to, and the error that brought it there.
pub struct PhaseNote {
    pub phase: DeliveryPhase,
    pub error: Option<AppDeliveryError>,
}

/// The phases that a verdict brings a delivery to: that of its receipt, or those of its failure.
pub open spec fn verdict_phases(verdict: DeliveryVerdict, persist: bool) -> Seq<PhaseNote> {
    match verdict {
        DeliveryVerdict::Deliver(receipt) => seq![
            PhaseNote { phase: receipt_phase(receipt), error: None },
        ],
        DeliveryVerdict::Fail(error) => if persist {
            seq![
                PhaseNote { phase: DeliveryPhase::DraftSaved, error: Some(error) },
                PhaseNote { phase: DeliveryPhase::DeliveryFailed, error: Some(error) },
            ]
        } else {
            seq![PhaseNote { phase: DeliveryPhase::DeliveryFailed, error: Some(error) }]
        },
        _ => Seq::empty(),
    }
}

/// The phases that a decision brings a delivery to.
pub open spec fn decision_phases(decided: DecisionView, persist: bool) -> Seq<PhaseNote> {
    decided.phases.map_values(|phase: DeliveryPhase| PhaseNote { phase, error: None })
        + verdict_phases(decided.verdict, persist)
}

/// The history once a delivery went through a row of phases.
pub open spec fn phases_recorded(
    v: HistoryView,
    max: nat,
    request: Seq<char>,
    notes: Seq<PhaseNote>,
) -> HistoryView
    decreases notes.len(),
{
    if notes.len() == 0 {
        v
    } else {
        operation_history::phase_recorded(
            phases_recorded(v, max, request, notes.drop_last()),
            max,
            request,
            notes.last().phase,
        )
    }
}

/// How a phase of a delivery is told.
pub open spec fn progress_told(
    request: Seq<char>,
    target: Seq<char>,
    note: PhaseNote,
) -> DeliveryProgressView {
    DeliveryProgressView {
        request_id: request,
        target_app: target,
        phase: types::phase_name(note.phase),
        error: match note.error {
            Some(error) => Some(types::error_words(error)),
            None => None,
        },
        error_kind: match note.error {
            Some(error) => Some(types::error_kind(error)),
            None => None,
        },
    }
}

/// How a row of phases of a delivery is told.
pub open spec fn progress_row(
    request: Seq<char>,
    target: Seq<char>,
    notes: Seq<PhaseNote>,
) -> Seq<DeliveryProgressView> {
    notes.map_values(|note: PhaseNote| progress_told(request, target, note))
}

/// The views of a row of progress notes.
pub open spec fn progress_views(row: Seq<DeliveryProgress>) -> Seq<DeliveryProgressView> {
    row.map_values(|progress: DeliveryProgress| progress@)
}

/// One delivery on its way.
#[derive(Debug)]
pub struct DeliveryRun {
    pub envelope: CapabilityRequestEnvelope,
    pub target: AppId,
    pub options: AppDeliveryOptions,
    pub session: Option<AppLinkSession>,
    pub stage: DeliveryStage,
}

/// What the host has to do next for a delivery.
#[derive(Debug, PartialEq, Eq)]
pub enum DeliveryAction {
    TryConnect,
    Activate,
    WaitForEndpoint,
    WaitForCapability,
    Transmit,
    QueryReceipt,
    Finish(Result<DeliveryReceipt, AppDeliveryError>),
}

/// What came of an event: what is told, the draft to be kept, and what is next.
#[derive(Debug)]
pub struct DeliveryStep {
    pub progress: Vec<DeliveryProgress>,
    pub draft: Option<DeliveryDraft>,
    pub action: DeliveryAction,
}

/// What a verdict asks the host to do.
pub open spec fn verdict_action(verdict: DeliveryVerdict) -> DeliveryAction {
    match verdict {
        DeliveryVerdict::Activate => DeliveryAction::Activate,
        DeliveryVerdict::AwaitEndpoint => DeliveryAction::WaitForEndpoint,
        DeliveryVerdict::AwaitCapability(_) => DeliveryAction::WaitForCapability,
        DeliveryVerdict::Transmit(_) => DeliveryAction::Transmit,
        DeliveryVerdict::QueryReceipt => DeliveryAction::QueryReceipt,
        DeliveryVerdict::Deliver(receipt) => DeliveryAction::Finish(Ok(receipt)),
        DeliveryVerdict::Fail(error) => DeliveryAction::Finish(Err(error)),
        DeliveryVerdict::Quit(error) => DeliveryAction::Finish(Err(error)),
    }
}

/// What the delivery waits for after a verdict.
pub open spec fn verdict_stage(verdict: DeliveryVerdict) -> DeliveryStage {
    match verdict {
        DeliveryVerdict::Activate => DeliveryStage::Activating,
        DeliveryVerdict::AwaitEndpoint => DeliveryStage::AwaitingEndpoint,
        DeliveryVerdict::AwaitCapability(_) => DeliveryStage::AwaitingCapability,
        DeliveryVerdict::Transmit(_) => DeliveryStage::Transmitting,
        DeliveryVerdict::QueryReceipt => DeliveryStage::QueryingReceipt,
        _ => DeliveryStage::Finished,
    }
}

/// The session that the delivery uses after a verdict.
pub open spec fn verdict_session(
    session: Option<AppLinkSession>,
    verdict: DeliveryVerdict,
) -> Option<AppLinkSession> {
    match verdict {
        DeliveryVerdict::AwaitCapability(s) => Some(s),
        DeliveryVerdict::Transmit(s) => Some(s),
        _ => session,
    }
}

/// What an event brings a delivery to.
pub open spec fn run_verdict(run: DeliveryRun, event: DeliveryEvent) -> DeliveryVerdict {
    decision(run.envelope.capability, run.options.activate_if_offline, event).verdict
}

/// A delivery after an event: it waits for something else and may use another session. Its request,
/// its target and its options stay.
pub open spec fn run_after(run: DeliveryRun, event: DeliveryEvent) -> DeliveryRun {
    DeliveryRun {
        session: verdict_session(run.session, run_verdict(run, event)),
        stage: verdict_stage(run_verdict(run, event)),
        ..run
    }
}

/// A delivery took in a row of events, each of which answered what it waited for: `runs` is how it
/// stood, from its start on.
pub open spec fn run_through(runs: Seq<DeliveryRun>, row: Seq<DeliveryEvent>) -> bool {
    &&& runs.len() == row.len() + 1
    &&& runs[0].stage == DeliveryStage::Connecting
    &&& forall|i: int|
        0 <= i < row.len() ==> expected(runs[i].stage, #[trigger] row[i]) && runs[i + 1] == run_after(
            runs[i],
            row[i],
        )
}

/// What the host is asked to do after the event at `i`.
pub open spec fn action_at(runs: Seq<DeliveryRun>, row: Seq<DeliveryEvent>, i: int) -> DeliveryAction {
    verdict_action(run_verdict(runs[i], row[i]))
}

/// How far a delivery has come.
spec fn rank(stage: DeliveryStage) -> int {
    match stage {
        DeliveryStage::Connecting => 0,
        DeliveryStage::Activating => 1,
        DeliveryStage::AwaitingEndpoint => 2,
        DeliveryStage::AwaitingCapability => 3,
        DeliveryStage::Transmitting => 4,
        DeliveryStage::QueryingReceipt => 5,
        DeliveryStage::Finished => 6,
    }
}

proof fn lemma_run_gets_on(runs: Seq<DeliveryRun>, row: Seq<DeliveryEvent>, i: int, j: int)
    requires
        run_through(runs, row),
        0 <= i <= j <= row.len(),
    ensures
        rank(runs[i].stage) + (j - i) <= rank(runs[j].stage),
        runs[j].envelope == runs[i].envelope,
        runs[j].target == runs[i].target,
        runs[j].options == runs[i].options,
    decreases j - i,
{
    if i < j {
        lemma_run_gets_on(runs, row, i, j - 1);
        let event = row[j - 1];
        assert(expected(runs[j - 1].stage, event));
        assert(runs[j - 1 + 1] == run_after(runs[j - 1], event));
    }
}

/// One delivery hands its request over at most once, whatever happens to it: where the host was
/// asked to do so, it is asked only for the receipt from there on, or to finish. The request stays
/// the one that the delivery set out with.
pub proof fn law_request_is_transmitted_at_most_once(
    runs: Seq<DeliveryRun>,
    row: Seq<DeliveryEvent>,
    first: int,
    later: int,
)
    requires
        run_through(runs, row),
        0 <= first < later < row.len(),
        action_at(runs, row, first) is Transmit,
    ensures
        !(action_at(runs, row, later) is Transmit),
        action_at(runs, row, later) is QueryReceipt || action_at(runs, row, later) is Finish,
        runs[later].envelope == runs[0].envelope,
{
    assert(runs[first + 1] == run_after(runs[first], row[first]));
    assert(runs[later + 1] == run_after(runs[later], row[later]));
    lemma_run_gets_on(runs, row, first + 1, later + 1);
    lemma_run_gets_on(runs, row, 0, later);
}

/// Every delivery comes to an end: it takes in at most six events, and finishes with none but the
/// last of them.
pub proof fn law_delivery_comes_to_an_end(
    runs: Seq<DeliveryRun>,
    row: Seq<DeliveryEvent>,
    i: int,
)
    requires
        run_through(runs, row),
        0 <= i < row.len(),
    ensures
        row.len() <= 6,
        action_at(runs, row, i) is Finish ==> i == row.len() - 1,
        action_at(runs, row, i) is Finish <==> runs[i + 1].stage == DeliveryStage::Finished,
{
    lemma_run_gets_on(runs, row, 0, row.len() as int);
    assert(runs[i + 1] == run_after(runs[i], row[i]));
    if i + 1 < row.len() {
        assert(expected(runs[i + 1].stage, row[i + 1]));
    }
}

/// `draft` is what is kept of a delivery: its request where it failed and drafts are wanted, and
/// nothing otherwise.
pub open spec fn draft_of(
    run: DeliveryRun,
    verdict: DeliveryVerdict,
    now_ms: u64,
    draft: Option<DeliveryDraft>,
) -> bool {
    if verdict is Fail && run.options.persist_on_failure {
        draft matches Some(d) && d.reason@ == types::error_words(verdict->Fail_0) && d
            == DeliveryDraft::of_envelope(run.envelope, d.reason, now_ms)
    } else {
        draft is None
    }
}

/// A delivery that was answered leaves no draft, and a draft is never marked as delivered.
pub proof fn law_drafts_are_kept_of_failures_only(
    run: DeliveryRun,
    verdict: DeliveryVerdict,
    now_ms: u64,
    draft: Option<DeliveryDraft>,
)
    requires
        draft_of(run, verdict, now_ms, draft),
    ensures
        verdict is Deliver ==> draft is None,
        verdict is Quit ==> draft is None,
        draft matches Some(d) ==> !d.delivered && d.request_id == run.envelope.request_id
            && d.payload == run.envelope.payload,
{
}

/// Unified wake-then-deliver orchestration for typed capability requests.
#[derive(Debug)]
pub struct AppDeliveryService {
    source: AppIdentity,
    drafts: DeliveryDraftStore,
    operations: OperationHistory,
}

#[verifier::ext_equal]
pub struct ServiceView {
    pub source: AppIdentity,
    pub drafts: Map<Seq<char>, DeliveryDraft>,
    pub drafts_on_disk: bool,
    pub history: HistoryView,
    pub max_terminal: nat,
}

impl View for AppDeliveryService {
    type V = ServiceView;

    closed spec fn view(&self) -> ServiceView {
        ServiceView {
            source: self.source,
            drafts: self.drafts@,
            drafts_on_disk: self.drafts.on_disk(),
            history: self.operations@,
            max_terminal: self.operations.max_terminal(),
        }
    }
}

impl AppDeliveryService {
    pub fn new(source: AppIdentity, drafts: DeliveryDraftStore) -> (service: Self)
        ensures
            service@ == (ServiceView {
                source,
                drafts: drafts@,
                drafts_on_disk: drafts.on_disk(),
                history: HistoryView { phases: Map::empty(), ended: Seq::empty(), evictions: 0 },
                max_terminal: 10_000,
            }),
    {
        AppDeliveryService::with_operation_policy(
            source,
            drafts,
            OperationHistoryPolicy::desktop_default(),
        )
    }

    pub fn with_operation_policy(
        source: AppIdentity,
        drafts: DeliveryDraftStore,
        operation_policy: OperationHistoryPolicy,
    ) -> (service: Self)
        ensures
            service@ == (ServiceView {
                source,
                drafts: drafts@,
                drafts_on_disk: drafts.on_disk(),
                history: HistoryView { phases: Map::empty(), ended: Seq::empty(), evictions: 0 },
                max_terminal: operation_policy.max_terminal_entries as nat,
            }),
    {
        AppDeliveryService { source, drafts, operations: OperationHistory::new(operation_policy) }
    }

    pub fn drafts(&self) -> (drafts: &DeliveryDraftStore)
        ensures
            drafts@ == self@.drafts,
            drafts.on_disk() == self@.drafts_on_disk,
    {
        &self.drafts
    }

    /// Keeps the draft of a delivery, as a store of drafts does.
    pub fn keep_draft(&mut self, draft: DeliveryDraft, file_written: bool) -> (kept: bool)
        requires
            !draft.delivered,
        ensures
            kept == (!old(self)@.drafts_on_disk || file_written),
            final(self)@ == (ServiceView {
                drafts: if kept {
                    old(self)@.drafts.insert(draft.request_id@, draft)
                } else {
                    old(self)@.drafts
                },
                ..old(self)@
            }),
    {
        self.drafts.save(draft, file_written)
    }

    /// Notes a phase of a delivery, and says how it is told.
    fn note_phase(
        &mut self,
        request_id: &String,
        target: &str,
        phase: DeliveryPhase,
        error: Option<&AppDeliveryError>,
        progress: &mut Vec<DeliveryProgress>,
    )
        ensures
            final(self)@ == (ServiceView {
                history: operation_history::phase_recorded(
                    old(self)@.history,
                    old(self)@.max_terminal,
                    request_id@,
                    phase,
                ),
                ..old(self)@
            }),
            final(progress).len() == old(progress).len() + 1,
            final(progress)@.drop_last() == old(progress)@,
            final(progress)@.last()@ == progress_told(
                request_id@,
                target@,
                PhaseNote {
                    phase,
                    error: match error {
                        Some(e) => Some(*e),
                        None => None,
                    },
                },
            ),
    {
        self.operations.record(request_id.clone(), phase);
        progress.push(
            DeliveryProgress {
                request_id: request_id.clone(),
                target_app: target.to_owned(),
                phase: phase.as_str().to_owned(),
                error: match error {
                    Some(e) => Some(e.message()),
                    None => None,
                },
                error_kind: match error {
                    Some(e) => Some(e.kind_name().to_owned()),
                    None => None,
                },
            },
        );
        assert(progress@.drop_last() =~= old(progress)@);
    }

    /// Sets out to deliver a request. A request without an identifier gets a new one.
    pub fn request_app(
        &mut self,
        target: AppId,
        capability: CapabilityDescriptor,
        payload: serde_json::Value,
        options: AppDeliveryOptions,
    ) -> (begun: (DeliveryRun, DeliveryStep))
        ensures
            ({
                let run = begun.0;
                let step = begun.1;
                let notes = seq![PhaseNote { phase: DeliveryPhase::Connecting, error: None }];
                &&& match options.request_id {
                    Some(id) => run.envelope.request_id == id,
                    None => ids::id_shape(run.envelope.request_id@),
                }
                &&& run.envelope.source@ == old(self)@.source.app_id@
                &&& run.envelope.target@ == target@
                &&& run.envelope.capability == capability
                &&& run.envelope.payload == payload
                &&& run.target == target
                &&& run.options == options
                &&& run.session is None
                &&& run.stage == DeliveryStage::Connecting
                &&& progress_views(step.progress@) == progress_row(
                    run.envelope.request_id@,
                    target@,
                    notes,
                )
                &&& step.draft is None
                &&& step.action == DeliveryAction::TryConnect
                &&& final(self)@ == (ServiceView {
                    history: phases_recorded(
                        old(self)@.history,
                        old(self)@.max_terminal,
                        run.envelope.request_id@,
                        notes,
                    ),
                    ..old(self)@
                })
            }),
    {
        let request_id = match &options.request_id {
            Some(id) => id.clone(),
            None => ids::fresh_id(),
        };
        let envelope = CapabilityRequestEnvelope::new(
            request_id,
            self.source.app_id.as_str().to_owned(),
            target.as_str().to_owned(),
            capability,
            payload,
        );
        let mut progress: Vec<DeliveryProgress> = Vec::new();
        self.note_phase(
            &envelope.request_id,
            target.as_str(),
            DeliveryPhase::Connecting,
            None,
            &mut progress,
        );
        proof {
            let notes = seq![PhaseNote { phase: DeliveryPhase::Connecting, error: None }];
            assert(notes.drop_last() =~= Seq::empty());
            assert(progress_views(progress@) =~= progress_row(
                envelope.request_id@,
                target@,
                notes,
            ));
            reveal_with_fuel(phases_recorded, 2);
        }
        (
            DeliveryRun {
                envelope,
                target,
                options,
                session: None,
                stage: DeliveryStage::Connecting,
            },
            DeliveryStep { progress, draft: None, action: DeliveryAction::TryConnect },
        )
    }

    /// Takes in what happened to what a delivery waited for.
    pub fn advance(&mut self, run: &mut DeliveryRun, event: DeliveryEvent, now_ms: u64) -> (step:
        DeliveryStep)
        requires
            expected(old(run).stage, event),
        ensures
            ({
                let decided = decision(
                    old(run).envelope.capability,
                    old(run).options.activate_if_offline,
                    event,
                );
                let notes = decision_phases(decided, old(run).options.persist_on_failure);
                &&& *final(run) == run_after(*old(run), event)
                &&& step.action == verdict_action(decided.verdict)
                &&& draft_of(*old(run), decided.verdict, now_ms, step.draft)
                &&& progress_views(step.progress@) == progress_row(
                    old(run).envelope.request_id@,
                    old(run).target@,
                    notes,
                )
                &&& final(self)@ == (ServiceView {
                    history: phases_recorded(
                        old(self)@.history,
                        old(self)@.max_terminal,
                        old(run).envelope.request_id@,
                        notes,
                    ),
                    ..old(self)@
                })
            }),
            answer_of(event) matches Some(receipt) ==> {
                &&& step.action == DeliveryAction::Finish(Ok(receipt))
                &&& step.draft is None
                &&& step.progress.len() == 1
                &&& step.progress[0].request_id@ == old(run).envelope.request_id@
                &&& step.progress[0].target_app@ == old(run).target@
                &&& step.progress[0].phase@ == match receipt {
                    DeliveryReceipt::Accepted { .. } | DeliveryReceipt::Duplicate { .. } =>
                        "accepted"@,
                    DeliveryReceipt::Completed { .. } => "completed"@,
                    DeliveryReceipt::Rejected { .. } | DeliveryReceipt::Failed { .. } =>
                        "delivery_failed"@,
                }
            },
    {
        let ghost before = self@;
        let ghost request = run.envelope.request_id@;
        let ghost target = run.target@;
        let ghost persist = run.options.persist_on_failure;
        let ghost expectation = decision(
            run.envelope.capability,
            run.options.activate_if_offline,
            event,
        );
        let decided = decide(&run.envelope.capability, run.options.activate_if_offline, event);
        let ghost plain = decided.phases@.map_values(
            |phase: DeliveryPhase| PhaseNote { phase, error: None },
        );
        let mut progress: Vec<DeliveryProgress> = Vec::new();
        assert(plain.take(0) =~= Seq::empty());
        assert(progress_views(progress@) =~= progress_row(request, target, plain.take(0)));
        let mut i: usize = 0;
        while i < decided.phases.len()
            invariant
                i <= decided.phases.len(),
                request == run.envelope.request_id@,
                target == run.target@,
                *run == *old(run),
                plain == decided.phases@.map_values(
                    |phase: DeliveryPhase| PhaseNote { phase, error: None },
                ),
                progress_views(progress@) == progress_row(request, target, plain.take(i as int)),
                self@ == (ServiceView {
                    history: phases_recorded(
                        before.history,
                        before.max_terminal,
                        request,
                        plain.take(i as int),
                    ),
                    ..before
                }),
            decreases decided.phases.len() - i,
        {
            let ghost told = progress@;
            let phase = decided.phases[i];
            self.note_phase(
                &run.envelope.request_id,
                run.target.as_str(),
                phase,
                None,
                &mut progress,
            );
            proof {
                lemma_progress_grows(
                    request,
                    target,
                    plain.take(i as int),
                    plain[i as int],
                    told,
                    progress@,
                );
                lemma_recorded_grows(
                    before.history,
                    before.max_terminal,
                    request,
                    plain.take(i as int),
                    plain[i as int],
                );
                assert(plain.take(i + 1) =~= plain.take(i as int).push(plain[i as int]));
            }
            i = i + 1;
        }
        assert(plain.take(i as int) =~= plain);
        let mut draft: Option<DeliveryDraft> = None;
        let action = match decided.verdict {
            DeliveryVerdict::Activate => {
                run.stage = DeliveryStage::Activating;
                DeliveryAction::Activate
            },
            DeliveryVerdict::AwaitEndpoint => {
                run.stage = DeliveryStage::AwaitingEndpoint;
                DeliveryAction::WaitForEndpoint
            },
            DeliveryVerdict::AwaitCapability(session) => {
                run.session = Some(session);
                run.stage = DeliveryStage::AwaitingCapability;
                DeliveryAction::WaitForCapability
            },
            DeliveryVerdict::Transmit(session) => {
                run.session = Some(session);
                run.stage = DeliveryStage::Transmitting;
                DeliveryAction::Transmit
            },
            DeliveryVerdict::QueryReceipt => {
                run.stage = DeliveryStage::QueryingReceipt;
                DeliveryAction::QueryReceipt
            },
            DeliveryVerdict::Deliver(receipt) => {
                run.stage = DeliveryStage::Finished;
                let phase = phase_of_receipt(&receipt);
                let ghost told = progress@;
                self.note_phase(
                    &run.envelope.request_id,
                    run.target.as_str(),
                    phase,
                    None,
                    &mut progress,
                );
                proof {
                    let note = PhaseNote { phase, error: None };
                    lemma_progress_grows(request, target, plain, note, told, progress@);
                    lemma_recorded_grows(before.history, before.max_terminal, request, plain, note);
                    assert(decision_phases(expectation, persist) =~= plain.push(note));
                }
                DeliveryAction::Finish(Ok(receipt))
            },
            DeliveryVerdict::Fail(error) => {
                run.stage = DeliveryStage::Finished;
                let ghost mut notes = plain;
                if run.options.persist_on_failure {
                    draft = Some(
                        DeliveryDraft::from_envelope(&run.envelope, error.message(), now_ms),
                    );
                    let ghost told = progress@;
                    self.note_phase(
                        &run.envelope.request_id,
                        run.target.as_str(),
                        DeliveryPhase::DraftSaved,
                        Some(&error),
                        &mut progress,
                    );
                    proof {
                        let note = PhaseNote {
                            phase: DeliveryPhase::DraftSaved,
                            error: Some(error),
                        };
                        lemma_progress_grows(request, target, notes, note, told, progress@);
                        lemma_recorded_grows(before.history, before.max_terminal, request, notes, note);
                        notes = notes.push(note);
                    }
                }
                let ghost told = progress@;
                self.note_phase(
                    &run.envelope.request_id,
                    run.target.as_str(),
                    DeliveryPhase::DeliveryFailed,
                    Some(&error),
                    &mut progress,
                );
                proof {
                    let note = PhaseNote {
                        phase: DeliveryPhase::DeliveryFailed,
                        error: Some(error),
                    };
                    lemma_progress_grows(request, target, notes, note, told, progress@);
                    lemma_recorded_grows(before.history, before.max_terminal, request, notes, note);
                    assert(decision_phases(expectation, persist) =~= notes.push(note));
                }
                DeliveryAction::Finish(Err(error))
            },
            DeliveryVerdict::Quit(error) => {
                run.stage = DeliveryStage::Finished;
                DeliveryAction::Finish(Err(error))
            },
        };
        assert(expectation.verdict is Deliver || expectation.verdict is Fail || decision_phases(
            expectation,
            persist,
        ) =~= plain);
        proof {
            if let Some(receipt) = answer_of(event) {
                assert(plain.len() == 0);
                assert(progress_views(progress@).len() == progress.len());
                assert(progress_views(progress@)[0] == progress@[0]@);
            }
        }
        DeliveryStep { progress, draft, action }
    }

    /// How far a delivery has come.
    pub fn phase_for(&self, request_id: &str) -> (phase: Option<DeliveryPhase>)
        ensures
            match phase {
                Some(p) => self@.history.phases.contains_key(request_id@) && p
                    == self@.history.phases[request_id@],
                None => !self@.history.phases.contains_key(request_id@),
            },
    {
        self.operations.phase_for(request_id)
    }

    pub fn operation_stats(&self) -> (stats: OperationHistoryStats)
        ensures
            stats.entries == self@.history.phases.len(),
            stats.terminal_entries == self@.history.ended.len(),
            operation_history::within(self@.history, self@.max_terminal),
            stats.evictions == self@.history.evictions,
    {
        self.operations.stats()
    }
}

proof fn lemma_progress_grows(
    request: Seq<char>,
    target: Seq<char>,
    notes: Seq<PhaseNote>,
    note: PhaseNote,
    before: Seq<DeliveryProgress>,
    after: Seq<DeliveryProgress>,
)
    requires
        progress_views(before) == progress_row(request, target, notes),
        after.len() == before.len() + 1,
        after.drop_last() == before,
        after.last()@ == progress_told(request, target, note),
    ensures
        progress_views(after) == progress_row(request, target, notes.push(note)),
{
    assert(after =~= before.push(after.last()));
    assert(progress_views(after) =~= progress_views(before).push(after.last()@));
    assert(progress_row(request, target, notes.push(note)) =~= progress_row(
        request,
        target,
        notes,
    ).push(progress_told(request, target, note)));
}

proof fn lemma_recorded_grows(
    v: HistoryView,
    max: nat,
    request: Seq<char>,
    notes: Seq<PhaseNote>,
    note: PhaseNote,
)
    ensures
        phases_recorded(v, max, request, notes.push(note)) == operation_history::phase_recorded(
            phases_recorded(v, max, request, notes),
            max,
            request,
            note.phase,
        ),
{
    assert(notes.push(note).drop_last() =~= notes);
}

/// What a caller does that waits for the endpoint of a target.
#[derive(Debug, PartialEq, Eq)]
pub enum EndpointPoll {
    Finish(Result<AppLinkSession, AppDeliveryError>),
    /// Pause, then try again.
    Pause,
}

/// Whether a caller that waits for an endpoint goes on, before it tries to connect: a delivery
/// that was cancelled does not.
pub fn before_connect(cancelled: bool) -> (refused: Option<AppDeliveryError>)
    ensures
        refused == if cancelled {
            Some(AppDeliveryError::Cancelled)
        } else {
            None
        },
{
    if cancelled {
        Some(AppDeliveryError::Cancelled)
    } else {
        None
    }
}

/// What a caller that waits for an endpoint does after it tried to connect: an endpoint that is
/// not there yet is tried again until the time is up.
pub fn after_connect(
    attempt: Result<AppLinkSession, AppDeliveryError>,
    elapsed_ns: u128,
    timeout_ns: u128,
) -> (poll: EndpointPoll)
    ensures
        poll == match attempt {
            Ok(session) => EndpointPoll::Finish(Ok(session)),
            Err(error) => if error == AppDeliveryError::EndpointUnavailable {
                if elapsed_ns >= timeout_ns {
                    EndpointPoll::Finish(Err(AppDeliveryError::ReadyTimeout))
                } else {
                    EndpointPoll::Pause
                }
            } else {
                EndpointPoll::Finish(Err(error))
            },
        },
{
    match attempt {
        Ok(session) => EndpointPoll::Finish(Ok(session)),
        Err(AppDeliveryError::EndpointUnavailable) => {
            if elapsed_ns >= timeout_ns {
                EndpointPoll::Finish(Err(AppDeliveryError::ReadyTimeout))
            } else {
                EndpointPoll::Pause
            }
        },
        Err(error) => EndpointPoll::Finish(Err(error)),
    }
}

/// The names that are told of a row of phases.
pub open spec fn names_told(row: Seq<DeliveryProgressView>) -> Seq<Seq<char>> {
    row.map_values(|told: DeliveryProgressView| told.phase)
}

/// What an event makes of a delivery: the phases that are told.
pub open spec fn told_of(run: DeliveryRun, event: DeliveryEvent) -> Seq<DeliveryProgressView> {
    progress_row(
        run.envelope.request_id@,
        run.target@,
        decision_phases(
            decision(run.envelope.capability, run.options.activate_if_offline, event),
            run.options.persist_on_failure,
        ),
    )
}

/// What an event makes of a history.
pub open spec fn history_after(
    v: HistoryView,
    max: nat,
    run: DeliveryRun,
    event: DeliveryEvent,
) -> HistoryView {
    phases_recorded(
        v,
        max,
        run.envelope.request_id@,
        decision_phases(
            decision(run.envelope.capability, run.options.activate_if_offline, event),
            run.options.persist_on_failure,
        ),
    )
}

/// What the host is asked to do after an event.
pub open spec fn action_after(run: DeliveryRun, event: DeliveryEvent) -> DeliveryAction {
    verdict_action(run_verdict(run, event))
}

proof fn lemma_recording_keeps_within(
    v: HistoryView,
    max: nat,
    request: Seq<char>,
    notes: Seq<PhaseNote>,
)
    requires
        operation_history::within(v, max),
    ensures
        operation_history::within(phases_recorded(v, max, request, notes), max),
    decreases notes.len(),
{
    if notes.len() > 0 {
        lemma_recording_keeps_within(v, max, request, notes.drop_last());
        operation_history::law_recording_keeps_the_bound(
            phases_recorded(v, max, request, notes.drop_last()),
            max,
            request,
            notes.last().phase,
        );
    }
}

/// The history shows the phase that was told last.
pub proof fn law_history_shows_what_was_told_last(
    v: HistoryView,
    max: nat,
    run: DeliveryRun,
    event: DeliveryEvent,
)
    requires
        operation_history::within(v, max),
        max > 0,
        told_of(run, event).len() > 0,
    ensures
        ({
            let after = history_after(v, max, run, event);
            &&& operation_history::within(after, max)
            &&& after.phases.contains_key(run.envelope.request_id@)
            &&& types::phase_name(after.phases[run.envelope.request_id@]) == told_of(
                run,
                event,
            ).last().phase
        }),
{
    let request = run.envelope.request_id@;
    let notes = decision_phases(
        decision(run.envelope.capability, run.options.activate_if_offline, event),
        run.options.persist_on_failure,
    );
    lemma_recording_keeps_within(v, max, request, notes);
    lemma_recording_keeps_within(v, max, request, notes.drop_last());
    operation_history::law_recorded_phase_is_found(
        phases_recorded(v, max, request, notes.drop_last()),
        max,
        request,
        notes.last().phase,
    );
}

/// A delivery that was answered is told and remembered as what the receipt says: as accepted where
/// the receipt accepts the request or says that it came before, as completed where it completes
/// it, and as failed where it rejects the request or says that it failed.
pub proof fn law_answered_delivery_is_told_as_its_receipt(
    v: HistoryView,
    max: nat,
    run: DeliveryRun,
    event: DeliveryEvent,
    receipt: DeliveryReceipt,
)
    requires
        operation_history::within(v, max),
        max > 0,
        event == DeliveryEvent::Transmitted(Some(Ok(receipt))) || event == DeliveryEvent::Queried(
            Ok(Some(receipt)),
        ),
    ensures
        action_after(run, event) == DeliveryAction::Finish(Ok(receipt)),
        run_after(run, event).stage is Finished,
        ({
            let told = told_of(run, event);
            let after = history_after(v, max, run, event);
            let request = run.envelope.request_id@;
            &&& told.len() == 1
            &&& told.last().request_id == request
            &&& told.last().target_app == run.target@
            &&& told.last().error is None
            &&& told.last().error_kind is None
            &&& told.last().phase == "accepted"@ <==> receipt is Accepted || receipt is Duplicate
            &&& told.last().phase == "completed"@ <==> receipt is Completed
            &&& told.last().phase == "delivery_failed"@ <==> receipt is Rejected || receipt is Failed
            &&& after.phases.contains_key(request)
            &&& after.phases[request] is Accepted <==> receipt is Accepted || receipt is Duplicate
            &&& after.phases[request] is Completed <==> receipt is Completed
            &&& after.phases[request] is DeliveryFailed <==> receipt is Rejected || receipt is Failed
        }),
{
    reveal_strlit("accepted");
    assert("accepted"@.len() == 8);
    reveal_strlit("completed");
    assert("completed"@.len() == 9);
    reveal_strlit("delivery_failed");
    assert("delivery_failed"@.len() == 15);
    let request = run.envelope.request_id@;
    let decided = decision(run.envelope.capability, run.options.activate_if_offline, event);
    let notes = decision_phases(decided, run.options.persist_on_failure);
    let last = PhaseNote { phase: receipt_phase(receipt), error: None };
    assert(notes =~= seq![last]);
    assert(notes.drop_last() =~= Seq::empty());
    reveal_with_fuel(phases_recorded, 2);
    operation_history::law_recorded_phase_is_found(v, max, request, receipt_phase(receipt));
}

/// An error that ends a delivery reaches the caller as it is: that of the connection, unless the
/// target is off and is to be started, and that of every later wait, of the transmission and of
/// the question for the receipt.
pub proof fn law_error_reaches_the_caller(
    run: DeliveryRun,
    event: DeliveryEvent,
    error: AppDeliveryError,
)
    requires
        ({
            ||| event == DeliveryEvent::Connected(Err(error)) && !(error is EndpointUnavailable
                && run.options.activate_if_offline)
            ||| event == DeliveryEvent::EndpointAwaited(Err(error))
            ||| event == DeliveryEvent::CapabilityAwaited(Err(error))
            ||| event == DeliveryEvent::Transmitted(Some(Err(error)))
            ||| event == DeliveryEvent::Queried(Err(error))
        }),
    ensures
        action_after(run, event) == DeliveryAction::Finish(Err(error)),
        run_after(run, event).stage is Finished,
        run_after(run, event).session == run.session,
{
}

/// A delivery that fails is told so with the error in words and its kind, and remembered so; that a
/// draft was saved is told before, exactly where drafts are wanted. A target that could not be
/// started, or did not show up once it was, is told of by the caller alone.
pub proof fn law_failure_is_told(
    v: HistoryView,
    max: nat,
    run: DeliveryRun,
    event: DeliveryEvent,
    error: AppDeliveryError,
)
    requires
        operation_history::within(v, max),
        max > 0,
        action_after(run, event) == DeliveryAction::Finish(Err(error)),
    ensures
        ({
            let told = told_of(run, event);
            let after = history_after(v, max, run, event);
            let request = run.envelope.request_id@;
            let quits = event is Activated || event matches DeliveryEvent::EndpointAwaited(Err(_));
            &&& quits ==> told.len() == 0 && after == v
            &&& !quits ==> {
                &&& told.len() > 0
                &&& told.last().request_id == request
                &&& told.last().target_app == run.target@
                &&& told.last().phase == "delivery_failed"@
                &&& told.last().error == Some(types::error_words(error))
                &&& told.last().error_kind == Some(types::error_kind(error))
                &&& after.phases.contains_key(request)
                &&& after.phases[request] is DeliveryFailed
                &&& run.options.persist_on_failure <==> names_told(told).contains("draft_saved"@)
                &&& run.options.persist_on_failure ==> told.len() >= 2 && told[told.len() - 2]
                    == (DeliveryProgressView { phase: "draft_saved"@, ..told.last() })
            }
        }),
{
    reveal_strlit("draft_saved");
    assert("draft_saved"@.len() == 11);
    reveal_strlit("delivery_failed");
    assert("delivery_failed"@.len() == 15);
    reveal_strlit("target_ready");
    assert("target_ready"@.len() == 12);
    let request = run.envelope.request_id@;
    let decided = decision(run.envelope.capability, run.options.activate_if_offline, event);
    let persist = run.options.persist_on_failure;
    let notes = decision_phases(decided, persist);
    let told = told_of(run, event);
    let quits = event is Activated || event matches DeliveryEvent::EndpointAwaited(Err(_));
    if quits {
        assert(notes =~= Seq::empty());
        assert(told =~= Seq::empty());
    } else {
        assert(decided.verdict == DeliveryVerdict::Fail(error));
        let last = PhaseNote { phase: DeliveryPhase::DeliveryFailed, error: Some(error) };
        assert(notes.last() == last);
        assert(told.last() == progress_told(request, run.target@, last));
        lemma_recording_keeps_within(v, max, request, notes.drop_last());
        operation_history::law_recorded_phase_is_found(
            phases_recorded(v, max, request, notes.drop_last()),
            max,
            request,
            DeliveryPhase::DeliveryFailed,
        );
        if persist {
            assert(notes[notes.len() - 2] == (PhaseNote {
                phase: DeliveryPhase::DraftSaved,
                error: Some(error),
            }));
            assert(names_told(told)[told.len() - 2] == "draft_saved"@);
        } else {
            assert forall|i: int| 0 <= i < told.len() implies names_told(told)[i]
                != "draft_saved"@ by {
                assert(told[i].phase == types::phase_name(notes[i].phase));
            }
        }
    }
}

/// What is kept of a delivery that failed is its request, whole, with the time, and with the error
/// in words as the reason; it never counts as delivered.
pub proof fn law_draft_holds_the_request(
    run: DeliveryRun,
    event: DeliveryEvent,
    now_ms: u64,
    draft: Option<DeliveryDraft>,
)
    requires
        draft_of(run, run_verdict(run, event), now_ms, draft),
    ensures
        draft is Some <==> run.options.persist_on_failure && (action_after(run, event) matches
            DeliveryAction::Finish(Err(_))) && !(event is Activated) && !(event matches
            DeliveryEvent::EndpointAwaited(Err(_))),
        draft matches Some(d) ==> {
            &&& d.request_id == run.envelope.request_id
            &&& d.source_app == run.envelope.source
            &&& d.target_app == run.envelope.target
            &&& d.capability == run.envelope.capability
            &&& d.payload == run.envelope.payload
            &&& d.saved_at_unix_ms == now_ms
            &&& !d.delivered
            &&& action_after(run, event) matches DeliveryAction::Finish(Err(error)) && d.reason@
                == types::error_words(error)
        },
{
}

/// A target that is off is started where the caller wants that, and its endpoint is awaited once it
/// was; a start that failed ends the delivery with what stood in its way.
pub proof fn law_target_that_is_off_is_started(run: DeliveryRun, error: ActivationError)
    requires
        run.options.activate_if_offline,
    ensures
        ({
            let off = DeliveryEvent::Connected(Err(AppDeliveryError::EndpointUnavailable));
            &&& action_after(run, off) is Activate
            &&& run_after(run, off).stage is Activating
            &&& names_told(told_of(run, off)) == seq!["target_activating"@]
        }),
        ({
            let started = DeliveryEvent::Activated(Ok(()));
            &&& action_after(run, started) is WaitForEndpoint
            &&& run_after(run, started).stage is AwaitingEndpoint
            &&& told_of(run, started).len() == 0
        }),
        ({
            let failed = DeliveryEvent::Activated(Err(error));
            &&& error is AppNotInstalled ==> action_after(run, failed) == DeliveryAction::Finish(
                Err(AppDeliveryError::AppNotInstalled),
            )
            &&& error matches ActivationError::ActivationFailed(message) ==> action_after(
                run,
                failed,
            ) == DeliveryAction::Finish(Err(AppDeliveryError::ActivationFailed { message }))
        }),
{
    let off = DeliveryEvent::Connected(Err(AppDeliveryError::EndpointUnavailable));
    assert(names_told(told_of(run, off)) =~= seq!["target_activating"@]);
}

/// A target that is connected is handed the request at once where its host speaks this protocol and
/// it offers the capability; it is waited for where it does not offer it yet, and refused where its
/// host speaks another protocol. It makes no difference whether it had to be started.
pub proof fn law_connected_target_is_handed_the_request(run: DeliveryRun, session: AppLinkSession)
    ensures
        ({
            let connected = DeliveryEvent::Connected(Ok(session));
            let awaited = DeliveryEvent::EndpointAwaited(Ok(session));
            let offered = transport::offers(session.capabilities@, run.envelope.capability@);
            &&& action_after(run, awaited) == action_after(run, connected)
            &&& run_after(run, awaited) == run_after(run, connected)
            &&& told_of(run, awaited) == told_of(run, connected)
            &&& session.host_protocol_version != 1 ==> action_after(run, connected)
                == DeliveryAction::Finish(Err(AppDeliveryError::ProtocolIncompatible))
            &&& session.host_protocol_version == 1 && offered ==> {
                &&& action_after(run, connected) is Transmit
                &&& run_after(run, connected).session == Some(session)
                &&& names_told(told_of(run, connected)) == seq![
                    "negotiating"@,
                    "target_ready"@,
                    "transmitting"@,
                ]
            }
            &&& session.host_protocol_version == 1 && !offered ==> {
                &&& action_after(run, connected) is WaitForCapability
                &&& run_after(run, connected).session == Some(session)
                &&& names_told(told_of(run, connected)) == seq!["negotiating"@]
            }
        }),
{
    let connected = DeliveryEvent::Connected(Ok(session));
    let awaited = DeliveryEvent::EndpointAwaited(Ok(session));
    let offered = transport::offers(session.capabilities@, run.envelope.capability@);
    assert(told_of(run, awaited) =~= told_of(run, connected));
    if session.host_protocol_version == 1 && offered {
        assert(names_told(told_of(run, connected)) =~= seq![
            "negotiating"@,
            "target_ready"@,
            "transmitting"@,
        ]);
    }
    if session.host_protocol_version == 1 && !offered {
        assert(names_told(told_of(run, connected)) =~= seq!["negotiating"@]);
    }
}

/// Once the wait for the capability is over, the request is handed over where the target offers it,
/// and the delivery fails with what is missing otherwise: another version of the capability, or the
/// capability itself.
pub proof fn law_awaited_capability_is_used(run: DeliveryRun, session: AppLinkSession)
    ensures
        ({
            let ready = DeliveryEvent::CapabilityAwaited(Ok(session));
            let wanted = run.envelope.capability@;
            let offered = transport::offers(session.capabilities@, wanted);
            let named = transport::offers_name(session.capabilities@, wanted);
            &&& offered ==> {
                &&& action_after(run, ready) is Transmit
                &&& run_after(run, ready).session == Some(session)
                &&& names_told(told_of(run, ready)) == seq!["target_ready"@, "transmitting"@]
            }
            &&& !offered && named ==> action_after(run, ready) == DeliveryAction::Finish(
                Err(AppDeliveryError::ProtocolIncompatible),
            )
            &&& !offered && !named ==> action_after(run, ready) == DeliveryAction::Finish(
                Err(AppDeliveryError::CapabilityUnavailable),
            )
        }),
{
    let ready = DeliveryEvent::CapabilityAwaited(Ok(session));
    if transport::offers(session.capabilities@, run.envelope.capability@) {
        assert(names_told(told_of(run, ready)) =~= seq!["target_ready"@, "transmitting"@]);
    }
}

/// A request whose receipt did not come in time is not sent again: the target is asked for the
/// receipt, and the delivery fails where it has none.
pub proof fn law_missing_receipt_is_asked_for(run: DeliveryRun)
    ensures
        action_after(run, DeliveryEvent::Transmitted(None)) is QueryReceipt,
        run_after(run, DeliveryEvent::Transmitted(None)) == (DeliveryRun {
            stage: DeliveryStage::QueryingReceipt,
            ..run
        }),
        told_of(run, DeliveryEvent::Transmitted(None)).len() == 0,
        action_after(run, DeliveryEvent::Queried(Ok(None))) == DeliveryAction::Finish(
            Err(AppDeliveryError::ReceiptTimeout),
        ),
{
}

/// A delivery waits for the answer to what the host was asked to do, and for nothing else.
pub proof fn law_delivery_waits_for_what_it_asked(
    run: DeliveryRun,
    event: DeliveryEvent,
    next: DeliveryEvent,
)
    ensures
        expected(run_after(run, event).stage, next) <==> match action_after(run, event) {
            DeliveryAction::TryConnect => next is Connected,
            DeliveryAction::Activate => next is Activated,
            DeliveryAction::WaitForEndpoint => next is EndpointAwaited,
            DeliveryAction::WaitForCapability => next is CapabilityAwaited,
            DeliveryAction::Transmit => next is Transmitted,
            DeliveryAction::QueryReceipt => next is Queried,
            DeliveryAction::Finish(_) => false,
        },
        expected(DeliveryStage::Connecting, next) <==> next is Connected,
        run_after(run, event).envelope == run.envelope,
        run_after(run, event).target == run.target,
        run_after(run, event).options == run.options,
{
}

} // verus!
