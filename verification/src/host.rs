//! The embedded host: what it answers to the frontend and what it does with what the runtime says.
use crate::approval::ApprovalBridge;
use crate::approval;
use crate::bridge::{
    ApprovalAttribution, ApprovalDecision, ApprovalRequest, ApprovalResponse, FrontendContext,
    FrontendTaskResult, HostStatus, PluginSummary, PluginSummaryView, PreviewHandle, ResourceBytes,
    ResourceChunk, ResourceText, RunnerSummary, RunnerSummaryView, RuntimeHealth, RuntimeHealthView,
    TaskCancelRequest, TaskResultRequest,
};
use crate::bridge;
use crate::builder::MutsukiTauriHostBuilder;
use crate::builder;
use crate::config::{ConfigView, MutsukiTauriConfig};
use crate::config;
use crate::contracts::{
    ERR_RUNNER_NOT_FOUND, HostTaskSnapshot, HostTaskState, ResourceRef, ResourceSemantic,
    RuntimeError, RuntimeErrorView, TaskBatch, TaskHandle,
};
use crate::error::{HostError, HostResult};
use crate::events::{EventHub, FrontendEventView, HubView, MutsukiFrontendEvent};
use crate::events;
use crate::health::{
    HealthView, HostHealthState, failed_runtime_health, runtime_health_from_snapshots,
};
use crate::health;
use crate::ids;
use crate::json::JsonValue;
use crate::observe;
use crate::ordered_map::OrderedMap;
use crate::redact;
use crate::resource::error::ResourceBridgeError;
use crate::resource::import_export;
use crate::resource::preview::TokenView;
use crate::resource::preview;
use crate::resource::provider::{
    BlobPlan, ChunkPlan, EntryView, ProviderView, ResourceEntry, text_of,
};
use crate::resource::provider;
use crate::resource::store::TauriResourceStore;
use crate::status;
use crate::supervision::SupervisorView;
use crate::supervision;
use crate::supervisor::TaskSupervisor;
use crate::supervisor;
use crate::text;
use vstd::prelude::*;
use vstd::string::*;

verus! {

broadcast use vstd::string::group_string_axioms;

/// The largest body, or piece of a body, that is handed to the frontend in one answer.
pub const MAX_RESOURCE_INVOKE_BYTES: usize = 65_536;

/// The embedded host without the runtime it drives.
#[derive(Debug)]
pub struct MutsukiTauriHost {
    pub config: MutsukiTauriConfig,
    pub resources: TauriResourceStore,
    pub events: EventHub,
    pub tasks: TaskSupervisor,
    pub approvals: ApprovalBridge,
    pub health: HostHealthState,
    pub plugins: Vec<PluginSummary>,
    pub runners: Vec<RunnerSummary>,
    pub active_protocols: OrderedMap<bool>,
}

#[verifier::ext_equal]
pub struct HostView {
    pub config: ConfigView,
    pub provider: ProviderView,
    pub previews: Map<Seq<char>, TokenView>,
    pub hub: HubView,
    pub tasks: SupervisorView,
    pub per_task: nat,
    pub total: nat,
    pub approvals: Map<Seq<char>, ApprovalRequest>,
    pub health: HealthView,
    pub plugins: Seq<PluginSummaryView>,
    pub runners: Seq<RunnerSummaryView>,
    pub protocols: Set<Seq<char>>,
}

impl View for MutsukiTauriHost {
    type V = HostView;

    open spec fn view(&self) -> HostView {
        HostView {
            config: self.config@,
            provider: self.resources.provider@,
            previews: self.resources.preview@,
            hub: self.events.story(),
            tasks: self.tasks@,
            per_task: self.tasks.per_task(),
            total: self.tasks.total(),
            approvals: self.approvals@,
            health: self.health@,
            plugins: bridge::plugin_views(self.plugins@),
            runners: bridge::runner_views(self.runners@),
            protocols: self.active_protocols@.dom(),
        }
    }
}

/// What the runtime answers to a command.
#[derive(Debug, PartialEq, Eq)]
pub enum RuntimeReply {
    TaskSubmitted(TaskHandle),
    TaskBatchSubmitted(Vec<TaskHandle>),
    TaskCancelled(TaskHandle),
    Other,
}

/// What the runtime refuses a command with: its error, and that error written out in full.
#[derive(Debug, PartialEq, Eq)]
pub struct RuntimeRefusal {
    pub error: RuntimeError,
    pub shown: String,
}

/// The host went from `before` to `after` when it noted an error and told of it.
pub open spec fn error_logged(
    before: HostView,
    after: HostView,
    target: Seq<char>,
    message: Seq<char>,
    error: Seq<char>,
    now: i64,
) -> bool {
    &&& after == (HostView {
        hub: after.hub,
        health: health::error_noted(
            before.health,
            health::host_error(target, message + ": "@ + error, now),
        ),
        ..before
    })
    &&& events::tried(
        before.hub,
        after.hub,
        FrontendEventView::Log { record: observe::error_line(target, message, error, now) },
    )
}

/// The host went from `before` to `after` when it told of an event and changed nothing else.
pub open spec fn only_told(before: HostView, after: HostView, event: FrontendEventView) -> bool {
    &&& after == (HostView { hub: after.hub, ..before })
    &&& events::tried(before.hub, after.hub, event)
}

/// How the runtime is doing, given what it answered when it was asked for its tasks.
pub open spec fn runtime_now(probe: Result<Vec<HostTaskSnapshot>, String>) -> RuntimeHealthView {
    match probe {
        Ok(snapshots) => RuntimeHealthView {
            healthy: true,
            status: "running"@,
            active_tasks: health::active_snapshots(snapshots@).len(),
            failed_tasks: health::failed_snapshots(snapshots@).len(),
            error: None,
        },
        Err(message) => RuntimeHealthView {
            healthy: false,
            status: "failed"@,
            active_tasks: 0,
            failed_tasks: 0,
            error: Some(message@),
        },
    }
}

/// The state of health once the runtime was asked for its tasks.
pub open spec fn probed(
    before: HealthView,
    probe: Result<Vec<HostTaskSnapshot>, String>,
    now: i64,
) -> HealthView {
    match probe {
        Ok(_) => before,
        Err(message) => health::error_noted(
            before,
            health::host_error("mutsuki_tauri_host.runtime"@, message@, now),
        ),
    }
}

/// `glance` is the host at a glance, in the state `v`.
pub open spec fn at_a_glance(v: HostView, runtime: RuntimeHealthView, glance: HostStatus) -> bool {
    let runners = status::runners_now(v.runners, v.health.failures);
    let plugins = status::plugins_now(v.plugins, runners);
    &&& glance.app_name@ == v.config.app_name
    &&& glance.profile_id@ == v.config.profile_id
    &&& glance.mode@ == config::mode_name(v.config.mode)
    &&& glance.healthy == (runtime.healthy && status::all_loaded(plugins) && status::none_failed(
        runners,
    ))
    &&& glance.runtime@ == runtime
    &&& glance.host@ == status::component(true, "running"@, None)
    &&& glance.plugins_health@ == status::component(
        status::all_loaded(plugins),
        "ok"@,
        status::plugin_complaint(plugins),
    )
    &&& glance.runners_health@ == status::component(
        status::none_failed(runners),
        "ok"@,
        status::runner_complaint(runners),
    )
    &&& health::error_views(glance.recent_errors@) == v.health.recent
    &&& bridge::plugin_views(glance.plugins@) == plugins
    &&& bridge::runner_views(glance.runners@) == runners
}

/// The error of a task that no runner takes.
pub open spec fn no_runner(protocol_id: Seq<char>) -> RuntimeErrorView {
    RuntimeError::plain_with_evidence(
        ERR_RUNNER_NOT_FOUND@,
        "mutsuki_tauri_host"@,
        "host.task.submit"@,
        "protocol_id"@,
        protocol_id,
    )
}

/// The supervisor once it follows a row of tasks.
pub open spec fn all_followed(v: SupervisorView, handles: Seq<TaskHandle>) -> SupervisorView
    decreases handles.len(),
{
    if handles.len() == 0 {
        v
    } else {
        supervision::task_followed(all_followed(v, handles.drop_last()), handles.last())
    }
}

/// The host went from `before` to `after` when the runtime refused a command.
pub open spec fn refused(
    before: HostView,
    after: HostView,
    message: Seq<char>,
    refusal: RuntimeRefusal,
    now: i64,
) -> bool {
    error_logged(
        before,
        after,
        "mutsuki_tauri_host.runtime"@,
        message,
        refusal.shown@,
        now,
    )
}

/// Why the task pump gives up.
#[derive(Debug, PartialEq, Eq)]
pub enum PumpFailure {
    /// The runtime's streams could not be read.
    Observe(String),
    /// The runtime did not say how its tasks stand.
    Runtime(String),
    /// The runtime tells no more of tasks that end.
    Closed,
    /// The pump could not be started.
    Spawn(String),
}

/// What the tasks in flight are failed with where the pump gives up.
pub open spec fn pump_words(failure: PumpFailure) -> Seq<char> {
    match failure {
        PumpFailure::Observe(error) => error@,
        PumpFailure::Runtime(error) => error@,
        PumpFailure::Closed => "runtime completion subscription closed"@,
        PumpFailure::Spawn(error) => "failed to spawn task pump: "@ + error@,
    }
}

/// The line of the log that tells why the pump gives up, where one is written.
pub open spec fn pump_line(failure: PumpFailure, now: i64) -> Option<FrontendEventView> {
    match failure {
        PumpFailure::Observe(error) => Some(
            FrontendEventView::Log {
                record: observe::error_line(
                    "mutsuki_tauri_host.observe"@,
                    "runtime observability drain failed"@,
                    error@,
                    now,
                ),
            },
        ),
        PumpFailure::Runtime(error) => Some(
            FrontendEventView::Log {
                record: observe::error_line(
                    "mutsuki_tauri_host.runtime"@,
                    "runtime task pump failed"@,
                    error@,
                    now,
                ),
            },
        ),
        _ => None,
    }
}

/// A body is too large to be handed to the frontend in one answer.
pub open spec fn too_large(descriptor: ResourceRef) -> bool {
    provider::size_of(descriptor) > MAX_RESOURCE_INVOKE_BYTES
}

/// How the whole of a body that is too large is refused.
pub open spec fn only_in_pieces(ref_id: Seq<char>) -> Seq<char> {
    "resource exceeds 65536 bytes and is read in chunks: "@ + ref_id
}

/// `checked` is what asking for a whole body comes to: a body that is too large is refused, and is
/// to be read in pieces.
pub open spec fn whole_checked(
    v: ProviderView,
    ref_id: Seq<char>,
    checked: HostResult<ResourceEntry>,
) -> bool {
    if !v.entries.contains_key(ref_id) {
        checked matches Err(HostError::Resource(words)) && words@ == "resource not found: "@
            + ref_id
    } else if too_large(v.entries[ref_id].descriptor) {
        checked matches Err(HostError::Resource(words)) && words@ == only_in_pieces(ref_id)
    } else {
        checked matches Ok(entry) && entry@ == v.entries[ref_id]
    }
}

/// How many bytes of a body are asked for at once: no more than are handed to the frontend in one
/// answer.
pub open spec fn asked_for(length: usize) -> int {
    if length <= MAX_RESOURCE_INVOKE_BYTES {
        length as int
    } else {
        MAX_RESOURCE_INVOKE_BYTES as int
    }
}

/// The number of bytes of a piece: as many as are asked for, but no more than there are, and no
/// more than are handed to the frontend in one answer.
pub open spec fn piece_length(total: u64, offset: u64, length: usize) -> int {
    provider::chunk_length(total as int, offset as int, asked_for(length))
}

/// `piece` is the answer to the read of a body at its `i`-th step: it holds the bytes of the body
/// that were planned for it.
pub open spec fn piece_of(body: Seq<u8>, length: usize, i: int, piece: ResourceChunk) -> bool {
    &&& piece.total_bytes == body.len()
    &&& piece.offset == i * asked_for(length)
    &&& piece.offset <= body.len()
    &&& piece.bytes@ == body.subrange(
        piece.offset as int,
        piece.offset + piece_length(piece.total_bytes, piece.offset, length),
    )
    &&& piece.eof == (piece.offset + piece.bytes@.len() >= piece.total_bytes)
}

/// The bytes of a row of pieces, put together.
pub open spec fn joined(pieces: Seq<ResourceChunk>) -> Seq<u8>
    decreases pieces.len(),
{
    if pieces.len() == 0 {
        Seq::empty()
    } else {
        joined(pieces.drop_last()) + pieces.last().bytes@
    }
}

/// The pieces of a body, read one behind the other until an answer says that the body is at its
/// end, put together are the body.
pub proof fn law_pieces_make_the_body(body: Seq<u8>, length: usize, pieces: Seq<ResourceChunk>)
    requires
        length > 0,
        pieces.len() > 0,
        forall|i: int| 0 <= i < pieces.len() ==> piece_of(body, length, i, #[trigger] pieces[i]),
        pieces.last().eof,
    ensures
        joined(pieces) == body,
{
    let n = pieces.len();
    lemma_joined_chunks(body, length, pieces);
    assert(piece_of(body, length, n - 1, pieces[n - 1]));
    provider::law_chunks_make_the_body(body, asked_for(length), n);
}

proof fn lemma_joined_chunks(body: Seq<u8>, length: usize, pieces: Seq<ResourceChunk>)
    requires
        forall|i: int| 0 <= i < pieces.len() ==> piece_of(body, length, i, #[trigger] pieces[i]),
    ensures
        joined(pieces) == provider::chunks(body, asked_for(length), pieces.len()),
    decreases pieces.len(),
{
    if pieces.len() > 0 {
        lemma_joined_chunks(body, length, pieces.drop_last());
        assert(piece_of(body, length, pieces.len() - 1, pieces[pieces.len() - 1]));
    }
}

/// No piece of a body, however much is asked for, is larger than what is handed to the frontend in
/// one answer; it lies within the body; and while the body is not at its end something is read.
pub proof fn law_pieces_are_bounded(total: u64, offset: u64, length: usize)
    requires
        offset <= total,
    ensures
        0 <= piece_length(total, offset, length) <= MAX_RESOURCE_INVOKE_BYTES,
        offset + piece_length(total, offset, length) <= total,
        length > 0 && offset < total ==> piece_length(total, offset, length) > 0,
{
}

/// `answer` is the answer to a read of a whole body, once `bytes` were read for `entry`.
pub open spec fn whole_answered(
    entry: ResourceEntry,
    bytes: Vec<u8>,
    answer: HostResult<ResourceBytes>,
) -> bool {
    if bytes@.len() > MAX_RESOURCE_INVOKE_BYTES {
        answer matches Err(HostError::Resource(words)) && words@ == only_in_pieces(
            entry.descriptor.ref_id@,
        )
    } else {
        answer == Ok::<ResourceBytes, HostError>(
            ResourceBytes { resource: entry.descriptor, bytes, media_type: None },
        )
    }
}

/// `answer` is the answer to a read of a whole body as text, once `bytes` were read.
pub open spec fn text_answered(
    ref_id: Seq<char>,
    bytes: Seq<u8>,
    answer: HostResult<ResourceText>,
) -> bool {
    if bytes.len() > MAX_RESOURCE_INVOKE_BYTES {
        answer matches Err(HostError::Resource(words)) && words@ == only_in_pieces(ref_id)
    } else if !vstd::utf8::valid_utf8(bytes) {
        answer matches Err(HostError::Resource(words)) && words@ == "resource is not utf-8 text: "@
            + ref_id
    } else {
        answer matches Ok(read) && read.ref_id@ == ref_id && read.text@ == vstd::utf8::decode_utf8(
            bytes,
        )
    }
}

/// `answer` is the answer to a read of a piece of a body, once `bytes` were read from `offset` on.
pub open spec fn piece_answered(
    v: ProviderView,
    ref_id: Seq<char>,
    offset: u64,
    bytes: Vec<u8>,
    answer: HostResult<ResourceChunk>,
) -> bool {
    if !v.entries.contains_key(ref_id) {
        answer matches Err(HostError::Resource(words)) && words@ == "resource not found: "@ + ref_id
    } else if bytes@.len() > MAX_RESOURCE_INVOKE_BYTES {
        answer matches Err(HostError::Resource(words)) && words@
            == "resource chunk exceeds 65536 bytes: "@ + ref_id
    } else {
        let resource = v.entries[ref_id].descriptor;
        let total_bytes = provider::size_of(resource);
        answer == Ok::<ResourceChunk, HostError>(
            ResourceChunk {
                resource,
                offset,
                total_bytes,
                bytes,
                eof: offset + bytes@.len() >= total_bytes,
            },
        )
    }
}

/// No answer carries more than 64 KiB of a body to the frontend: not as bytes, not as text, not
/// as a piece, whatever was read.
pub proof fn law_answers_are_bounded(
    v: ProviderView,
    entry: ResourceEntry,
    ref_id: Seq<char>,
    offset: u64,
    bytes: Vec<u8>,
    whole: HostResult<ResourceBytes>,
    read: HostResult<ResourceText>,
    piece: HostResult<ResourceChunk>,
)
    requires
        whole_answered(entry, bytes, whole),
        text_answered(ref_id, bytes@, read),
        piece_answered(v, ref_id, offset, bytes, piece),
    ensures
        whole matches Ok(answer) ==> answer.bytes@.len() <= 65_536,
        read matches Ok(answer) ==> vstd::utf8::encode_utf8(answer.text@).len() <= 65_536,
        piece matches Ok(answer) ==> answer.bytes@.len() <= 65_536,
{
    if read is Ok {
        vstd::utf8::decode_utf8_encode_utf8(bytes@);
    }
}

/// A body of more than 64 KiB that was registered is never handed out as a whole: it is refused
/// before it is read.
pub proof fn law_large_body_is_refused(
    v: ProviderView,
    entry: EntryView,
    ref_id: Seq<char>,
    kind_id: Seq<char>,
    semantic: ResourceSemantic,
    schema: Seq<char>,
    len: u64,
    hash: Seq<char>,
    key: Seq<char>,
    checked: HostResult<ResourceEntry>,
)
    requires
        provider::describes_blob(
            entry.descriptor,
            ref_id,
            kind_id,
            semantic,
            schema,
            len,
            hash,
            key,
        ),
        len > 65_536,
        whole_checked(v.with(ref_id, entry), ref_id, checked),
    ensures
        checked is Err,
{
}

impl MutsukiTauriHost {
    /// A host that starts with what was planned. What failed to load is remembered.
    pub fn new(
        config: MutsukiTauriConfig,
        resources: TauriResourceStore,
        events: EventHub,
        health: HostHealthState,
        plugins: Vec<PluginSummary>,
        runners: Vec<RunnerSummary>,
        active_protocols: OrderedMap<bool>,
        now: i64,
    ) -> (host: Self)
        ensures
            host@ == (HostView {
                config: config@,
                provider: resources.provider@,
                previews: resources.preview@,
                hub: events.story(),
                tasks: supervision::fresh(),
                per_task: config.task_event_capacity_per_task as nat,
                total: config.task_event_capacity_total as nat,
                approvals: Map::empty(),
                health: health::runners_noted(
                    health::plugins_noted(health@, bridge::plugin_views(plugins@), now),
                    bridge::runner_views(runners@),
                    now,
                ),
                plugins: bridge::plugin_views(plugins@),
                runners: bridge::runner_views(runners@),
                protocols: active_protocols@.dom(),
            }),
    {
        let mut health = health;
        health.record_summary_failures(&plugins, &runners, now);
        let tasks = TaskSupervisor::new(
            config.task_event_capacity_per_task,
            config.task_event_capacity_total,
        );
        MutsukiTauriHost {
            config,
            resources,
            events,
            tasks,
            approvals: ApprovalBridge::new(),
            health,
            plugins,
            runners,
            active_protocols,
        }
    }

    pub fn builder() -> (builder: MutsukiTauriHostBuilder)
        ensures
            builder@ == (builder::BuilderView {
                config: config::config_of_app("MutsukiTauriApp"@),
                runners: Seq::empty(),
            }),
    {
        MutsukiTauriHostBuilder::new()
    }

    pub fn config(&self) -> (config: &MutsukiTauriConfig)
        ensures
            *config == self.config,
    {
        &self.config
    }

    /// The runners as they stand.
    pub fn runners(&self) -> (now: Vec<RunnerSummary>)
        ensures
            bridge::runner_views(now@) == status::runners_now(
                self@.runners,
                self@.health.failures,
            ),
    {
        status::current_runners(&self.runners, &self.health)
    }

    /// The plugins as they stand.
    pub fn plugins(&self) -> (now: Vec<PluginSummary>)
        ensures
            bridge::plugin_views(now@) == status::plugins_now(
                self@.plugins,
                status::runners_now(self@.runners, self@.health.failures),
            ),
    {
        status::current_plugins(&self.plugins, &self.runners())
    }

    fn runtime_health(&mut self, probe: Result<Vec<HostTaskSnapshot>, String>, now: i64) -> (runtime:
        RuntimeHealth)
        ensures
            runtime@ == runtime_now(probe),
            final(self)@ == (HostView {
                health: probed(old(self)@.health, probe, now),
                ..old(self)@
            }),
    {
        match probe {
            Ok(snapshots) => runtime_health_from_snapshots(&snapshots),
            Err(message) => {
                self.health.record_runtime_probe_error(message.as_str(), now);
                failed_runtime_health(message)
            },
        }
    }

    /// The host at a glance. `probe` is what the runtime answered when it was asked for its tasks:
    /// where it failed to answer, that is remembered.
    pub fn status(&mut self, probe: Result<Vec<HostTaskSnapshot>, String>, now: i64) -> (glance:
        HostStatus)
        ensures
            final(self)@ == (HostView {
                health: probed(old(self)@.health, probe, now),
                ..old(self)@
            }),
            at_a_glance(final(self)@, runtime_now(probe), glance),
    {
        let runtime = self.runtime_health(probe, now);
        let runners = self.runners();
        let plugins = status::current_plugins(&self.plugins, &runners);
        let host = status::health_component(true, "running", None);
        let plugins_health = status::plugins_health(&plugins);
        let runners_health = status::runners_health(&runners);
        let healthy = runtime.healthy && host.healthy && plugins_health.healthy
            && runners_health.healthy;
        HostStatus {
            app_name: self.config.app_name.clone(),
            profile_id: self.config.profile_id.clone(),
            mode: self.config.mode.as_str().to_owned(),
            healthy,
            runtime,
            host,
            plugins_health,
            runners_health,
            recent_errors: self.health.recent_errors(),
            plugins,
            runners,
        }
    }

    /// Tells the frontend a line of the log, with what it must not show replaced.
    pub fn emit_log(
        &mut self,
        level: &str,
        target: &str,
        message: String,
        fields: OrderedMap<JsonValue>,
        now: i64,
    )
        ensures
            only_told(
                old(self)@,
                final(self)@,
                FrontendEventView::Log {
                    record: observe::log_line(
                        level@,
                        target@,
                        message@,
                        redact::json_fields(fields@),
                        now,
                    ),
                },
            ),
    {
        observe::emit_log_record(&mut self.events, level, target, message, fields, now);
    }

    /// Notes an error of the host and tells of it.
    pub fn emit_runtime_error_log(&mut self, target: &str, message: &str, error: &str, now: i64)
        ensures
            error_logged(old(self)@, final(self)@, target@, message@, error@, now),
    {
        self.health.record_host_error(
            target,
            text::join3(message, ": ", error).as_str(),
            now,
        );
        observe::emit_error_line(&mut self.events, target, message, error, now);
    }

    /// Refuses a protocol that no runner accepts.
    pub fn ensure_protocol_available(&self, protocol_id: &str) -> (available: HostResult<()>)
        ensures
            match available {
                Ok(_) => self@.protocols.contains(protocol_id@),
                Err(error) => !self@.protocols.contains(protocol_id@) && (error matches
                    HostError::RuntimeFailure(failure) && failure@ == no_runner(protocol_id@)),
            },
    {
        if self.active_protocols.contains_key(protocol_id) {
            return Ok(());
        }
        Err(
            HostError::RuntimeFailure(
                RuntimeError::with_evidence(
                    ERR_RUNNER_NOT_FOUND,
                    "mutsuki_tauri_host",
                    "host.task.submit",
                    "protocol_id",
                    protocol_id,
                ),
            ),
        )
    }

    /// Refuses a batch in which a task asks for a protocol that no runner accepts. The first of them
    /// is named.
    pub fn ensure_batch_available(&self, batch: &TaskBatch) -> (available: HostResult<()>)
        ensures
            match available {
                Ok(_) => forall|i: int|
                    0 <= i < batch.tasks@.len() ==> self@.protocols.contains(
                        (#[trigger] batch.tasks@[i]).protocol_id@,
                    ),
                Err(error) => exists|i: int|
                    0 <= i < batch.tasks@.len() && !self@.protocols.contains(
                        (#[trigger] batch.tasks@[i]).protocol_id@,
                    ) && (forall|j: int|
                        0 <= j < i ==> self@.protocols.contains(
                            (#[trigger] batch.tasks@[j]).protocol_id@,
                        )) && (error matches HostError::RuntimeFailure(failure) && failure@
                        == no_runner(batch.tasks@[i].protocol_id@)),
            },
    {
        let mut i: usize = 0;
        while i < batch.tasks.len()
            invariant
                i <= batch.tasks.len(),
                forall|j: int|
                    0 <= j < i ==> self@.protocols.contains(
                        (#[trigger] batch.tasks@[j]).protocol_id@,
                    ),
            decreases batch.tasks.len() - i,
        {
            let task = &batch.tasks[i];
            if let Err(error) = self.ensure_protocol_available(task.protocol_id.as_str()) {
                assert(!self@.protocols.contains(batch.tasks@[i as int].protocol_id@));
                return Err(error);
            }
            i = i + 1;
        }
        Ok(())
    }

    fn track_all(&mut self, handles: &Vec<TaskHandle>)
        ensures
            final(self)@ == (HostView {
                tasks: all_followed(old(self)@.tasks, handles@),
                ..old(self)@
            }),
    {
        let mut i: usize = 0;
        assert(handles@.take(0) =~= Seq::empty());
        while i < handles.len()
            invariant
                i <= handles.len(),
                self@ == (HostView {
                    tasks: all_followed(old(self)@.tasks, handles@.take(i as int)),
                    ..old(self)@
                }),
            decreases handles.len() - i,
        {
            assert(handles@.take(i + 1).drop_last() =~= handles@.take(i as int));
            self.tasks.track(handles[i].clone());
            i = i + 1;
        }
        assert(handles@.take(i as int) =~= handles@);
    }

    /// Takes in what the runtime answered to a task: a task that was taken is followed.
    pub fn take_submitted(&mut self, reply: Result<RuntimeReply, RuntimeRefusal>, now: i64) -> (handle:
        HostResult<TaskHandle>)
        ensures
            match reply {
                Ok(RuntimeReply::TaskSubmitted(h)) => {
                    &&& handle == Ok::<TaskHandle, HostError>(h)
                    &&& final(self)@ == (HostView {
                        tasks: supervision::task_followed(old(self)@.tasks, h),
                        ..old(self)@
                    })
                },
                Ok(_) => {
                    &&& handle matches Err(HostError::Runtime(words)) && words@
                        == "unexpected submit reply"@
                    &&& final(self)@ == old(self)@
                },
                Err(refusal) => {
                    &&& handle == Err::<TaskHandle, HostError>(
                        HostError::RuntimeFailure(refusal.error),
                    )
                    &&& refused(
                        old(self)@,
                        final(self)@,
                        "runtime task submit failed"@,
                        refusal,
                        now,
                    )
                },
            },
    {
        match reply {
            Ok(RuntimeReply::TaskSubmitted(h)) => {
                self.tasks.track(h.clone());
                Ok(h)
            },
            Ok(_) => Err(HostError::Runtime("unexpected submit reply".to_owned())),
            Err(refusal) => {
                self.emit_runtime_error_log(
                    "mutsuki_tauri_host.runtime",
                    "runtime task submit failed",
                    refusal.shown.as_str(),
                    now,
                );
                Err(HostError::RuntimeFailure(refusal.error))
            },
        }
    }

    /// Takes in what the runtime answered to a batch: tasks that were taken are followed.
    pub fn take_submitted_batch(
        &mut self,
        reply: Result<RuntimeReply, RuntimeRefusal>,
        now: i64,
    ) -> (handles: HostResult<Vec<TaskHandle>>)
        ensures
            match reply {
                Ok(RuntimeReply::TaskBatchSubmitted(row)) => {
                    &&& handles == Ok::<Vec<TaskHandle>, HostError>(row)
                    &&& final(self)@ == (HostView {
                        tasks: all_followed(old(self)@.tasks, row@),
                        ..old(self)@
                    })
                },
                Ok(_) => {
                    &&& handles matches Err(HostError::Runtime(words)) && words@
                        == "unexpected submit batch reply"@
                    &&& final(self)@ == old(self)@
                },
                Err(refusal) => {
                    &&& handles == Err::<Vec<TaskHandle>, HostError>(
                        HostError::RuntimeFailure(refusal.error),
                    )
                    &&& refused(
                        old(self)@,
                        final(self)@,
                        "runtime task submit failed"@,
                        refusal,
                        now,
                    )
                },
            },
    {
        match reply {
            Ok(RuntimeReply::TaskBatchSubmitted(row)) => {
                self.track_all(&row);
                Ok(row)
            },
            Ok(_) => Err(HostError::Runtime("unexpected submit batch reply".to_owned())),
            Err(refusal) => {
                self.emit_runtime_error_log(
                    "mutsuki_tauri_host.runtime",
                    "runtime task submit failed",
                    refusal.shown.as_str(),
                    now,
                );
                Err(HostError::RuntimeFailure(refusal.error))
            },
        }
    }

    /// Asks for the result of a task, which is forgotten where it is a success. Nothing is answered
    /// while the task is in flight.
    pub fn task_result(&mut self, request: &TaskResultRequest) -> (answer: Option<
        HostResult<FrontendTaskResult>,
    >)
        ensures
            TaskSupervisor::answers(
                old(self)@.tasks,
                final(self)@.tasks,
                request.task_id@,
                true,
                answer,
            ),
            final(self)@ == (HostView { tasks: final(self)@.tasks, ..old(self)@ }),
    {
        self.tasks.poll_result(request.task_id.as_str(), true)
    }

    /// Looks at the result of a task. Nothing is answered while the task is in flight.
    pub fn peek_task_result(&mut self, request: &TaskResultRequest) -> (answer: Option<
        HostResult<FrontendTaskResult>,
    >)
        ensures
            TaskSupervisor::answers(
                old(self)@.tasks,
                final(self)@.tasks,
                request.task_id@,
                false,
                answer,
            ),
            final(self)@ == (HostView { tasks: final(self)@.tasks, ..old(self)@ }),
    {
        self.tasks.poll_result(request.task_id.as_str(), false)
    }

    /// The handle of the task that is to be cancelled.
    pub fn cancel_target(&self, request: &TaskCancelRequest) -> (handle: HostResult<TaskHandle>)
        ensures
            match handle {
                Ok(h) => self@.tasks.active.contains_key(request.task_id@) && h
                    == self@.tasks.active[request.task_id@],
                Err(error) => !self@.tasks.active.contains_key(request.task_id@) && (error matches
                    HostError::Runtime(words) && words@ == "task is not tracked: "@
                    + request.task_id@),
            },
    {
        match self.tasks.handle_for(request.task_id.as_str()) {
            Some(handle) => Ok(handle),
            None => Err(
                HostError::Runtime(text::join2("task is not tracked: ", request.task_id.as_str())),
            ),
        }
    }

    /// Takes in what the runtime answered to a cancellation. The task is followed until the runtime
    /// says that it ended.
    pub fn take_cancelled(&mut self, reply: Result<RuntimeReply, RuntimeRefusal>, now: i64) -> (handle:
        HostResult<TaskHandle>)
        ensures
            match reply {
                Ok(RuntimeReply::TaskCancelled(h)) => {
                    &&& handle == Ok::<TaskHandle, HostError>(h)
                    &&& final(self)@ == old(self)@
                },
                Ok(_) => {
                    &&& handle matches Err(HostError::Runtime(words)) && words@
                        == "unexpected cancel reply"@
                    &&& final(self)@ == old(self)@
                },
                Err(refusal) => {
                    &&& handle == Err::<TaskHandle, HostError>(
                        HostError::RuntimeFailure(refusal.error),
                    )
                    &&& refused(
                        old(self)@,
                        final(self)@,
                        "runtime task cancel failed"@,
                        refusal,
                        now,
                    )
                },
            },
    {
        match reply {
            Ok(RuntimeReply::TaskCancelled(h)) => Ok(h),
            Ok(_) => Err(HostError::Runtime("unexpected cancel reply".to_owned())),
            Err(refusal) => {
                self.emit_runtime_error_log(
                    "mutsuki_tauri_host.runtime",
                    "runtime task cancel failed",
                    refusal.shown.as_str(),
                    now,
                );
                Err(HostError::RuntimeFailure(refusal.error))
            },
        }
    }

    /// Takes in how reading the runtime's streams went: where it failed, that is noted and told.
    pub fn take_drained(&mut self, drained: Result<(), String>, now: i64) -> (observed: HostResult<()>)
        ensures
            match drained {
                Ok(_) => observed == Ok::<(), HostError>(()) && final(self)@ == old(self)@,
                Err(error) => {
                    &&& observed == Err::<(), HostError>(HostError::Runtime(error))
                    &&& error_logged(
                        old(self)@,
                        final(self)@,
                        "mutsuki_tauri_host.observe"@,
                        "runtime observability drain failed"@,
                        error@,
                        now,
                    )
                },
            },
    {
        match drained {
            Ok(_) => Ok(()),
            Err(error) => {
                self.emit_runtime_error_log(
                    "mutsuki_tauri_host.observe",
                    "runtime observability drain failed",
                    error.as_str(),
                    now,
                );
                Err(HostError::Runtime(error))
            },
        }
    }

    /// Gives up on all tasks in flight because their pump cannot go on. A failure of the runtime or
    /// of its streams is told.
    pub fn pump_failed(&mut self, failure: PumpFailure, now: i64)
        ensures
            final(self)@ == (HostView {
                hub: final(self)@.hub,
                tasks: supervision::all_failed(old(self)@.tasks, pump_words(failure)),
                ..old(self)@
            }),
            match pump_line(failure, now) {
                Some(event) => events::tried(old(self)@.hub, final(self)@.hub, event),
                None => final(self)@.hub == old(self)@.hub,
            },
    {
        match failure {
            PumpFailure::Observe(error) => {
                observe::emit_error_line(
                    &mut self.events,
                    "mutsuki_tauri_host.observe",
                    "runtime observability drain failed",
                    error.as_str(),
                    now,
                );
                self.tasks.fail_active(error.as_str());
            },
            PumpFailure::Runtime(error) => {
                observe::emit_error_line(
                    &mut self.events,
                    "mutsuki_tauri_host.runtime",
                    "runtime task pump failed",
                    error.as_str(),
                    now,
                );
                self.tasks.fail_active(error.as_str());
            },
            PumpFailure::Closed => {
                self.tasks.fail_active("runtime completion subscription closed");
            },
            PumpFailure::Spawn(error) => {
                let words = text::join2("failed to spawn task pump: ", error.as_str());
                self.tasks.fail_active(words.as_str());
            },
        }
    }

    /// Takes in how a row of tasks stands, once the runtime's streams were read. `go_on` says
    /// whether a task is still in flight.
    pub fn pump_settled(&mut self, states: Vec<HostTaskState>) -> (go_on: bool)
        ensures
            ({
                let settled = supervision::tasks_settled(
                    old(self)@.tasks,
                    supervisor::state_views(states@),
                );
                &&& go_on == (settled.active.len() > 0)
                &&& final(self)@ == (HostView {
                    tasks: if go_on {
                        settled
                    } else {
                        SupervisorView { pump_running: false, pump_subscribed: false, ..settled }
                    },
                    ..old(self)@
                })
            }),
    {
        self.tasks.finish_tasks(states)
    }

    fn tell_resource(&mut self, ref_id: &str, operation: &str)
        ensures
            only_told(
                old(self)@,
                final(self)@,
                FrontendEventView::Resource { ref_id: ref_id@, operation: operation@ },
            ),
    {
        self.events.tell(
            MutsukiFrontendEvent::Resource {
                ref_id: ref_id.to_owned(),
                operation: operation.to_owned(),
            },
        );
    }

    /// Registers the body of a file that was written where it was planned, and tells of it.
    pub fn import_file(&mut self, path: &str, plan: BlobPlan, bytes: &Vec<u8>) -> (descriptor:
        ResourceRef)
        ensures
            provider::describes_blob(
                descriptor,
                plan.ref_id@,
                "blob"@,
                ResourceSemantic::VersionedSnapshot,
                match import_export::guessed_media_type(path@) {
                    Some(guess) => guess,
                    None => "application/octet-stream"@,
                },
                bytes.len() as u64,
                provider::hash_of(bytes@),
                plan.key@,
            ),
            exists|media_type: Option<String>| #[trigger]
                old(self)@.provider.with(
                    plan.ref_id@,
                    EntryView { descriptor, media_type, path: plan.path@ },
                ) == final(self)@.provider && text::opt_text(media_type)
                    == import_export::guessed_media_type(path@),
            only_told(
                HostView { provider: final(self)@.provider, ..old(self)@ },
                final(self)@,
                FrontendEventView::Resource { ref_id: plan.ref_id@, operation: "import_file"@ },
            ),
    {
        let descriptor = self.resources.import_file(path, plan, bytes);
        self.tell_resource(descriptor.ref_id.as_str(), "import_file");
        descriptor
    }

    /// The entry of a resource whose whole body is asked for.
    pub fn check_whole(&self, ref_id: &str) -> (checked: HostResult<ResourceEntry>)
        ensures
            whole_checked(self@.provider, ref_id@, checked),
    {
        let entry = match self.resources.provider.entry(ref_id) {
            Ok(entry) => entry,
            Err(error) => {
                return Err(HostError::from(error));
            },
        };
        let size: u64 = match entry.descriptor.size_hint {
            Some(size) => size,
            None => 0,
        };
        if size > MAX_RESOURCE_INVOKE_BYTES as u64 {
            return Err(Self::refuse_whole(ref_id));
        }
        Ok(entry)
    }

    fn refuse_whole(ref_id: &str) -> (error: HostError)
        ensures
            error matches HostError::Resource(words) && words@ == only_in_pieces(ref_id@),
    {
        HostError::Resource(
            text::join2("resource exceeds 65536 bytes and is read in chunks: ", ref_id),
        )
    }

    /// The answer to a read of a whole body. More than the frontend is handed in one answer is
    /// refused, whatever the descriptor said.
    pub fn read_resource_bytes(entry: ResourceEntry, bytes: Vec<u8>) -> (answer: HostResult<
        ResourceBytes,
    >)
        ensures
            whole_answered(entry, bytes, answer),
    {
        if bytes.len() > MAX_RESOURCE_INVOKE_BYTES {
            return Err(Self::refuse_whole(entry.descriptor.ref_id.as_str()));
        }
        Ok(ResourceBytes { resource: entry.descriptor, bytes, media_type: None })
    }

    /// The answer to a read of a whole body as text. More than the frontend is handed in one
    /// answer is refused, whatever the descriptor said.
    pub fn read_resource_text(ref_id: &str, bytes: Vec<u8>) -> (answer: HostResult<ResourceText>)
        ensures
            text_answered(ref_id@, bytes@, answer),
    {
        if bytes.len() > MAX_RESOURCE_INVOKE_BYTES {
            return Err(Self::refuse_whole(ref_id));
        }
        match text_of(ref_id, bytes) {
            Ok(read) => Ok(ResourceText { ref_id: ref_id.to_owned(), text: read }),
            Err(error) => Err(HostError::from(error)),
        }
    }

    /// Which piece of a body is read.
    pub fn plan_resource_chunk(&self, ref_id: &str, offset: u64, length: usize) -> (plan: HostResult<
        ChunkPlan,
    >)
        ensures
            if !self@.provider.entries.contains_key(ref_id@) {
                plan matches Err(HostError::Resource(words)) && words@ == "resource not found: "@
                    + ref_id@
            } else {
                let entry = self@.provider.entries[ref_id@];
                let total = provider::size_of(entry.descriptor);
                if offset > total {
                    plan matches Err(HostError::Resource(words)) && words@
                        == (ResourceBridgeError::InvalidRange { offset, length: total }).words()
                } else {
                    plan matches Ok(p) && p.path@ == entry.path && p.offset == offset && p.length
                        == piece_length(total, offset, length)
                }
            },
    {
        let asked: usize = if length <= MAX_RESOURCE_INVOKE_BYTES {
            length
        } else {
            MAX_RESOURCE_INVOKE_BYTES
        };
        match self.resources.provider.plan_chunk(ref_id, offset, asked) {
            Ok(plan) => Ok(plan),
            Err(error) => Err(HostError::from(error)),
        }
    }

    /// The answer to a read of a piece of a body. A piece that is larger than what the frontend is
    /// handed in one answer is refused.
    pub fn read_resource_chunk(&self, ref_id: &str, offset: u64, bytes: Vec<u8>) -> (answer: HostResult<
        ResourceChunk,
    >)
        ensures
            piece_answered(self@.provider, ref_id@, offset, bytes, answer),
    {
        let resource = match self.resources.descriptor(ref_id) {
            Ok(resource) => resource,
            Err(error) => {
                return Err(HostError::from(error));
            },
        };
        if bytes.len() > MAX_RESOURCE_INVOKE_BYTES {
            return Err(
                HostError::Resource(text::join2("resource chunk exceeds 65536 bytes: ", ref_id)),
            );
        }
        let total_bytes: u64 = match resource.size_hint {
            Some(size) => size,
            None => 0,
        };
        let eof = offset.saturating_add(bytes.len() as u64) >= total_bytes;
        Ok(ResourceChunk { resource, offset, total_bytes, bytes, eof })
    }

    /// Takes in that a new body was written for an entry, and tells of it.
    pub fn write_resource_bytes(&mut self, ref_id: &str, entry: ResourceEntry, bytes: &Vec<u8>) -> (descriptor:
        ResourceRef)
        requires
            old(self)@.provider.entries.contains_key(ref_id@),
            entry@ == old(self)@.provider.entries[ref_id@],
            entry.descriptor.version < u64::MAX,
        ensures
            provider::rewritten(
                old(self)@.provider.entries[ref_id@].descriptor,
                descriptor,
                bytes@,
            ),
            only_told(
                HostView {
                    provider: old(self)@.provider.with(
                        ref_id@,
                        EntryView { descriptor, ..old(self)@.provider.entries[ref_id@] },
                    ),
                    ..old(self)@
                },
                final(self)@,
                FrontendEventView::Resource { ref_id: ref_id@, operation: "write"@ },
            ),
    {
        let descriptor = self.resources.write_bytes(ref_id, entry, bytes);
        self.tell_resource(ref_id, "write");
        descriptor
    }

    /// Tells that a resource was copied to a file.
    pub fn export_resource_to_file(&mut self, ref_id: &str)
        ensures
            only_told(
                old(self)@,
                final(self)@,
                FrontendEventView::Resource { ref_id: ref_id@, operation: "export_file"@ },
            ),
    {
        self.tell_resource(ref_id, "export_file");
    }

    /// Makes a link to a resource that lasts for as long as the configuration says.
    pub fn create_preview_handle(&mut self, ref_id: &str, now_ns: i128) -> (made: HostResult<
        PreviewHandle,
    >)
        requires
            preview::tellable(now_ns + old(self)@.config.preview_ttl_secs * preview::NANOS_PER_SEC),
        ensures
            ({
                let expires = now_ns + old(self)@.config.preview_ttl_secs * preview::NANOS_PER_SEC;
                match made {
                    Ok(handle) => {
                        &&& old(self)@.provider.entries.contains_key(ref_id@)
                        &&& handle.ref_id@ == ref_id@
                        &&& ids::id_shape(handle.token@)
                        &&& handle.url@ == "mutsuki-resource://"@ + handle.token@
                        &&& handle.expires_at_unix_secs == preview::unix_secs(expires)
                        &&& final(self)@ == (HostView {
                            previews: old(self)@.previews.insert(
                                handle.token@,
                                TokenView { ref_id: ref_id@, expires_at_ns: expires },
                            ),
                            ..old(self)@
                        })
                    },
                    Err(error) => {
                        &&& !old(self)@.provider.entries.contains_key(ref_id@)
                        &&& error matches HostError::Resource(words) && words@
                            == "resource not found: "@ + ref_id@
                        &&& final(self)@ == old(self)@
                    },
                }
            }),
    {
        let ttl_ns: u128 = self.config.preview_ttl_secs as u128 * preview::NANOS_PER_SEC;
        match self.resources.create_preview_handle(ref_id, now_ns, ttl_ns) {
            Ok(handle) => Ok(handle),
            Err(error) => Err(HostError::from(error)),
        }
    }

    /// Takes a link back.
    pub fn release_preview_handle(&mut self, token: &str) -> (released: HostResult<()>)
        ensures
            final(self)@ == (HostView {
                previews: old(self)@.previews.remove(token@),
                ..old(self)@
            }),
            match released {
                Ok(_) => old(self)@.previews.contains_key(token@),
                Err(error) => !old(self)@.previews.contains_key(token@) && (error matches
                    HostError::Resource(words) && words@ == "resource token not found or expired: "@
                    + token@),
            },
    {
        match self.resources.release_preview_token(token) {
            Ok(_) => Ok(()),
            Err(error) => Err(HostError::from(error)),
        }
    }

    fn emit_approval_request(&mut self, request: &ApprovalRequest)
        ensures
            only_told(
                old(self)@,
                final(self)@,
                FrontendEventView::Approval { request: *request },
            ),
    {
        self.events.tell(MutsukiFrontendEvent::Approval { request: request.clone() });
    }

    /// Asks the user a question, and tells the frontend of it.
    pub fn request_approval(
        &mut self,
        requester: String,
        operation: String,
        risk: String,
        payload: serde_json::Value,
        context: FrontendContext,
    ) -> (request: ApprovalRequest)
        ensures
            ids::prefixed_id("approval:"@, request.approval_id@),
            ids::id_shape(request.token@),
            request.requester == requester,
            request.operation == operation,
            request.risk == risk,
            request.payload == payload,
            request.context == context,
            exists|id: Seq<char>| #[trigger]
                ids::id_shape(id) && request.trace_id@ == "approval-trace:"@ + id
                    && request.correlation_id@ == "approval-correlation:"@ + id,
            only_told(
                HostView {
                    approvals: old(self)@.approvals.insert(request.approval_id@, request),
                    ..old(self)@
                },
                final(self)@,
                FrontendEventView::Approval { request },
            ),
    {
        let request = self.approvals.request(requester, operation, risk, payload, context);
        self.emit_approval_request(&request);
        request
    }

    /// Asks the user a question that is traced back to a given place, and tells the frontend of it.
    pub fn request_approval_with_attribution(
        &mut self,
        requester: String,
        operation: String,
        risk: String,
        payload: serde_json::Value,
        attribution: ApprovalAttribution,
    ) -> (request: ApprovalRequest)
        ensures
            ids::prefixed_id("approval:"@, request.approval_id@),
            ids::id_shape(request.token@),
            request.requester == requester,
            request.operation == operation,
            request.risk == risk,
            request.payload == payload,
            request.trace_id == attribution.trace_id,
            request.correlation_id == attribution.correlation_id,
            request.context == attribution.context,
            only_told(
                HostView {
                    approvals: old(self)@.approvals.insert(request.approval_id@, request),
                    ..old(self)@
                },
                final(self)@,
                FrontendEventView::Approval { request },
            ),
    {
        let request = self.approvals.request_with_attribution(
            requester,
            operation,
            risk,
            payload,
            attribution,
        );
        self.emit_approval_request(&request);
        request
    }

    /// Takes in the user's decision. A response that is refused leaves its question waiting.
    pub fn resolve_approval(&mut self, response: ApprovalResponse) -> (decided: HostResult<
        ApprovalDecision,
    >)
        ensures
            approval::response_judged(old(self)@.approvals, response, decided),
            decided matches Ok(decision) ==> decision == response.decision,
            final(self)@ == (HostView {
                approvals: if decided is Ok {
                    old(self)@.approvals.remove(response.approval_id@)
                } else {
                    old(self)@.approvals
                },
                ..old(self)@
            }),
    {
        self.approvals.resolve(response)
    }

    /// The questions that wait for a decision, in the order of their identifiers.
    pub fn pending_approvals(&self) -> (requests: Vec<ApprovalRequest>)
        ensures
            requests@ == crate::ordered_map::in_order(self@.approvals.dom()).map_values(
                |id: Seq<char>| self@.approvals[id],
            ),
    {
        self.approvals.pending()
    }

    /// Gives up on all tasks in flight, for good. `abort_error` is what the runtime said where it
    /// could not be stopped.
    pub fn shutdown(&mut self, abort_error: Option<String>)
        ensures
            final(self)@ == (HostView {
                tasks: supervision::all_failed(
                    SupervisorView { shutting_down: true, ..old(self)@.tasks },
                    match abort_error {
                        Some(error) => error@,
                        None => "MutsukiTauriHost is shutting down"@,
                    },
                ),
                ..old(self)@
            }),
    {
        match abort_error {
            Some(error) => self.tasks.shutdown(error.as_str()),
            None => self.tasks.shutdown("MutsukiTauriHost is shutting down"),
        }
    }
}

/// An error of the host is remembered once, with its message and its words, and a line of the log
/// that tells of it is handed over; nothing else of the host changes.
pub proof fn law_logged_error_is_remembered_and_told(
    before: HostView,
    after: HostView,
    target: Seq<char>,
    message: Seq<char>,
    error: Seq<char>,
    now: i64,
)
    requires
        error_logged(before, after, target, message, error, now),
        before.health.recent.len() <= 20,
    ensures
        after.health.recent.last().source == target,
        after.health.recent.last().message == message + ": "@ + error,
        after.health.recent.last().timestamp_ms == now,
        after.health.failures == before.health.failures,
        after.hub.handed.len() == before.hub.handed.len() + 1,
        after.hub.handed.drop_last() == before.hub.handed,
        after.hub.handed.last().envelope.payload matches FrontendEventView::Log { record }
            && record.level == "error"@ && record.target == target && record.timestamp_ms == now
            && record.message == redact::redacted_message(message)
            && record.fields.contains_key("error"@),
        after == (HostView { hub: after.hub, health: after.health, ..before }),
{
    let event = FrontendEventView::Log { record: observe::error_line(target, message, error, now) };
    events::law_told_event_is_handed_over(before.hub, after.hub, event);
    observe::law_error_line_carries_the_error(target, message, error, now);
    health::law_newest_errors_are_remembered(
        before.health,
        health::host_error(target, message + ": "@ + error, now),
    );
    assert(after.hub.handed.drop_last() =~= before.hub.handed);
}

/// What the host tells is handed over once, behind what was handed over before, and nothing else of
/// the host changes.
pub proof fn law_told_event_reaches_the_channel(
    before: HostView,
    after: HostView,
    event: FrontendEventView,
)
    requires
        only_told(before, after, event),
    ensures
        after.hub.handed.len() == before.hub.handed.len() + 1,
        after.hub.handed.drop_last() == before.hub.handed,
        after.hub.handed.last().envelope.payload == event,
        after == (HostView { hub: after.hub, ..before }),
{
    events::law_told_event_is_handed_over(before.hub, after.hub, event);
    assert(after.hub.handed.drop_last() =~= before.hub.handed);
}

/// A runtime is well exactly where it answered; what it answered is counted, and what it did not is
/// told and remembered.
pub proof fn law_silent_runtime_is_not_well(
    before: HealthView,
    probe: Result<Vec<HostTaskSnapshot>, String>,
    now: i64,
)
    requires
        before.recent.len() <= 20,
    ensures
        runtime_now(probe).healthy <==> probe is Ok,
        probe is Ok <==> runtime_now(probe).error is None,
        probe matches Ok(snapshots) ==> {
            &&& runtime_now(probe).status == "running"@
            &&& runtime_now(probe).active_tasks == health::active_snapshots(snapshots@).len()
            &&& runtime_now(probe).failed_tasks == health::failed_snapshots(snapshots@).len()
            &&& probed(before, probe, now) == before
        },
        probe matches Err(message) ==> {
            &&& runtime_now(probe).status == "failed"@
            &&& runtime_now(probe).error == Some(message@)
            &&& runtime_now(probe).active_tasks == 0 && runtime_now(probe).failed_tasks == 0
            &&& probed(before, probe, now).recent.last().source == "mutsuki_tauri_host.runtime"@
            &&& probed(before, probe, now).recent.last().message == message@
            &&& probed(before, probe, now).recent.last().timestamp_ms == now
            &&& probed(before, probe, now).failures == before.failures
        },
{
    if let Err(message) = probe {
        health::law_newest_errors_are_remembered(
            before,
            health::host_error("mutsuki_tauri_host.runtime"@, message@, now),
        );
    }
}

/// The host is well exactly where the runtime is, every plugin that it lists is loaded and no runner
/// that it lists failed. What it lists is what it knows, as it stands.
pub proof fn law_host_is_well_where_all_its_parts_are(
    v: HostView,
    runtime: RuntimeHealthView,
    glance: HostStatus,
)
    requires
        at_a_glance(v, runtime, glance),
    ensures
        ({
            let plugins = bridge::plugin_views(glance.plugins@);
            let runners = bridge::runner_views(glance.runners@);
            &&& glance.healthy <==> runtime.healthy && (forall|i: int|
                0 <= i < plugins.len() ==> (#[trigger] plugins[i]).status == "loaded"@) && (forall|
                i: int,
            |
                0 <= i < runners.len() ==> (#[trigger] runners[i]).status != "failed"@)
            &&& glance.healthy ==> glance.plugins_health@.healthy && glance.runners_health@.healthy
            &&& plugins.len() == v.plugins.len()
            &&& runners.len() == v.runners.len()
            &&& forall|i: int|
                0 <= i < v.plugins.len() ==> (#[trigger] plugins[i]).plugin_id
                    == v.plugins[i].plugin_id
            &&& forall|i: int|
                0 <= i < v.runners.len() ==> (#[trigger] runners[i]).runner_id
                    == v.runners[i].runner_id
        }),
        glance.app_name@ == v.config.app_name,
        glance.profile_id@ == v.config.profile_id,
        v.config.mode is Embedded ==> glance.mode@ == "embedded"@,
        v.config.mode is ConnectService ==> glance.mode@ == "connectservice"@,
        glance.host@.healthy && glance.host@.status == "running"@ && glance.host@.error is None,
        glance.runtime@ == runtime,
        health::error_views(glance.recent_errors@) == v.health.recent,
{
}

/// A task that no runner takes is refused with an error that says so and names the protocol.
pub proof fn law_refused_task_names_its_protocol(protocol_id: Seq<char>)
    ensures
        no_runner(protocol_id).code == "runner.not_found"@,
        no_runner(protocol_id).source == "mutsuki_tauri_host"@,
        no_runner(protocol_id).route == "host.task.submit"@,
        no_runner(protocol_id).evidence.dom() == set!["protocol_id"@],
        no_runner(protocol_id).evidence["protocol_id"@] == crate::contracts::ScalarView::String(
            protocol_id,
        ),
{
    assert(no_runner(protocol_id).evidence.dom() =~= set!["protocol_id"@]);
}

/// Of a row of tasks that were submitted, every one is in flight, and those that were before stay
/// so.
pub proof fn law_submitted_tasks_are_in_flight(
    v: SupervisorView,
    handles: Seq<TaskHandle>,
    task: Seq<char>,
    i: int,
)
    ensures
        all_followed(v, handles).active.contains_key(task) <==> v.active.contains_key(task)
            || exists|k: int| 0 <= k < handles.len() && (#[trigger] handles[k]).task_id@ == task,
        0 <= i < handles.len() && (forall|k: int|
            i < k < handles.len() ==> (#[trigger] handles[k]).task_id@ != handles[i].task_id@)
            ==> all_followed(v, handles).active[handles[i].task_id@] == handles[i],
        (forall|k: int| 0 <= k < handles.len() ==> (#[trigger] handles[k]).task_id@ != task) ==> {
            &&& all_followed(v, handles).results.contains_key(task) == v.results.contains_key(task)
            &&& v.active.contains_key(task) ==> all_followed(v, handles).active[task]
                == v.active[task]
        },
    decreases handles.len(),
{
    if handles.len() > 0 {
        let front = handles.drop_last();
        let last = handles.len() - 1;
        law_submitted_tasks_are_in_flight(v, front, task, i);
        assert(handles[last] == handles.last());
        if exists|k: int| 0 <= k < front.len() && (#[trigger] front[k]).task_id@ == task {
            let k = choose|k: int| 0 <= k < front.len() && (#[trigger] front[k]).task_id@ == task;
            assert(handles[k].task_id@ == task);
        }
        if exists|k: int| 0 <= k < handles.len() && (#[trigger] handles[k]).task_id@ == task {
            let k = choose|k: int|
                0 <= k < handles.len() && (#[trigger] handles[k]).task_id@ == task;
            if k < last {
                assert(front[k].task_id@ == task);
            }
        }
        if 0 <= i < last && (forall|k: int|
            i < k < handles.len() ==> (#[trigger] handles[k]).task_id@ != handles[i].task_id@) {
            assert forall|k: int| i < k < front.len() implies (#[trigger] front[k]).task_id@
                != front[i].task_id@ by {
                assert(front[k] == handles[k]);
            }
            assert(front[i] == handles[i]);
            assert(handles[last].task_id@ != handles[i].task_id@);
        }
        if forall|k: int| 0 <= k < handles.len() ==> (#[trigger] handles[k]).task_id@ != task {
            assert forall|k: int| 0 <= k < front.len() implies (#[trigger] front[k]).task_id@
                != task by {
                assert(front[k] == handles[k]);
            }
            assert(handles[last].task_id@ != task);
        }
    }
}

/// Where the pump gives up, the tasks in flight are told what the runtime said, or what went wrong
/// with the pump itself; what went wrong with the runtime is written to the log as well.
pub proof fn law_pump_failure_is_told(error: String, now: i64)
    ensures
        pump_words(PumpFailure::Observe(error)) == error@,
        pump_words(PumpFailure::Runtime(error)) == error@,
        pump_words(PumpFailure::Closed) == "runtime completion subscription closed"@,
        pump_words(PumpFailure::Spawn(error)) == "failed to spawn task pump: "@ + error@,
        pump_line(PumpFailure::Closed, now) is None,
        pump_line(PumpFailure::Spawn(error), now) is None,
        pump_line(PumpFailure::Observe(error), now) matches Some(
            FrontendEventView::Log { record },
        ) && record == observe::error_line(
            "mutsuki_tauri_host.observe"@,
            "runtime observability drain failed"@,
            error@,
            now,
        ),
        pump_line(PumpFailure::Runtime(error), now) matches Some(
            FrontendEventView::Log { record },
        ) && record == observe::error_line(
            "mutsuki_tauri_host.runtime"@,
            "runtime task pump failed"@,
            error@,
            now,
        ),
{
}

/// A body that is known and of no more than 64 KiB is handed out as it was read; a larger one is
/// refused and an unknown one is not found.
pub proof fn law_small_body_is_handed_out(
    v: ProviderView,
    ref_id: Seq<char>,
    checked: HostResult<ResourceEntry>,
    entry: ResourceEntry,
    bytes: Vec<u8>,
    whole: HostResult<ResourceBytes>,
)
    requires
        whole_checked(v, ref_id, checked),
        whole_answered(entry, bytes, whole),
    ensures
        checked is Ok <==> v.entries.contains_key(ref_id) && provider::size_of(
            v.entries[ref_id].descriptor,
        ) <= 65_536,
        checked matches Ok(known) ==> known@ == v.entries[ref_id],
        checked matches Err(HostError::Resource(words)) ==> words@ == if v.entries.contains_key(
            ref_id,
        ) {
            "resource exceeds 65536 bytes and is read in chunks: "@ + ref_id
        } else {
            "resource not found: "@ + ref_id
        },
        checked is Err ==> checked->Err_0 is Resource,
        whole is Ok <==> bytes@.len() <= 65_536,
        whole matches Ok(answer) ==> answer.bytes == bytes && answer.resource == entry.descriptor,
        whole matches Err(HostError::Resource(words)) ==> words@
            == "resource exceeds 65536 bytes and is read in chunks: "@ + entry.descriptor.ref_id@,
{
}

/// A body of no more than 64 KiB is handed out as text exactly where its bytes are the encoding of
/// one, and the text is the one that they encode.
pub proof fn law_text_is_the_one_that_was_written(
    ref_id: Seq<char>,
    text: Seq<char>,
    answer: HostResult<ResourceText>,
)
    requires
        vstd::utf8::encode_utf8(text).len() <= 65_536,
        text_answered(ref_id, vstd::utf8::encode_utf8(text), answer),
    ensures
        answer matches Ok(read) && read.text@ == text && read.ref_id@ == ref_id,
{
    vstd::utf8::encode_utf8_valid_utf8(text);
    vstd::utf8::encode_utf8_decode_utf8(text);
}

/// A piece of a known body is handed out as it was read, with where it stands and how much there
/// is; it is the last one exactly where it reaches the end.
pub proof fn law_piece_is_handed_out(
    v: ProviderView,
    ref_id: Seq<char>,
    offset: u64,
    bytes: Vec<u8>,
    answer: HostResult<ResourceChunk>,
)
    requires
        piece_answered(v, ref_id, offset, bytes, answer),
    ensures
        answer is Ok <==> v.entries.contains_key(ref_id) && bytes@.len() <= 65_536,
        answer matches Ok(piece) ==> {
            &&& piece.resource == v.entries[ref_id].descriptor
            &&& piece.offset == offset
            &&& piece.bytes == bytes
            &&& piece.total_bytes == provider::size_of(v.entries[ref_id].descriptor)
            &&& piece.eof <==> offset + bytes@.len() >= piece.total_bytes
        },
        answer matches Err(HostError::Resource(words)) ==> words@ == if v.entries.contains_key(
            ref_id,
        ) {
            "resource chunk exceeds 65536 bytes: "@ + ref_id
        } else {
            "resource not found: "@ + ref_id
        },
        answer is Err ==> answer->Err_0 is Resource,
{
}

/// A piece is as long as is asked for where that is allowed and there is as much, as long as is
/// allowed where more is asked for and there is as much, and reaches the end otherwise.
pub proof fn law_piece_is_as_long_as_it_may_be(total: u64, offset: u64, length: usize)
    requires
        offset <= total,
    ensures
        length <= 65_536 && length <= total - offset ==> piece_length(total, offset, length)
            == length,
        length > 65_536 && 65_536 <= total - offset ==> piece_length(total, offset, length)
            == 65_536,
        length >= total - offset && total - offset <= 65_536 ==> piece_length(
            total,
            offset,
            length,
        ) == total - offset,
{
}

/// The view of a host tells all of it.
pub proof fn law_host_is_seen_whole(host: MutsukiTauriHost)
    ensures
        host@.config == host.config@,
        host@.provider == host.resources.provider@,
        host@.previews == host.resources.preview@,
        host@.hub == host.events.story(),
        host@.tasks == host.tasks@,
        host@.per_task == host.tasks.per_task(),
        host@.total == host.tasks.total(),
        host@.approvals == host.approvals@,
        host@.health == host.health@,
        host@.plugins == bridge::plugin_views(host.plugins@),
        host@.runners == bridge::runner_views(host.runners@),
        host@.protocols == host.active_protocols@.dom(),
{
}

/// A command that the runtime refused is remembered and told as an error of the runtime, with what
/// was tried and the error written out in full.
pub proof fn law_refused_command_is_remembered(
    before: HostView,
    after: HostView,
    message: Seq<char>,
    refusal: RuntimeRefusal,
    now: i64,
)
    requires
        refused(before, after, message, refusal, now),
        before.health.recent.len() <= 20,
    ensures
        after.health.recent.last().source == "mutsuki_tauri_host.runtime"@,
        after.health.recent.last().message == message + ": "@ + refusal.shown@,
        after.hub.handed.len() == before.hub.handed.len() + 1,
        after.hub.handed.last().envelope.payload matches FrontendEventView::Log { record }
            && record.level == "error"@ && record.target == "mutsuki_tauri_host.runtime"@,
        after.tasks == before.tasks,
{
    law_logged_error_is_remembered_and_told(
        before,
        after,
        "mutsuki_tauri_host.runtime"@,
        message,
        refusal.shown@,
        now,
    );
}

/// A body that is asked for as text is refused where it is too large, and where its bytes are no
/// text; the two are told apart, and both name the resource.
pub proof fn law_body_that_is_no_text_is_refused(
    ref_id: Seq<char>,
    bytes: Seq<u8>,
    answer: HostResult<ResourceText>,
)
    requires
        text_answered(ref_id, bytes, answer),
    ensures
        answer is Ok <==> bytes.len() <= 65_536 && vstd::utf8::valid_utf8(bytes),
        answer matches Ok(read) ==> read.ref_id@ == ref_id && vstd::utf8::encode_utf8(read.text@)
            == bytes,
        answer is Err ==> answer->Err_0 is Resource,
        answer matches Err(HostError::Resource(words)) ==> words@ == if bytes.len() > 65_536 {
            "resource exceeds 65536 bytes and is read in chunks: "@ + ref_id
        } else {
            "resource is not utf-8 text: "@ + ref_id
        },
{
    if answer is Ok {
        vstd::utf8::decode_utf8_encode_utf8(bytes);
    }
}

} // verus!
