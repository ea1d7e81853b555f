//! The runtime's data as the host reads it: errors, events, tasks, resources and plugins.
use crate::ordered_map::OrderedMap;
use crate::text;
use vstd::prelude::*;
use vstd::string::*;

verus! {

broadcast use vstd::string::group_string_axioms;

/// Code of an error that says no runner serves a protocol.
pub const ERR_RUNNER_NOT_FOUND: &'static str = "runner.not_found";

/// Code of an error raised inside the runtime host.
pub const ERR_RUNTIME_HOST_FAILED: &'static str = "runtime.host_failed";

/// Code of an error that says a resource is unknown to its provider.
pub const ERR_RESOURCE_NOT_FOUND: &'static str = "resource.not_found";

/// Code of an error that says a resource has moved on since its descriptor was taken.
pub const ERR_RESOURCE_GENERATION_MISMATCH: &'static str = "resource.generation_mismatch";

/// A value without parts. A floating-point number is held by the bits of its double.
#[derive(Debug, PartialEq, Eq)]
pub enum ScalarValue {
    Null,
    Bool(bool),
    Int(i64),
    FloatBits(u64),
    String(String),
}

pub enum ScalarView {
    Null,
    Bool(bool),
    Int(i64),
    FloatBits(u64),
    String(Seq<char>),
}

impl View for ScalarValue {
    type V = ScalarView;

    open spec fn view(&self) -> ScalarView {
        match *self {
            ScalarValue::Null => ScalarView::Null,
            ScalarValue::Bool(b) => ScalarView::Bool(b),
            ScalarValue::Int(i) => ScalarView::Int(i),
            ScalarValue::FloatBits(bits) => ScalarView::FloatBits(bits),
            ScalarValue::String(s) => ScalarView::String(s@),
        }
    }
}

impl Clone for ScalarValue {
    fn clone(&self) -> (copy: Self)
        ensures
            copy == *self,
    {
        match self {
            ScalarValue::Null => ScalarValue::Null,
            ScalarValue::Bool(b) => ScalarValue::Bool(*b),
            ScalarValue::Int(i) => ScalarValue::Int(*i),
            ScalarValue::FloatBits(bits) => ScalarValue::FloatBits(*bits),
            ScalarValue::String(s) => ScalarValue::String(s.clone()),
        }
    }
}

/// Named scalars with their texts taken as sequences.
pub open spec fn scalars(fields: Map<Seq<char>, ScalarValue>) -> Map<Seq<char>, ScalarView> {
    fields.map_values(|value: ScalarValue| value@)
}

/// A structured error of the runtime.
#[derive(Debug, PartialEq, Eq)]
pub struct RuntimeError {
    pub code: String,
    pub source: String,
    pub route: String,
    pub lost_capability: Option<String>,
    pub recovery: Option<String>,
    pub cause: Option<Box<RuntimeError>>,
    pub evidence: OrderedMap<ScalarValue>,
}

#[verifier::ext_equal]
pub struct RuntimeErrorView {
    pub code: Seq<char>,
    pub source: Seq<char>,
    pub route: Seq<char>,
    pub lost_capability: Option<Seq<char>>,
    pub recovery: Option<Seq<char>>,
    pub cause: Option<Box<RuntimeErrorView>>,
    pub evidence: Map<Seq<char>, ScalarView>,
}

pub open spec fn runtime_error_view(error: RuntimeError) -> RuntimeErrorView
    decreases error,
{
    RuntimeErrorView {
        code: error.code@,
        source: error.source@,
        route: error.route@,
        lost_capability: text::opt_text(error.lost_capability),
        recovery: text::opt_text(error.recovery),
        cause: match error.cause {
            Some(cause) => Some(Box::new(runtime_error_view(*cause))),
            None => None,
        },
        evidence: scalars(error.evidence@),
    }
}

impl View for RuntimeError {
    type V = RuntimeErrorView;

    open spec fn view(&self) -> RuntimeErrorView {
        runtime_error_view(*self)
    }
}

impl Clone for RuntimeError {
    fn clone(&self) -> (copy: Self)
        ensures
            copy@ == self@,
        decreases self,
    {
        let evidence = self.evidence.clone();
        assert(evidence@ =~= self.evidence@);
        RuntimeError {
            code: self.code.clone(),
            source: self.source.clone(),
            route: self.route.clone(),
            lost_capability: self.lost_capability.clone(),
            recovery: self.recovery.clone(),
            cause: match &self.cause {
                Some(cause) => Some(Box::new((&**cause).clone())),
                None => None,
            },
            evidence,
        }
    }
}

impl RuntimeError {
    /// The error that carries nothing but a code, a source and a route.
    pub open spec fn plain(code: Seq<char>, source: Seq<char>, route: Seq<char>) -> RuntimeErrorView {
        RuntimeErrorView {
            code,
            source,
            route,
            lost_capability: None,
            recovery: None,
            cause: None,
            evidence: Map::empty(),
        }
    }

    /// The error that carries a code, a source, a route and one text as evidence.
    pub open spec fn plain_with_evidence(
        code: Seq<char>,
        source: Seq<char>,
        route: Seq<char>,
        key: Seq<char>,
        value: Seq<char>,
    ) -> RuntimeErrorView {
        RuntimeErrorView {
            evidence: Map::empty().insert(key, ScalarView::String(value)),
            ..RuntimeError::plain(code, source, route)
        }
    }

    pub fn new(code: &str, source: &str, route: &str) -> (error: Self)
        ensures
            error@ == RuntimeError::plain(code@, source@, route@),
            error.code@ == code@,
            error.source@ == source@,
            error.route@ == route@,
            error.lost_capability is None,
            error.recovery is None,
            error.cause is None,
            error.evidence@ == Map::<Seq<char>, ScalarValue>::empty(),
    {
        let error = RuntimeError {
            code: code.to_owned(),
            source: source.to_owned(),
            route: route.to_owned(),
            lost_capability: None,
            recovery: None,
            cause: None,
            evidence: OrderedMap::new(),
        };
        assert(error@.evidence =~= Map::<Seq<char>, ScalarView>::empty());
        error
    }

    /// An error with one text as evidence.
    pub fn with_evidence(code: &str, source: &str, route: &str, key: &str, value: &str) -> (error:
        Self)
        ensures
            error@ == RuntimeError::plain_with_evidence(code@, source@, route@, key@, value@),
            error.code@ == code@,
            error.source@ == source@,
            error.route@ == route@,
    {
        let mut error = RuntimeError::new(code, source, route);
        error.evidence.insert(key.to_owned(), ScalarValue::String(value.to_owned()));
        assert(error@.evidence =~= Map::<Seq<char>, ScalarView>::empty().insert(
            key@,
            ScalarView::String(value@),
        ));
        error
    }
}

/// What a runtime event is about: a task, a trace, or something else of a given name.
#[derive(Debug, PartialEq, Eq)]
pub enum RuntimeEventKind {
    Task,
    Trace,
    Other(String),
}

impl Clone for RuntimeEventKind {
    fn clone(&self) -> (copy: Self)
        ensures
            copy == *self,
    {
        match self {
            RuntimeEventKind::Task => RuntimeEventKind::Task,
            RuntimeEventKind::Trace => RuntimeEventKind::Trace,
            RuntimeEventKind::Other(name) => RuntimeEventKind::Other(name.clone()),
        }
    }
}

/// An event of the runtime's observation stream.
#[derive(Debug, PartialEq, Eq)]
pub struct RuntimeEvent {
    pub sequence: u64,
    pub kind: RuntimeEventKind,
    pub name: String,
    pub subject_id: Option<String>,
    pub attributes: OrderedMap<ScalarValue>,
    pub error: Option<RuntimeError>,
}

#[verifier::ext_equal]
pub struct RuntimeEventView {
    pub sequence: u64,
    pub kind: RuntimeEventKind,
    pub name: Seq<char>,
    pub subject_id: Option<Seq<char>>,
    pub attributes: Map<Seq<char>, ScalarView>,
    pub error: Option<RuntimeErrorView>,
}

/// The view of an optional runtime error.
pub open spec fn opt_error(error: Option<RuntimeError>) -> Option<RuntimeErrorView> {
    match error {
        Some(e) => Some(e@),
        None => None,
    }
}

impl View for RuntimeEvent {
    type V = RuntimeEventView;

    open spec fn view(&self) -> RuntimeEventView {
        RuntimeEventView {
            sequence: self.sequence,
            kind: self.kind,
            name: self.name@,
            subject_id: text::opt_text(self.subject_id),
            attributes: scalars(self.attributes@),
            error: opt_error(self.error),
        }
    }
}

impl Clone for RuntimeEvent {
    fn clone(&self) -> (copy: Self)
        ensures
            copy@ == self@,
    {
        let attributes = self.attributes.clone();
        assert(attributes@ =~= self.attributes@);
        RuntimeEvent {
            sequence: self.sequence,
            kind: self.kind.clone(),
            name: self.name.clone(),
            subject_id: self.subject_id.clone(),
            attributes,
            error: match &self.error {
                Some(error) => Some(error.clone()),
                None => None,
            },
        }
    }
}

/// The views of a row of runtime events.
pub open spec fn event_views(events: Seq<RuntimeEvent>) -> Seq<RuntimeEventView> {
    events.map_values(|event: RuntimeEvent| event@)
}

/// A span of the runtime's trace stream. `rest` is what else the runtime says of it, which is only
/// carried through.
#[derive(Debug, PartialEq, Eq)]
pub struct TraceSpan {
    pub trace_id: String,
    pub name: String,
    pub rest: serde_json::Value,
}

impl Clone for TraceSpan {
    fn clone(&self) -> (copy: Self)
        ensures
            copy == *self,
    {
        TraceSpan {
            trace_id: self.trace_id.clone(),
            name: self.name.clone(),
            rest: self.rest.clone(),
        }
    }
}

/// One page of an observation stream, read behind a cursor.
#[derive(Debug, PartialEq, Eq)]
pub struct ObservabilityPage<T> {
    pub items: Vec<T>,
    pub next_sequence: u64,
    pub earliest_available_sequence: Option<u64>,
    pub latest_sequence: u64,
    pub lost: u64,
    pub truncated: bool,
    pub dropped: u64,
}

/// What happens to the children of a cancelled task: they are cancelled too, or something else of
/// a given name.
#[derive(Debug, PartialEq, Eq)]
pub enum CancelPolicy {
    Cascade,
    Other(String),
}

impl Clone for CancelPolicy {
    fn clone(&self) -> (copy: Self)
        ensures
            copy == *self,
    {
        match self {
            CancelPolicy::Cascade => CancelPolicy::Cascade,
            CancelPolicy::Other(name) => CancelPolicy::Other(name.clone()),
        }
    }
}

/// A unit of work for the runtime.
#[derive(Debug, PartialEq, Eq)]
pub struct Task {
    pub task_id: String,
    pub protocol_id: String,
    pub payload: serde_json::Value,
    pub trace_id: Option<String>,
    pub correlation_id: Option<String>,
    pub idempotency_key: Option<String>,
    pub input_refs: Vec<String>,
    pub priority: i64,
}

impl Task {
    pub fn new(task_id: String, protocol_id: String, payload: serde_json::Value) -> (task: Self)
        ensures
            task.task_id == task_id,
            task.protocol_id == protocol_id,
            task.payload == payload,
            task.trace_id is None,
            task.correlation_id is None,
            task.idempotency_key is None,
            task.input_refs@ == Seq::<String>::empty(),
            task.priority == 0,
    {
        Task {
            task_id,
            protocol_id,
            payload,
            trace_id: None,
            correlation_id: None,
            idempotency_key: None,
            input_refs: Vec::new(),
            priority: 0,
        }
    }
}

/// Tasks that are submitted together. The plan for their resources is only carried through.
#[derive(Debug, PartialEq, Eq)]
pub struct TaskBatch {
    pub batch_id: String,
    pub tick_id: Option<String>,
    pub tasks: Vec<Task>,
    pub resource_plan: Option<serde_json::Value>,
}

/// What the runtime hands out for a submitted task.
#[derive(Debug, PartialEq, Eq)]
pub struct TaskHandle {
    pub task_id: String,
    pub protocol_id: String,
    pub target_binding_id: Option<String>,
    pub cancel_policy: CancelPolicy,
    pub trace_id: Option<String>,
    pub correlation_id: Option<String>,
}

impl Clone for TaskHandle {
    fn clone(&self) -> (copy: Self)
        ensures
            copy == *self,
    {
        TaskHandle {
            task_id: self.task_id.clone(),
            protocol_id: self.protocol_id.clone(),
            target_binding_id: self.target_binding_id.clone(),
            cancel_policy: self.cancel_policy.clone(),
            trace_id: self.trace_id.clone(),
            correlation_id: self.correlation_id.clone(),
        }
    }
}

/// Where a task stands.
#[derive(Clone, Copy, Debug, PartialEq, Eq, Structural)]
pub enum TaskStatus {
    Created,
    Ready,
    Running,
    Waiting,
    Blocked,
    Completed,
    Failed,
    Expired,
    DeadLetter,
    Cancelled,
}

/// How a task ended.
#[derive(Debug, PartialEq, Eq)]
pub enum TaskOutcome {
    Completed { task_id: String, output_ref: Option<String> },
    Failed { task_id: String, error: RuntimeError },
    Cancelled { task_id: String, reason: Option<String> },
    /// Some other end, which is only carried through.
    Other { outcome: serde_json::Value },
}

pub enum TaskOutcomeView {
    Completed { task_id: Seq<char>, output_ref: Option<Seq<char>> },
    Failed { task_id: Seq<char>, error: RuntimeErrorView },
    Cancelled { task_id: Seq<char>, reason: Option<Seq<char>> },
    Other { outcome: serde_json::Value },
}

impl View for TaskOutcome {
    type V = TaskOutcomeView;

    open spec fn view(&self) -> TaskOutcomeView {
        match *self {
            TaskOutcome::Completed { task_id, output_ref } => TaskOutcomeView::Completed {
                task_id: task_id@,
                output_ref: text::opt_text(output_ref),
            },
            TaskOutcome::Failed { task_id, error } => TaskOutcomeView::Failed {
                task_id: task_id@,
                error: error@,
            },
            TaskOutcome::Cancelled { task_id, reason } => TaskOutcomeView::Cancelled {
                task_id: task_id@,
                reason: text::opt_text(reason),
            },
            TaskOutcome::Other { outcome } => TaskOutcomeView::Other { outcome },
        }
    }
}

impl Clone for TaskOutcome {
    fn clone(&self) -> (copy: Self)
        ensures
            copy@ == self@,
    {
        match self {
            TaskOutcome::Completed { task_id, output_ref } => TaskOutcome::Completed {
                task_id: task_id.clone(),
                output_ref: output_ref.clone(),
            },
            TaskOutcome::Failed { task_id, error } => TaskOutcome::Failed {
                task_id: task_id.clone(),
                error: error.clone(),
            },
            TaskOutcome::Cancelled { task_id, reason } => TaskOutcome::Cancelled {
                task_id: task_id.clone(),
                reason: reason.clone(),
            },
            TaskOutcome::Other { outcome } => TaskOutcome::Other { outcome: outcome.clone() },
        }
    }
}

/// The view of an optional outcome.
pub open spec fn opt_outcome(outcome: Option<TaskOutcome>) -> Option<TaskOutcomeView> {
    match outcome {
        Some(o) => Some(o@),
        None => None,
    }
}

/// What the runtime answers about one tracked task.
#[derive(Debug, PartialEq, Eq)]
pub struct HostTaskState {
    pub handle: TaskHandle,
    pub status: Option<TaskStatus>,
    pub outcome: Option<TaskOutcome>,
}

/// One line of the runtime's task table.
#[derive(Debug, PartialEq, Eq)]
pub struct HostTaskSnapshot {
    pub task_id: String,
    pub protocol_id: String,
    pub status: TaskStatus,
    pub trace_id: Option<String>,
    pub correlation_id: Option<String>,
}

/// The slot that a resource lives in.
#[derive(Debug, PartialEq, Eq)]
pub struct ResourceId {
    pub kind_id: String,
    pub slot_id: String,
    pub generation: u64,
    pub version: u64,
}

impl Clone for ResourceId {
    fn clone(&self) -> (copy: Self)
        ensures
            copy == *self,
    {
        ResourceId {
            kind_id: self.kind_id.clone(),
            slot_id: self.slot_id.clone(),
            generation: self.generation,
            version: self.version,
        }
    }
}

/// How the body of a resource may change.
#[derive(Clone, Copy, Debug, PartialEq, Eq, Structural)]
pub enum ResourceSemantic {
    FrozenValue,
    VersionedSnapshot,
    CowVersionedState,
    CapabilityResource,
}

/// Where the body of a resource is found.
#[derive(Debug, PartialEq, Eq)]
pub enum ResourceAccess {
    Inline,
    Blob { store_id: String, key: String },
    ProviderRpc { provider_id: String, method: String },
}

impl Clone for ResourceAccess {
    fn clone(&self) -> (copy: Self)
        ensures
            copy == *self,
    {
        match self {
            ResourceAccess::Inline => ResourceAccess::Inline,
            ResourceAccess::Blob { store_id, key } => ResourceAccess::Blob {
                store_id: store_id.clone(),
                key: key.clone(),
            },
            ResourceAccess::ProviderRpc { provider_id, method } => ResourceAccess::ProviderRpc {
                provider_id: provider_id.clone(),
                method: method.clone(),
            },
        }
    }
}

/// How long a resource lives.
#[derive(Clone, Copy, Debug, PartialEq, Eq, Structural)]
pub enum ResourceLifetime {
    Persistent,
    BorrowedUntilTaskEnd,
}

/// Whether the body of a resource is complete.
#[derive(Clone, Copy, Debug, PartialEq, Eq, Structural)]
pub enum ResourceSealState {
    Open,
    Sealed,
}

/// A descriptor that stands for a body of data.
#[derive(Debug, PartialEq, Eq)]
pub struct ResourceRef {
    pub ref_id: String,
    pub resource_id: ResourceId,
    pub semantic: ResourceSemantic,
    pub provider_id: String,
    pub resource_kind: String,
    pub schema: String,
    pub version: u64,
    pub generation: u64,
    pub access: ResourceAccess,
    pub size_hint: Option<u64>,
    pub content_hash: Option<String>,
    pub lifetime: ResourceLifetime,
    pub lease: Option<String>,
    pub seal_state: ResourceSealState,
}

impl Clone for ResourceRef {
    fn clone(&self) -> (copy: Self)
        ensures
            copy == *self,
    {
        ResourceRef {
            ref_id: self.ref_id.clone(),
            resource_id: self.resource_id.clone(),
            semantic: self.semantic,
            provider_id: self.provider_id.clone(),
            resource_kind: self.resource_kind.clone(),
            schema: self.schema.clone(),
            version: self.version,
            generation: self.generation,
            access: self.access.clone(),
            size_hint: self.size_hint,
            content_hash: self.content_hash.clone(),
            lifetime: self.lifetime,
            lease: self.lease.clone(),
            seal_state: self.seal_state,
        }
    }
}

/// The codes of the host's errors tell them apart.
pub proof fn law_codes_tell_errors_apart()
    ensures
        ERR_RUNNER_NOT_FOUND@ == "runner.not_found"@,
        ERR_RUNTIME_HOST_FAILED@ == "runtime.host_failed"@,
        ERR_RESOURCE_NOT_FOUND@ == "resource.not_found"@,
        ERR_RESOURCE_GENERATION_MISMATCH@ == "resource.generation_mismatch"@,
{
}

/// A plain error tells its code, its source and its route, and nothing else but the evidence that
/// it was given.
pub proof fn law_plain_error_tells_what_it_was_given(
    code: Seq<char>,
    source: Seq<char>,
    route: Seq<char>,
    key: Seq<char>,
    value: Seq<char>,
)
    ensures
        ({
            let bare = RuntimeError::plain(code, source, route);
            let told = RuntimeError::plain_with_evidence(code, source, route, key, value);
            &&& bare.code == code && bare.source == source && bare.route == route
            &&& bare.lost_capability is None && bare.recovery is None && bare.cause is None
            &&& bare.evidence.dom() == Set::<Seq<char>>::empty()
            &&& told == (RuntimeErrorView { evidence: told.evidence, ..bare })
            &&& told.evidence.dom() == set![key]
            &&& told.evidence[key] == ScalarView::String(value)
        }),
{
    let bare = RuntimeError::plain(code, source, route);
    let told = RuntimeError::plain_with_evidence(code, source, route, key, value);
    assert(bare.evidence.dom() =~= Set::<Seq<char>>::empty());
    assert(told.evidence.dom() =~= set![key]);
}

/// The view of an error tells all of it, that of its cause too.
pub proof fn law_error_is_seen_whole(error: RuntimeError, key: Seq<char>)
    ensures
        error@.code == error.code@,
        error@.source == error.source@,
        error@.route == error.route@,
        error@.lost_capability == text::opt_text(error.lost_capability),
        error@.recovery == text::opt_text(error.recovery),
        error.cause is None <==> error@.cause is None,
        error.cause matches Some(cause) ==> error@.cause == Some(Box::new(cause@)),
        error@.evidence.contains_key(key) <==> error.evidence@.contains_key(key),
        error.evidence@.contains_key(key) ==> error@.evidence[key] == error.evidence@[key]@,
{
}

/// The view of a scalar tells its kind and its value.
pub proof fn law_scalar_is_seen_whole(value: ScalarValue)
    ensures
        value is Null <==> value@ is Null,
        value matches ScalarValue::Bool(b) ==> value@ == ScalarView::Bool(b),
        value matches ScalarValue::Int(i) ==> value@ == ScalarView::Int(i),
        value matches ScalarValue::FloatBits(bits) ==> value@ == ScalarView::FloatBits(bits),
        value matches ScalarValue::String(s) ==> value@ == ScalarView::String(s@),
{
}

/// The view of an event tells all of it.
pub proof fn law_event_is_seen_whole(event: RuntimeEvent, key: Seq<char>)
    ensures
        event@.sequence == event.sequence,
        event@.kind == event.kind,
        event@.name == event.name@,
        event@.subject_id == text::opt_text(event.subject_id),
        event@.attributes.contains_key(key) <==> event.attributes@.contains_key(key),
        event.attributes@.contains_key(key) ==> event@.attributes[key] == event.attributes@[key]@,
        event.error is None <==> event@.error is None,
        event.error matches Some(error) ==> event@.error == Some(error@),
{
}

/// The view of an outcome tells all of it.
pub proof fn law_outcome_is_seen_whole(outcome: TaskOutcome)
    ensures
        match outcome {
            TaskOutcome::Completed { task_id, output_ref } => outcome@
                == (TaskOutcomeView::Completed {
                task_id: task_id@,
                output_ref: text::opt_text(output_ref),
            }),
            TaskOutcome::Failed { task_id, error } => outcome@ == (TaskOutcomeView::Failed {
                task_id: task_id@,
                error: error@,
            }),
            TaskOutcome::Cancelled { task_id, reason } => outcome@
                == (TaskOutcomeView::Cancelled {
                task_id: task_id@,
                reason: text::opt_text(reason),
            }),
            TaskOutcome::Other { outcome: other } => outcome@ == (TaskOutcomeView::Other {
                outcome: other,
            }),
        },
        opt_outcome(Some(outcome)) == Some(outcome@),
        opt_outcome(None) is None,
{
}

} // verus!
