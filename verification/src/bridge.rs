//! What the frontend sends and is shown, and the hub that hands events to its listeners.
use crate::contracts::{
    ResourceRef, RuntimeError, RuntimeErrorView, RuntimeEvent, RuntimeEventView, ScalarValue,
    ScalarView, Task, TaskOutcome, TaskOutcomeView, TaskStatus, TraceSpan,
};
use crate::contracts;
use crate::ids;
use crate::json::{JsonMember, JsonValue, JsonView};
use crate::ordered_map::OrderedMap;
use crate::ordered_map;
use crate::redact;
use crate::text;
use vstd::prelude::*;
use vstd::string::*;

verus! {

broadcast use vstd::string::group_string_axioms;

/// Why an event did not reach the frontend.
#[derive(Debug, PartialEq, Eq)]
pub enum BridgeError {
    Frontend { code: String, message: String },
    NoEventReceiver,
}

impl BridgeError {
    /// The error in words.
    pub fn message(&self) -> (words: String)
        ensures
            words@ == match *self {
                BridgeError::Frontend { code, message } => code@ + ": "@ + message@,
                BridgeError::NoEventReceiver => "event channel has no active receiver"@,
            },
    {
        match self {
            BridgeError::Frontend { code, message } => text::join3(
                code.as_str(),
                ": ",
                message.as_str(),
            ),
            BridgeError::NoEventReceiver => "event channel has no active receiver".to_owned(),
        }
    }
}

/// An error as the frontend is shown it.
#[derive(Debug, PartialEq, Eq)]
pub struct FrontendError {
    pub code: String,
    pub message: String,
    pub details: Option<JsonValue>,
}

pub struct FrontendErrorView {
    pub code: Seq<char>,
    pub message: Seq<char>,
    pub details: Option<JsonView>,
}

impl View for FrontendError {
    type V = FrontendErrorView;

    open spec fn view(&self) -> FrontendErrorView {
        FrontendErrorView {
            code: self.code@,
            message: self.message@,
            details: match self.details {
                Some(details) => Some(details@),
                None => None,
            },
        }
    }
}

/// A double is neither infinite nor not a number.
pub open spec fn finite_bits(bits: u64) -> bool {
    (bits / 0x10_0000_0000_0000) % 0x800 != 0x7ff
}

/// A scalar as JSON. A double without a finite value has no number in JSON.
pub open spec fn scalar_json(value: ScalarView) -> JsonView {
    match value {
        ScalarView::Null => JsonView::Null,
        ScalarView::Bool(b) => JsonView::Bool(b),
        ScalarView::Int(i) => JsonView::Number(
            if i < 0 {
                crate::json::JsonNumber::Negative(i)
            } else {
                crate::json::JsonNumber::Unsigned(i as u64)
            },
        ),
        ScalarView::FloatBits(bits) => if finite_bits(bits) {
            JsonView::Number(crate::json::JsonNumber::FloatBits(bits))
        } else {
            JsonView::Null
        },
        ScalarView::String(s) => JsonView::String(s),
    }
}

/// Named scalars as a JSON object with its keys in ascending order.
pub open spec fn scalars_json(fields: Map<Seq<char>, ScalarView>) -> JsonView {
    JsonView::Object(
        ordered_map::in_order(fields.dom()).map_values(
            |key: Seq<char>| (key, scalar_json(fields[key])),
        ),
    )
}

fn scalar_to_json(value: &ScalarValue) -> (shown: JsonValue)
    ensures
        shown@ == scalar_json(value@),
{
    match value {
        ScalarValue::Null => JsonValue::Null,
        ScalarValue::Bool(b) => JsonValue::Bool(*b),
        ScalarValue::Int(i) => {
            let i: i64 = *i;
            if i < 0 {
                JsonValue::Number(crate::json::JsonNumber::Negative(i))
            } else {
                JsonValue::Number(crate::json::JsonNumber::Unsigned(i as u64))
            }
        },
        ScalarValue::FloatBits(bits) => {
            let bits: u64 = *bits;
            if (bits / 0x10_0000_0000_0000) % 0x800 != 0x7ff {
                JsonValue::Number(crate::json::JsonNumber::FloatBits(bits))
            } else {
                JsonValue::Null
            }
        },
        ScalarValue::String(s) => JsonValue::String(s.clone()),
    }
}

/// Writes named scalars as a JSON object.
pub fn scalars_to_json(fields: &OrderedMap<ScalarValue>) -> (shown: JsonValue)
    ensures
        shown@ == scalars_json(contracts::scalars(fields@)),
{
    let n: usize = fields.len();
    let mut members: Vec<JsonMember> = Vec::new();
    let mut i: usize = 0;
    while i < n
        invariant
            i <= n,
            n == fields.keys().len(),
            members.len() == i,
            forall|j: int|
                0 <= j < i ==> (#[trigger] members@[j]).key@ == fields.keys()[j]
                    && members@[j].value@ == scalar_json(fields@[fields.keys()[j]]@)
                    && fields@.contains_key(fields.keys()[j]),
        decreases n - i,
    {
        members.push(
            JsonMember {
                key: fields.key_at(i).clone(),
                value: scalar_to_json(fields.value_at(i)),
            },
        );
        i = i + 1;
    }
    let shown = JsonValue::Object(members);
    proof {
        let expected = scalars_json(contracts::scalars(fields@));
        assert(contracts::scalars(fields@).dom() =~= fields@.dom());
        assert(shown@->Object_0 =~= expected->Object_0);
    }
    shown
}

impl FrontendError {
    pub fn new(code: String, message: String) -> (error: Self)
        ensures
            error == (FrontendError { code, message, details: None }),
    {
        FrontendError { code, message, details: None }
    }

    pub fn with_details(self, details: JsonValue) -> (error: Self)
        ensures
            error == (FrontendError { code: self.code, message: self.message, details: Some(details) }),
    {
        FrontendError { code: self.code, message: self.message, details: Some(details) }
    }

    /// How a runtime error is shown: by its code and its route, with its evidence free of
    /// secrets as details.
    pub open spec fn of_runtime_error(error: RuntimeErrorView) -> FrontendErrorView {
        FrontendErrorView {
            code: error.code,
            message: error.route,
            details: Some(scalars_json(redact::redacted_scalars(error.evidence))),
        }
    }
}

impl From<RuntimeError> for FrontendError {
    fn from(error: RuntimeError) -> (shown: Self)
        ensures
            shown@ == FrontendError::of_runtime_error(error@),
    {
        let error = redact::redact_runtime_error(error);
        let details = scalars_to_json(&error.evidence);
        FrontendError { code: error.code, message: error.route, details: Some(details) }
    }
}

impl vstd::std_specs::convert::FromSpecImpl<RuntimeError> for FrontendError {
    open spec fn obeys_from_spec() -> bool {
        false
    }

    open spec fn from_spec(error: RuntimeError) -> Self {
        arbitrary()
    }
}

/// Where in the frontend a request came from.
#[derive(Debug, PartialEq, Eq)]
pub struct FrontendContext {
    pub window_label: Option<String>,
    pub webview_id: Option<String>,
    pub session_id: Option<String>,
    pub user_action_id: Option<String>,
}

#[verifier::ext_equal]
pub struct FrontendContextView {
    pub window_label: Option<Seq<char>>,
    pub webview_id: Option<Seq<char>>,
    pub session_id: Option<Seq<char>>,
    pub user_action_id: Option<Seq<char>>,
}

impl View for FrontendContext {
    type V = FrontendContextView;

    open spec fn view(&self) -> FrontendContextView {
        FrontendContextView {
            window_label: text::opt_text(self.window_label),
            webview_id: text::opt_text(self.webview_id),
            session_id: text::opt_text(self.session_id),
            user_action_id: text::opt_text(self.user_action_id),
        }
    }
}

impl Clone for FrontendContext {
    fn clone(&self) -> (copy: Self)
        ensures
            copy == *self,
    {
        FrontendContext {
            window_label: self.window_label.clone(),
            webview_id: self.webview_id.clone(),
            session_id: self.session_id.clone(),
            user_action_id: self.user_action_id.clone(),
        }
    }
}

impl Default for FrontendContext {
    fn default() -> (context: Self)
        ensures
            context == (FrontendContext {
                window_label: None,
                webview_id: None,
                session_id: None,
                user_action_id: None,
            }),
    {
        FrontendContext {
            window_label: None,
            webview_id: None,
            session_id: None,
            user_action_id: None,
        }
    }
}

fn same_opt_text(a: &Option<String>, b: &Option<String>) -> (same: bool)
    ensures
        same == (text::opt_text(*a) == text::opt_text(*b)),
{
    match (a, b) {
        (Some(x), Some(y)) => text::text_eq(x.as_str(), y.as_str()),
        (None, None) => true,
        _ => false,
    }
}

impl FrontendContext {
    /// Whether two contexts name the same place.
    pub fn same_as(&self, other: &FrontendContext) -> (same: bool)
        ensures
            same == (self@ == other@),
    {
        same_opt_text(&self.window_label, &other.window_label) && same_opt_text(
            &self.webview_id,
            &other.webview_id,
        ) && same_opt_text(&self.session_id, &other.session_id) && same_opt_text(
            &self.user_action_id,
            &other.user_action_id,
        )
    }
}

/// A call of a protocol from the frontend.
#[derive(Debug, PartialEq, Eq)]
pub struct FrontendTaskRequest {
    pub protocol_id: String,
    pub payload: serde_json::Value,
    pub task_id: Option<String>,
    pub trace_id: Option<String>,
    pub correlation_id: Option<String>,
    pub idempotency_key: Option<String>,
    pub input_refs: Vec<String>,
    pub priority: i64,
    pub context: FrontendContext,
}

impl FrontendTaskRequest {
    /// `task` is what this request asks for: it has the requested identifier, or a new one where
    /// none was requested.
    pub open spec fn asks_for(self, task: Task) -> bool {
        &&& match self.task_id {
            Some(id) => task.task_id == id,
            None => ids::prefixed_id("tauri-task:"@, task.task_id@),
        }
        &&& task.protocol_id == self.protocol_id
        &&& task.payload == self.payload
        &&& task.trace_id == self.trace_id
        &&& task.correlation_id == self.correlation_id
        &&& task.idempotency_key == self.idempotency_key
        &&& task.input_refs == self.input_refs
        &&& task.priority == self.priority
    }

    pub fn into_task(self) -> (task: Task)
        ensures
            self.asks_for(task),
            task.protocol_id == self.protocol_id,
            task.payload == self.payload,
            task.trace_id == self.trace_id,
            task.correlation_id == self.correlation_id,
            task.idempotency_key == self.idempotency_key,
            task.input_refs == self.input_refs,
            task.priority == self.priority,
            self.task_id matches Some(id) ==> task.task_id == id,
    {
        let task_id = match self.task_id {
            Some(id) => id,
            None => ids::fresh_prefixed_id("tauri-task:"),
        };
        let mut task = Task::new(task_id, self.protocol_id, self.payload);
        task.trace_id = self.trace_id;
        task.correlation_id = self.correlation_id;
        task.idempotency_key = self.idempotency_key;
        task.input_refs = self.input_refs;
        task.priority = self.priority;
        task
    }
}

/// How a task ended, with the events that were kept for it.
#[derive(Debug, PartialEq, Eq)]
pub struct FrontendTaskResult {
    pub task_id: String,
    pub status: Option<TaskStatus>,
    pub outcome: Option<TaskOutcome>,
    pub events: Vec<RuntimeEvent>,
    pub events_dropped: u64,
    pub events_truncated: bool,
}

#[verifier::ext_equal]
pub struct FrontendTaskResultView {
    pub task_id: Seq<char>,
    pub status: Option<TaskStatus>,
    pub outcome: Option<TaskOutcomeView>,
    pub events: Seq<RuntimeEventView>,
    pub events_dropped: u64,
    pub events_truncated: bool,
}

impl View for FrontendTaskResult {
    type V = FrontendTaskResultView;

    open spec fn view(&self) -> FrontendTaskResultView {
        FrontendTaskResultView {
            task_id: self.task_id@,
            status: self.status,
            outcome: contracts::opt_outcome(self.outcome),
            events: contracts::event_views(self.events@),
            events_dropped: self.events_dropped,
            events_truncated: self.events_truncated,
        }
    }
}

impl Clone for FrontendTaskResult {
    fn clone(&self) -> (copy: Self)
        ensures
            copy@ == self@,
    {
        let mut events: Vec<RuntimeEvent> = Vec::new();
        let mut i: usize = 0;
        while i < self.events.len()
            invariant
                i <= self.events.len(),
                events.len() == i,
                forall|j: int| 0 <= j < i ==> (#[trigger] events@[j])@ == self.events@[j]@,
            decreases self.events.len() - i,
        {
            events.push(self.events[i].clone());
            i = i + 1;
        }
        let copy = FrontendTaskResult {
            task_id: self.task_id.clone(),
            status: self.status,
            outcome: match &self.outcome {
                Some(outcome) => Some(outcome.clone()),
                None => None,
            },
            events,
            events_dropped: self.events_dropped,
            events_truncated: self.events_truncated,
        };
        assert(copy@.events =~= self@.events);
        copy
    }
}

/// The answer to a started task.
#[derive(Clone, Debug, PartialEq, Eq)]
pub struct FrontendTaskRun {
    pub task_id: String,
}

#[derive(Clone, Debug, PartialEq, Eq)]
pub struct TaskResultRequest {
    pub task_id: String,
}

#[derive(Clone, Debug, PartialEq, Eq)]
pub struct TaskCancelRequest {
    pub task_id: String,
    pub reason: Option<String>,
}

/// A resource with its whole body.
#[derive(Debug, PartialEq, Eq)]
pub struct ResourceBytes {
    pub resource: ResourceRef,
    pub bytes: Vec<u8>,
    pub media_type: Option<String>,
}

/// A bounded piece of a resource's body.
#[derive(Debug, PartialEq, Eq)]
pub struct ResourceChunk {
    pub resource: ResourceRef,
    pub offset: u64,
    pub total_bytes: u64,
    pub bytes: Vec<u8>,
    pub eof: bool,
}

#[derive(Clone, Debug, PartialEq, Eq)]
pub struct ResourceText {
    pub ref_id: String,
    pub text: String,
}

/// A link under which the frontend can show a resource for a while.
#[derive(Clone, Debug, PartialEq, Eq)]
pub struct PreviewHandle {
    pub ref_id: String,
    pub token: String,
    pub url: String,
    pub expires_at_unix_secs: u64,
}

#[derive(Clone, Copy, Debug, PartialEq, Eq, Structural)]
pub enum ApprovalDecision {
    Allow,
    Deny,
}

impl ApprovalDecision {
    /// The decision in one word.
    pub fn as_str(&self) -> (word: &'static str)
        ensures
            word@ == match *self {
                ApprovalDecision::Allow => "allow"@,
                ApprovalDecision::Deny => "deny"@,
            },
    {
        match self {
            ApprovalDecision::Allow => "allow",
            ApprovalDecision::Deny => "deny",
        }
    }
}

/// What an approval is traced back to.
#[derive(Debug, PartialEq, Eq)]
pub struct ApprovalAttribution {
    pub trace_id: String,
    pub correlation_id: String,
    pub context: FrontendContext,
}

/// A question to the user that waits for a decision.
#[derive(Debug, PartialEq, Eq)]
pub struct ApprovalRequest {
    pub approval_id: String,
    pub token: String,
    pub requester: String,
    pub operation: String,
    pub risk: String,
    pub trace_id: String,
    pub correlation_id: String,
    pub payload: serde_json::Value,
    pub context: FrontendContext,
}

impl Clone for ApprovalRequest {
    fn clone(&self) -> (copy: Self)
        ensures
            copy == *self,
    {
        ApprovalRequest {
            approval_id: self.approval_id.clone(),
            token: self.token.clone(),
            requester: self.requester.clone(),
            operation: self.operation.clone(),
            risk: self.risk.clone(),
            trace_id: self.trace_id.clone(),
            correlation_id: self.correlation_id.clone(),
            payload: self.payload.clone(),
            context: self.context.clone(),
        }
    }
}

/// The user's answer to an approval request.
#[derive(Debug, PartialEq, Eq)]
pub struct ApprovalResponse {
    pub approval_id: String,
    pub token: String,
    pub decision: ApprovalDecision,
    pub reason: Option<String>,
    pub trace_id: Option<String>,
    pub correlation_id: Option<String>,
    pub context: Option<FrontendContext>,
}

/// A plugin as it is listed.
#[derive(Debug, PartialEq, Eq)]
pub struct PluginSummary {
    pub plugin_id: String,
    pub version: String,
    pub enabled: bool,
    pub deployment: String,
    pub status: String,
    pub error: Option<String>,
}

#[verifier::ext_equal]
pub struct PluginSummaryView {
    pub plugin_id: Seq<char>,
    pub version: Seq<char>,
    pub enabled: bool,
    pub deployment: Seq<char>,
    pub status: Seq<char>,
    pub error: Option<Seq<char>>,
}

impl View for PluginSummary {
    type V = PluginSummaryView;

    open spec fn view(&self) -> PluginSummaryView {
        PluginSummaryView {
            plugin_id: self.plugin_id@,
            version: self.version@,
            enabled: self.enabled,
            deployment: self.deployment@,
            status: self.status@,
            error: text::opt_text(self.error),
        }
    }
}

impl Clone for PluginSummary {
    fn clone(&self) -> (copy: Self)
        ensures
            copy == *self,
    {
        PluginSummary {
            plugin_id: self.plugin_id.clone(),
            version: self.version.clone(),
            enabled: self.enabled,
            deployment: self.deployment.clone(),
            status: self.status.clone(),
            error: self.error.clone(),
        }
    }
}

/// The views of a row of plugins.
pub open spec fn plugin_views(plugins: Seq<PluginSummary>) -> Seq<PluginSummaryView> {
    plugins.map_values(|plugin: PluginSummary| plugin@)
}

/// A runner as it is listed.
#[derive(Debug, PartialEq, Eq)]
pub struct RunnerSummary {
    pub runner_id: String,
    pub plugin_id: String,
    pub enabled: bool,
    pub deployment: String,
    pub status: String,
    pub error: Option<String>,
}

#[verifier::ext_equal]
pub struct RunnerSummaryView {
    pub runner_id: Seq<char>,
    pub plugin_id: Seq<char>,
    pub enabled: bool,
    pub deployment: Seq<char>,
    pub status: Seq<char>,
    pub error: Option<Seq<char>>,
}

impl View for RunnerSummary {
    type V = RunnerSummaryView;

    open spec fn view(&self) -> RunnerSummaryView {
        RunnerSummaryView {
            runner_id: self.runner_id@,
            plugin_id: self.plugin_id@,
            enabled: self.enabled,
            deployment: self.deployment@,
            status: self.status@,
            error: text::opt_text(self.error),
        }
    }
}

impl Clone for RunnerSummary {
    fn clone(&self) -> (copy: Self)
        ensures
            copy == *self,
    {
        RunnerSummary {
            runner_id: self.runner_id.clone(),
            plugin_id: self.plugin_id.clone(),
            enabled: self.enabled,
            deployment: self.deployment.clone(),
            status: self.status.clone(),
            error: self.error.clone(),
        }
    }
}

/// The views of a row of runners.
pub open spec fn runner_views(runners: Seq<RunnerSummary>) -> Seq<RunnerSummaryView> {
    runners.map_values(|runner: RunnerSummary| runner@)
}

/// How one part of the host is doing.
#[derive(Clone, Debug, PartialEq, Eq)]
pub struct HealthComponent {
    pub healthy: bool,
    pub status: String,
    pub error: Option<String>,
}

#[verifier::ext_equal]
pub struct HealthComponentView {
    pub healthy: bool,
    pub status: Seq<char>,
    pub error: Option<Seq<char>>,
}

impl View for HealthComponent {
    type V = HealthComponentView;

    open spec fn view(&self) -> HealthComponentView {
        HealthComponentView {
            healthy: self.healthy,
            status: self.status@,
            error: text::opt_text(self.error),
        }
    }
}

/// How the runtime is doing.
#[derive(Clone, Debug, PartialEq, Eq)]
pub struct RuntimeHealth {
    pub healthy: bool,
    pub status: String,
    pub active_tasks: usize,
    pub failed_tasks: usize,
    pub error: Option<String>,
}

#[verifier::ext_equal]
pub struct RuntimeHealthView {
    pub healthy: bool,
    pub status: Seq<char>,
    pub active_tasks: nat,
    pub failed_tasks: nat,
    pub error: Option<Seq<char>>,
}

impl View for RuntimeHealth {
    type V = RuntimeHealthView;

    open spec fn view(&self) -> RuntimeHealthView {
        RuntimeHealthView {
            healthy: self.healthy,
            status: self.status@,
            active_tasks: self.active_tasks as nat,
            failed_tasks: self.failed_tasks as nat,
            error: text::opt_text(self.error),
        }
    }
}

/// An error that the host remembers for a while.
#[derive(Debug, PartialEq, Eq)]
pub struct HostRecentError {
    pub source: String,
    pub message: String,
    pub timestamp_ms: i64,
    pub plugin_id: Option<String>,
    pub runner_id: Option<String>,
    pub task_id: Option<String>,
    pub code: Option<String>,
    pub route: Option<String>,
}

#[verifier::ext_equal]
pub struct HostRecentErrorView {
    pub source: Seq<char>,
    pub message: Seq<char>,
    pub timestamp_ms: i64,
    pub plugin_id: Option<Seq<char>>,
    pub runner_id: Option<Seq<char>>,
    pub task_id: Option<Seq<char>>,
    pub code: Option<Seq<char>>,
    pub route: Option<Seq<char>>,
}

impl View for HostRecentError {
    type V = HostRecentErrorView;

    open spec fn view(&self) -> HostRecentErrorView {
        HostRecentErrorView {
            source: self.source@,
            message: self.message@,
            timestamp_ms: self.timestamp_ms,
            plugin_id: text::opt_text(self.plugin_id),
            runner_id: text::opt_text(self.runner_id),
            task_id: text::opt_text(self.task_id),
            code: text::opt_text(self.code),
            route: text::opt_text(self.route),
        }
    }
}

impl Clone for HostRecentError {
    fn clone(&self) -> (copy: Self)
        ensures
            copy == *self,
    {
        HostRecentError {
            source: self.source.clone(),
            message: self.message.clone(),
            timestamp_ms: self.timestamp_ms,
            plugin_id: self.plugin_id.clone(),
            runner_id: self.runner_id.clone(),
            task_id: self.task_id.clone(),
            code: self.code.clone(),
            route: self.route.clone(),
        }
    }
}

/// The host at a glance.
#[derive(Debug, PartialEq, Eq)]
pub struct HostStatus {
    pub app_name: String,
    pub profile_id: String,
    pub mode: String,
    pub healthy: bool,
    pub runtime: RuntimeHealth,
    pub host: HealthComponent,
    pub plugins_health: HealthComponent,
    pub runners_health: HealthComponent,
    pub recent_errors: Vec<HostRecentError>,
    pub plugins: Vec<PluginSummary>,
    pub runners: Vec<RunnerSummary>,
}

/// One line of the log as the frontend is shown it.
#[derive(Debug, PartialEq, Eq)]
pub struct FrontendLogRecord {
    pub level: String,
    pub target: String,
    pub message: String,
    pub timestamp_ms: i64,
    pub trace_id: Option<String>,
    pub correlation_id: Option<String>,
    pub fields: OrderedMap<JsonValue>,
}

#[verifier::ext_equal]
pub struct FrontendLogRecordView {
    pub level: Seq<char>,
    pub target: Seq<char>,
    pub message: Seq<char>,
    pub timestamp_ms: i64,
    pub trace_id: Option<Seq<char>>,
    pub correlation_id: Option<Seq<char>>,
    pub fields: Map<Seq<char>, JsonView>,
}

impl View for FrontendLogRecord {
    type V = FrontendLogRecordView;

    open spec fn view(&self) -> FrontendLogRecordView {
        FrontendLogRecordView {
            level: self.level@,
            target: self.target@,
            message: self.message@,
            timestamp_ms: self.timestamp_ms,
            trace_id: text::opt_text(self.trace_id),
            correlation_id: text::opt_text(self.correlation_id),
            fields: redact::json_fields(self.fields@),
        }
    }
}

impl Clone for FrontendLogRecord {
    fn clone(&self) -> (copy: Self)
        ensures
            copy@ == self@,
    {
        let fields = self.fields.clone();
        assert(redact::json_fields(fields@) =~= redact::json_fields(self.fields@)) by {
            assert forall|k: Seq<char>| #[trigger] self.fields@.contains_key(k) implies fields@[k]@
                == self.fields@[k]@ by {
                assert(cloned(self.fields@[k], fields@[k]));
            }
        }
        FrontendLogRecord {
            level: self.level.clone(),
            target: self.target.clone(),
            message: self.message.clone(),
            timestamp_ms: self.timestamp_ms,
            trace_id: self.trace_id.clone(),
            correlation_id: self.correlation_id.clone(),
            fields,
        }
    }
}

/// A log line as it may be shown.
pub open spec fn redacted_record(record: FrontendLogRecordView) -> FrontendLogRecordView {
    FrontendLogRecordView {
        message: redact::redacted_message(record.message),
        fields: redact::redacted_fields(record.fields),
        ..record
    }
}

/// Replaces what a log line must not show.
pub fn redact_log_record(record: FrontendLogRecord) -> (shown: FrontendLogRecord)
    ensures
        shown@ == redacted_record(record@),
{
    FrontendLogRecord {
        level: record.level,
        target: record.target,
        message: redact::redact_message(record.message),
        timestamp_ms: record.timestamp_ms,
        trace_id: record.trace_id,
        correlation_id: record.correlation_id,
        fields: redact::redact_json_fields(record.fields),
    }
}

/// A step of a delivery to another app.
#[derive(Debug, PartialEq, Eq)]
pub struct DeliveryProgress {
    pub request_id: String,
    pub target_app: String,
    pub phase: String,
    pub error: Option<String>,
    pub error_kind: Option<String>,
}

#[verifier::ext_equal]
pub struct DeliveryProgressView {
    pub request_id: Seq<char>,
    pub target_app: Seq<char>,
    pub phase: Seq<char>,
    pub error: Option<Seq<char>>,
    pub error_kind: Option<Seq<char>>,
}

impl View for DeliveryProgress {
    type V = DeliveryProgressView;

    open spec fn view(&self) -> DeliveryProgressView {
        DeliveryProgressView {
            request_id: self.request_id@,
            target_app: self.target_app@,
            phase: self.phase@,
            error: text::opt_text(self.error),
            error_kind: text::opt_text(self.error_kind),
        }
    }
}

impl Clone for DeliveryProgress {
    fn clone(&self) -> (copy: Self)
        ensures
            copy == *self,
    {
        DeliveryProgress {
            request_id: self.request_id.clone(),
            target_app: self.target_app.clone(),
            phase: self.phase.clone(),
            error: self.error.clone(),
            error_kind: self.error_kind.clone(),
        }
    }
}

/// The task of a request is its own: whatever the frontend said of it, the runtime is told. So two
/// requests with different keys against repetition are never taken for one, and neither are
/// requests that differ in anything else that a task carries.
pub proof fn law_task_carries_its_request(request: FrontendTaskRequest, task: Task)
    requires
        request.asks_for(task),
    ensures
        task.protocol_id == request.protocol_id,
        task.payload == request.payload,
        task.trace_id == request.trace_id,
        task.correlation_id == request.correlation_id,
        task.idempotency_key == request.idempotency_key,
        task.input_refs == request.input_refs,
        task.priority == request.priority,
        request.task_id matches Some(id) ==> task.task_id == id,
        request.task_id is None ==> task.task_id@.len() == "tauri-task:"@.len() + 36
            && task.task_id@.subrange(0, "tauri-task:"@.len() as int) == "tauri-task:"@,
{
}

/// Where one task would do for two requests, they ask for the same thing.
pub proof fn law_different_requests_make_different_tasks(
    one: FrontendTaskRequest,
    other: FrontendTaskRequest,
    task: Task,
)
    requires
        one.asks_for(task),
        other.asks_for(task),
    ensures
        one.protocol_id == other.protocol_id,
        one.payload == other.payload,
        one.trace_id == other.trace_id,
        one.correlation_id == other.correlation_id,
        one.idempotency_key == other.idempotency_key,
        one.input_refs == other.input_refs,
        one.priority == other.priority,
        one.task_id is Some && other.task_id is Some ==> one.task_id == other.task_id,
{
}

/// Scalars of different values are shown as different JSON values, but for doubles without a finite
/// value, which are shown as nothing; and each is shown as a JSON value of its own kind.
pub proof fn law_scalars_keep_their_value(a: ScalarView, b: ScalarView)
    ensures
        a is Bool ==> scalar_json(a) == JsonView::Bool(a->Bool_0),
        a is String ==> scalar_json(a) == JsonView::String(a->String_0),
        a is Null ==> scalar_json(a) is Null,
        a is Int ==> scalar_json(a) is Number,
        a is Int && a->Int_0 >= 0 ==> scalar_json(a) == JsonView::Number(
            crate::json::JsonNumber::Unsigned(a->Int_0 as u64),
        ),
        a is Int && a->Int_0 < 0 ==> scalar_json(a) == JsonView::Number(
            crate::json::JsonNumber::Negative(a->Int_0),
        ),
        a is FloatBits ==> (scalar_json(a) is Null <==> !finite_bits(a->FloatBits_0)),
        a is FloatBits && scalar_json(a) !is Null ==> scalar_json(a) == JsonView::Number(
            crate::json::JsonNumber::FloatBits(a->FloatBits_0),
        ),
        scalar_json(a) == scalar_json(b) && scalar_json(a) !is Null ==> a == b,
{
}

/// A double has a finite value exactly where its exponent is not the largest one.
pub proof fn law_finite_doubles_are_told(sign: bool, exponent: u64, fraction: u64)
    requires
        exponent <= 0x7ff,
        fraction < 0x10_0000_0000_0000,
    ensures
        ({
            let bits = (if sign {
                0x8000_0000_0000_0000u64
            } else {
                0u64
            } + exponent * 0x10_0000_0000_0000 + fraction) as u64;
            finite_bits(bits) <==> exponent != 0x7ff
        }),
{
    let top: int = if sign {
        0x8000_0000_0000_0000
    } else {
        0
    };
    let bits = top + exponent * 0x10_0000_0000_0000 + fraction;
    let high: int = if sign {
        0x800
    } else {
        0
    };
    assert(bits / 0x10_0000_0000_0000 == high + exponent);
    assert((high + exponent) % 0x800 == exponent % 0x800);
}

/// An object of scalars has one member for each of them, under its key and with its value, in the
/// order of the keys.
pub proof fn law_scalars_are_all_listed(fields: Map<Seq<char>, ScalarView>, key: Seq<char>)
    requires
        fields.dom().finite(),
    ensures
        scalars_json(fields) is Object,
        scalars_json(fields)->Object_0.len() == fields.len(),
        fields.contains_key(key) ==> scalars_json(fields)->Object_0.contains(
            (key, scalar_json(fields[key])),
        ),
        forall|i: int, j: int|
            0 <= i < j < scalars_json(fields)->Object_0.len() ==> text::text_lt(
                (#[trigger] scalars_json(fields)->Object_0[i]).0,
                (#[trigger] scalars_json(fields)->Object_0[j]).0,
            ),
{
    let keys = ordered_map::in_order(fields.dom());
    ordered_map::lemma_in_order_of(fields.dom());
    let members = scalars_json(fields)->Object_0;
    if fields.contains_key(key) {
        assert(keys.to_set().contains(key));
        let i = choose|i: int| 0 <= i < keys.len() && keys[i] == key;
        assert(members[i] == (key, scalar_json(fields[key])));
    }
}

/// A runtime error is shown by its own code and route, and its details hold its evidence without
/// the secrets, and nothing else.
pub proof fn law_shown_error_is_the_errors_own(error: RuntimeErrorView)
    ensures
        FrontendError::of_runtime_error(error).code == error.code,
        FrontendError::of_runtime_error(error).message == error.route,
        FrontendError::of_runtime_error(error).details == Some(
            scalars_json(redact::redacted_scalars(error.evidence)),
        ),
{
}

/// A line of the log is shown with its message and its fields redacted, and with its level, target,
/// time and traces as they are.
pub proof fn law_shown_line_is_the_lines_own(record: FrontendLogRecordView)
    ensures
        redacted_record(record).level == record.level,
        redacted_record(record).target == record.target,
        redacted_record(record).timestamp_ms == record.timestamp_ms,
        redacted_record(record).trace_id == record.trace_id,
        redacted_record(record).correlation_id == record.correlation_id,
        redacted_record(record).message == redact::redacted_message(record.message),
        redacted_record(record).fields == redact::redacted_fields(record.fields),
{
}

/// The views of what the frontend is shown tell all of it.
pub proof fn law_shown_values_are_seen_whole(
    error: FrontendError,
    result: FrontendTaskResult,
    plugin: PluginSummary,
    runner: RunnerSummary,
    part: HealthComponent,
    runtime: RuntimeHealth,
    recent: HostRecentError,
    record: FrontendLogRecord,
    progress: DeliveryProgress,
)
    ensures
        error@.code == error.code@,
        error@.message == error.message@,
        result@.task_id == result.task_id@,
        result@.status == result.status,
        result@.outcome == contracts::opt_outcome(result.outcome),
        result@.events == contracts::event_views(result.events@),
        result@.events_dropped == result.events_dropped,
        result@.events_truncated == result.events_truncated,
        plugin@.plugin_id == plugin.plugin_id@,
        plugin@.version == plugin.version@,
        plugin@.enabled == plugin.enabled,
        plugin@.deployment == plugin.deployment@,
        plugin@.status == plugin.status@,
        plugin@.error == text::opt_text(plugin.error),
        runner@.runner_id == runner.runner_id@,
        runner@.plugin_id == runner.plugin_id@,
        runner@.enabled == runner.enabled,
        runner@.deployment == runner.deployment@,
        runner@.status == runner.status@,
        runner@.error == text::opt_text(runner.error),
        part@.healthy == part.healthy,
        part@.status == part.status@,
        part@.error == text::opt_text(part.error),
        runtime@.healthy == runtime.healthy,
        runtime@.status == runtime.status@,
        runtime@.active_tasks == runtime.active_tasks as nat,
        runtime@.failed_tasks == runtime.failed_tasks as nat,
        runtime@.error == text::opt_text(runtime.error),
        recent@.source == recent.source@,
        recent@.message == recent.message@,
        recent@.timestamp_ms == recent.timestamp_ms,
        recent@.plugin_id == text::opt_text(recent.plugin_id),
        recent@.runner_id == text::opt_text(recent.runner_id),
        recent@.task_id == text::opt_text(recent.task_id),
        recent@.code == text::opt_text(recent.code),
        recent@.route == text::opt_text(recent.route),
        record@.level == record.level@,
        record@.target == record.target@,
        record@.message == record.message@,
        record@.timestamp_ms == record.timestamp_ms,
        record@.trace_id == text::opt_text(record.trace_id),
        record@.correlation_id == text::opt_text(record.correlation_id),
        record@.fields == redact::json_fields(record.fields@),
        progress@.request_id == progress.request_id@,
        progress@.target_app == progress.target_app@,
        progress@.phase == progress.phase@,
        progress@.error == text::opt_text(progress.error),
        progress@.error_kind == text::opt_text(progress.error_kind),
        error.details is None <==> error@.details is None,
        error.details matches Some(details) ==> error@.details == Some(details@),
{
}

} // verus!
