//! Apps, capabilities, requests and receipts.
use crate::text;
use vstd::prelude::*;
use vstd::string::*;

verus! {

broadcast use vstd::string::group_string_axioms;

/// The version of the protocol that two hosts speak with each other.
pub const HOST_PROTOCOL_VERSION: u32 = 1;

/// A character that may stand in the name of an app.
pub open spec fn app_id_char(c: char) -> bool {
    ||| 'a' <= c <= 'z'
    ||| 'A' <= c <= 'Z'
    ||| '0' <= c <= '9'
    ||| c == '.'
    ||| c == '-'
    ||| c == '_'
}

/// A text that names an app: at least one letter, digit, dot, hyphen or underscore of ASCII, and
/// nothing else.
pub open spec fn valid_app_id(value: Seq<char>) -> bool {
    value.len() > 0 && forall|i: int| 0 <= i < value.len() ==> app_id_char(#[trigger] value[i])
}

/// The name of an app.
#[derive(Debug, PartialEq, Eq, PartialOrd, Ord, Hash)]
pub struct AppId(String);

impl View for AppId {
    type V = Seq<char>;

    closed spec fn view(&self) -> Seq<char> {
        self.0@
    }
}

impl Clone for AppId {
    fn clone(&self) -> (copy: Self)
        ensures
            copy == *self,
    {
        proof {
            use_type_invariant(self);
        }
        AppId(self.0.clone())
    }
}

impl AppId {
    #[verifier::type_invariant]
    spec fn named(self) -> bool {
        valid_app_id(self.0@)
    }

    pub fn new(value: String) -> (id: Result<Self, AppDeliveryError>)
        ensures
            match id {
                Ok(app) => valid_app_id(value@) && app@ == value@,
                Err(error) => !valid_app_id(value@) && error == AppDeliveryError::AppNotInstalled,
            },
    {
        let chars = text::chars_of(value.as_str());
        if chars.len() == 0 {
            return Err(AppDeliveryError::AppNotInstalled);
        }
        let mut i: usize = 0;
        while i < chars.len()
            invariant
                chars@ == value@,
                i <= chars.len(),
                forall|j: int| 0 <= j < i ==> app_id_char(#[trigger] chars@[j]),
            decreases chars.len() - i,
        {
            let c = chars[i];
            let fits = ('a' <= c && c <= 'z') || ('A' <= c && c <= 'Z') || ('0' <= c && c <= '9') || c
                == '.' || c == '-' || c == '_';
            if !fits {
                assert(!app_id_char(value@[i as int]));
                return Err(AppDeliveryError::AppNotInstalled);
            }
            i = i + 1;
        }
        Ok(AppId(value))
    }

    pub fn as_str(&self) -> (value: &str)
        ensures
            value@ == self@,
            valid_app_id(value@),
    {
        proof {
            use_type_invariant(self);
        }
        self.0.as_str()
    }
}

/// One running instance of an app.
#[derive(Debug, PartialEq, Eq)]
pub struct AppIdentity {
    pub app_id: AppId,
    pub instance_id: String,
}

/// An installed app and how it is started.
#[derive(Debug, PartialEq, Eq)]
pub struct AppDescriptor {
    pub app_id: AppId,
    pub display_name: String,
    pub executable: Option<String>,
    pub launch_args: Vec<String>,
    pub bundle_id: Option<String>,
}

/// What a caller asks of a delivery. Durations are in nanoseconds.
#[derive(Debug, PartialEq, Eq)]
pub struct AppDeliveryOptions {
    /// Stable request id for idempotent replay. Generated when omitted.
    pub request_id: Option<String>,
    pub activate_if_offline: bool,
    pub ready_timeout_ns: u128,
    pub request_timeout_ns: u128,
    pub persist_on_failure: bool,
}

impl Default for AppDeliveryOptions {
    fn default() -> (options: Self)
        ensures
            options == (AppDeliveryOptions {
                request_id: None,
                activate_if_offline: true,
                ready_timeout_ns: 30_000_000_000,
                request_timeout_ns: 30_000_000_000,
                persist_on_failure: true,
            }),
    {
        AppDeliveryOptions {
            request_id: None,
            activate_if_offline: true,
            ready_timeout_ns: 30_000_000_000,
            request_timeout_ns: 30_000_000_000,
            persist_on_failure: true,
        }
    }
}

impl Clone for AppDeliveryOptions {
    fn clone(&self) -> (copy: Self)
        ensures
            copy == *self,
    {
        AppDeliveryOptions {
            request_id: self.request_id.clone(),
            activate_if_offline: self.activate_if_offline,
            ready_timeout_ns: self.ready_timeout_ns,
            request_timeout_ns: self.request_timeout_ns,
            persist_on_failure: self.persist_on_failure,
        }
    }
}

/// How far a delivery has come.
#[derive(Clone, Copy, Debug, PartialEq, Eq, Structural)]
pub enum DeliveryPhase {
    DraftSaved,
    Connecting,
    TargetActivating,
    TargetReady,
    Negotiating,
    Transmitting,
    Accepted,
    Completed,
    DeliveryFailed,
}

/// The name of a phase.
pub open spec fn phase_name(phase: DeliveryPhase) -> Seq<char> {
    match phase {
        DeliveryPhase::DraftSaved => "draft_saved"@,
        DeliveryPhase::Connecting => "connecting"@,
        DeliveryPhase::TargetActivating => "target_activating"@,
        DeliveryPhase::TargetReady => "target_ready"@,
        DeliveryPhase::Negotiating => "negotiating"@,
        DeliveryPhase::Transmitting => "transmitting"@,
        DeliveryPhase::Accepted => "accepted"@,
        DeliveryPhase::Completed => "completed"@,
        DeliveryPhase::DeliveryFailed => "delivery_failed"@,
    }
}

/// A delivery in this phase is over.
pub open spec fn terminal(phase: DeliveryPhase) -> bool {
    phase == DeliveryPhase::Accepted || phase == DeliveryPhase::Completed || phase
        == DeliveryPhase::DeliveryFailed
}

impl DeliveryPhase {
    pub fn as_str(&self) -> (name: &'static str)
        ensures
            name@ == phase_name(*self),
    {
        match self {
            DeliveryPhase::DraftSaved => "draft_saved",
            DeliveryPhase::Connecting => "connecting",
            DeliveryPhase::TargetActivating => "target_activating",
            DeliveryPhase::TargetReady => "target_ready",
            DeliveryPhase::Negotiating => "negotiating",
            DeliveryPhase::Transmitting => "transmitting",
            DeliveryPhase::Accepted => "accepted",
            DeliveryPhase::Completed => "completed",
            DeliveryPhase::DeliveryFailed => "delivery_failed",
        }
    }

    /// Terminal phases may be evicted once the retention budget is exceeded.
    /// In-flight phases are always retained until they become terminal.
    pub fn is_terminal(&self) -> (over: bool)
        ensures
            over == terminal(*self),
    {
        match self {
            DeliveryPhase::Accepted
            | DeliveryPhase::Completed
            | DeliveryPhase::DeliveryFailed => true,
            _ => false,
        }
    }
}

/// The answer to a started app.
#[derive(Debug, PartialEq, Eq)]
pub struct ActivationReceipt {
    pub app_id: AppId,
    pub instance_id: String,
    pub already_running: bool,
}

/// Why an app could not be started.
#[derive(Debug, PartialEq, Eq)]
pub enum ActivationError {
    AppNotInstalled(String),
    ActivationFailed(String),
}

impl ActivationError {
    /// The error in words.
    pub fn message(&self) -> (words: String)
        ensures
            words@ == match *self {
                ActivationError::AppNotInstalled(app) => "app not installed: "@ + app@,
                ActivationError::ActivationFailed(message) => "activation failed: "@ + message@,
            },
    {
        match self {
            ActivationError::AppNotInstalled(app) => text::join2(
                "app not installed: ",
                app.as_str(),
            ),
            ActivationError::ActivationFailed(message) => text::join2(
                "activation failed: ",
                message.as_str(),
            ),
        }
    }
}

/// Why a delivery failed.
#[derive(Debug, PartialEq, Eq)]
pub enum AppDeliveryError {
    AppNotInstalled,
    EndpointUnavailable,
    ActivationFailed { message: String },
    ReadyTimeout,
    AuthenticationFailed,
    ProtocolIncompatible,
    CapabilityUnavailable,
    PermissionDenied,
    DeliveryFailed { message: String },
    ReceiptTimeout,
    Cancelled,
}

impl Clone for AppDeliveryError {
    fn clone(&self) -> (copy: Self)
        ensures
            copy == *self,
    {
        match self {
            AppDeliveryError::AppNotInstalled => AppDeliveryError::AppNotInstalled,
            AppDeliveryError::EndpointUnavailable => AppDeliveryError::EndpointUnavailable,
            AppDeliveryError::ActivationFailed { message } => AppDeliveryError::ActivationFailed {
                message: message.clone(),
            },
            AppDeliveryError::ReadyTimeout => AppDeliveryError::ReadyTimeout,
            AppDeliveryError::AuthenticationFailed => AppDeliveryError::AuthenticationFailed,
            AppDeliveryError::ProtocolIncompatible => AppDeliveryError::ProtocolIncompatible,
            AppDeliveryError::CapabilityUnavailable => AppDeliveryError::CapabilityUnavailable,
            AppDeliveryError::PermissionDenied => AppDeliveryError::PermissionDenied,
            AppDeliveryError::DeliveryFailed { message } => AppDeliveryError::DeliveryFailed {
                message: message.clone(),
            },
            AppDeliveryError::ReceiptTimeout => AppDeliveryError::ReceiptTimeout,
            AppDeliveryError::Cancelled => AppDeliveryError::Cancelled,
        }
    }
}

/// The name of a kind of error.
pub open spec fn error_kind(error: AppDeliveryError) -> Seq<char> {
    match error {
        AppDeliveryError::AppNotInstalled => "app_not_installed"@,
        AppDeliveryError::EndpointUnavailable => "endpoint_unavailable"@,
        AppDeliveryError::ActivationFailed { .. } => "activation_failed"@,
        AppDeliveryError::ReadyTimeout => "ready_timeout"@,
        AppDeliveryError::AuthenticationFailed => "authentication_failed"@,
        AppDeliveryError::ProtocolIncompatible => "protocol_incompatible"@,
        AppDeliveryError::CapabilityUnavailable => "capability_unavailable"@,
        AppDeliveryError::PermissionDenied => "permission_denied"@,
        AppDeliveryError::DeliveryFailed { .. } => "delivery_failed"@,
        AppDeliveryError::ReceiptTimeout => "receipt_timeout"@,
        AppDeliveryError::Cancelled => "cancelled"@,
    }
}

/// An error in words.
pub open spec fn error_words(error: AppDeliveryError) -> Seq<char> {
    match error {
        AppDeliveryError::AppNotInstalled => "app not installed"@,
        AppDeliveryError::EndpointUnavailable => "endpoint unavailable"@,
        AppDeliveryError::ActivationFailed { message } => "activation failed: "@ + message@,
        AppDeliveryError::ReadyTimeout => "ready timeout"@,
        AppDeliveryError::AuthenticationFailed => "authentication failed"@,
        AppDeliveryError::ProtocolIncompatible => "protocol incompatible"@,
        AppDeliveryError::CapabilityUnavailable => "capability unavailable"@,
        AppDeliveryError::PermissionDenied => "permission denied"@,
        AppDeliveryError::DeliveryFailed { message } => "delivery failed: "@ + message@,
        AppDeliveryError::ReceiptTimeout => "receipt timeout"@,
        AppDeliveryError::Cancelled => "cancelled"@,
    }
}

impl AppDeliveryError {
    pub fn kind_name(&self) -> (name: &'static str)
        ensures
            name@ == error_kind(*self),
    {
        match self {
            AppDeliveryError::AppNotInstalled => "app_not_installed",
            AppDeliveryError::EndpointUnavailable => "endpoint_unavailable",
            AppDeliveryError::ActivationFailed { .. } => "activation_failed",
            AppDeliveryError::ReadyTimeout => "ready_timeout",
            AppDeliveryError::AuthenticationFailed => "authentication_failed",
            AppDeliveryError::ProtocolIncompatible => "protocol_incompatible",
            AppDeliveryError::CapabilityUnavailable => "capability_unavailable",
            AppDeliveryError::PermissionDenied => "permission_denied",
            AppDeliveryError::DeliveryFailed { .. } => "delivery_failed",
            AppDeliveryError::ReceiptTimeout => "receipt_timeout",
            AppDeliveryError::Cancelled => "cancelled",
        }
    }

    /// The error in words.
    pub fn message(&self) -> (words: String)
        ensures
            words@ == error_words(*self),
    {
        match self {
            AppDeliveryError::AppNotInstalled => "app not installed".to_owned(),
            AppDeliveryError::EndpointUnavailable => "endpoint unavailable".to_owned(),
            AppDeliveryError::ActivationFailed { message } => text::join2(
                "activation failed: ",
                message.as_str(),
            ),
            AppDeliveryError::ReadyTimeout => "ready timeout".to_owned(),
            AppDeliveryError::AuthenticationFailed => "authentication failed".to_owned(),
            AppDeliveryError::ProtocolIncompatible => "protocol incompatible".to_owned(),
            AppDeliveryError::CapabilityUnavailable => "capability unavailable".to_owned(),
            AppDeliveryError::PermissionDenied => "permission denied".to_owned(),
            AppDeliveryError::DeliveryFailed { message } => text::join2(
                "delivery failed: ",
                message.as_str(),
            ),
            AppDeliveryError::ReceiptTimeout => "receipt timeout".to_owned(),
            AppDeliveryError::Cancelled => "cancelled".to_owned(),
        }
    }
}

/// How a failed activation fails a delivery.
pub open spec fn activation_failure(error: ActivationError) -> AppDeliveryError {
    match error {
        ActivationError::AppNotInstalled(_) => AppDeliveryError::AppNotInstalled,
        ActivationError::ActivationFailed(message) => AppDeliveryError::ActivationFailed { message },
    }
}

impl From<ActivationError> for AppDeliveryError {
    fn from(error: ActivationError) -> (failure: Self) {
        match error {
            ActivationError::AppNotInstalled(_) => AppDeliveryError::AppNotInstalled,
            ActivationError::ActivationFailed(message) => AppDeliveryError::ActivationFailed {
                message,
            },
        }
    }
}

impl vstd::std_specs::convert::FromSpecImpl<ActivationError> for AppDeliveryError {
    open spec fn obeys_from_spec() -> bool {
        true
    }

    open spec fn from_spec(error: ActivationError) -> Self {
        activation_failure(error)
    }
}

/// A typed ability that an app offers.
#[derive(Debug, PartialEq, Eq)]
pub struct CapabilityDescriptor {
    pub name: String,
    pub protocol_version: u32,
    pub schema_version: u32,
}

#[verifier::ext_equal]
pub struct CapabilityView {
    pub name: Seq<char>,
    pub protocol_version: u32,
    pub schema_version: u32,
}

impl View for CapabilityDescriptor {
    type V = CapabilityView;

    open spec fn view(&self) -> CapabilityView {
        CapabilityView {
            name: self.name@,
            protocol_version: self.protocol_version,
            schema_version: self.schema_version,
        }
    }
}

impl Clone for CapabilityDescriptor {
    fn clone(&self) -> (copy: Self)
        ensures
            copy == *self,
    {
        CapabilityDescriptor {
            name: self.name.clone(),
            protocol_version: self.protocol_version,
            schema_version: self.schema_version,
        }
    }
}

impl CapabilityDescriptor {
    pub fn new(name: String, protocol_version: u32, schema_version: u32) -> (capability: Self)
        ensures
            capability == (CapabilityDescriptor { name, protocol_version, schema_version }),
    {
        CapabilityDescriptor { name, protocol_version, schema_version }
    }

    /// Whether an offered capability serves this one: it has the same name, speaks the same
    /// protocol and uses the same schema.
    pub fn is_compatible_with(&self, offered: &CapabilityDescriptor) -> (compatible: bool)
        ensures
            compatible == (self@ == offered@),
            compatible <==> self.name@ == offered.name@ && self.protocol_version
                == offered.protocol_version && self.schema_version == offered.schema_version,
    {
        text::text_eq(self.name.as_str(), offered.name.as_str()) && self.protocol_version
            == offered.protocol_version && self.schema_version == offered.schema_version
    }
}

/// A request for a capability of another app.
#[derive(Debug, PartialEq, Eq)]
pub struct CapabilityRequestEnvelope {
    pub request_id: String,
    pub source: String,
    pub target: String,
    pub capability: CapabilityDescriptor,
    pub payload: serde_json::Value,
}

impl Clone for CapabilityRequestEnvelope {
    fn clone(&self) -> (copy: Self)
        ensures
            copy == *self,
    {
        CapabilityRequestEnvelope {
            request_id: self.request_id.clone(),
            source: self.source.clone(),
            target: self.target.clone(),
            capability: self.capability.clone(),
            payload: self.payload.clone(),
        }
    }
}

impl CapabilityRequestEnvelope {
    pub fn new(
        request_id: String,
        source: String,
        target: String,
        capability: CapabilityDescriptor,
        payload: serde_json::Value,
    ) -> (envelope: Self)
        ensures
            envelope == (CapabilityRequestEnvelope {
                request_id,
                source,
                target,
                capability,
                payload,
            }),
    {
        CapabilityRequestEnvelope { request_id, source, target, capability, payload }
    }
}

/// Why an app turns a request down.
#[derive(Clone, Copy, Debug, PartialEq, Eq, Structural)]
pub enum RejectionReason {
    CapabilityUnavailable,
    ProtocolIncompatible,
    PermissionDenied,
}

/// What an app answers to a request.
#[derive(Debug, PartialEq, Eq)]
pub enum DeliveryReceipt {
    Accepted { request_id: String, remote_task_id: Option<String> },
    Completed { request_id: String, remote_task_id: Option<String>, output: serde_json::Value },
    Duplicate { request_id: String, previous: Box<DeliveryReceipt> },
    Rejected { request_id: String, reason: RejectionReason },
    Failed { request_id: String, message: String },
}

impl Clone for DeliveryReceipt {
    fn clone(&self) -> (copy: Self)
        ensures
            copy == *self,
        decreases self,
    {
        match self {
            DeliveryReceipt::Accepted { request_id, remote_task_id } => DeliveryReceipt::Accepted {
                request_id: request_id.clone(),
                remote_task_id: remote_task_id.clone(),
            },
            DeliveryReceipt::Completed { request_id, remote_task_id, output } =>
                DeliveryReceipt::Completed {
                    request_id: request_id.clone(),
                    remote_task_id: remote_task_id.clone(),
                    output: output.clone(),
                },
            DeliveryReceipt::Duplicate { request_id, previous } => DeliveryReceipt::Duplicate {
                request_id: request_id.clone(),
                previous: Box::new((&**previous).clone()),
            },
            DeliveryReceipt::Rejected { request_id, reason } => DeliveryReceipt::Rejected {
                request_id: request_id.clone(),
                reason: *reason,
            },
            DeliveryReceipt::Failed { request_id, message } => DeliveryReceipt::Failed {
                request_id: request_id.clone(),
                message: message.clone(),
            },
        }
    }
}

/// The request that a receipt answers.
pub open spec fn receipt_request(receipt: DeliveryReceipt) -> String {
    match receipt {
        DeliveryReceipt::Accepted { request_id, .. } => request_id,
        DeliveryReceipt::Completed { request_id, .. } => request_id,
        DeliveryReceipt::Duplicate { request_id, .. } => request_id,
        DeliveryReceipt::Rejected { request_id, .. } => request_id,
        DeliveryReceipt::Failed { request_id, .. } => request_id,
    }
}

impl DeliveryReceipt {
    /// The request that the receipt answers.
    pub fn request_id(&self) -> (request_id: &String)
        ensures
            *request_id == receipt_request(*self),
    {
        match self {
            DeliveryReceipt::Accepted { request_id, .. } => request_id,
            DeliveryReceipt::Completed { request_id, .. } => request_id,
            DeliveryReceipt::Duplicate { request_id, .. } => request_id,
            DeliveryReceipt::Rejected { request_id, .. } => request_id,
            DeliveryReceipt::Failed { request_id, .. } => request_id,
        }
    }
}

/// A text names an app exactly where it is not empty and each of its characters is a letter or a
/// digit of ASCII, a dot, a hyphen or an underscore.
pub proof fn law_app_names_are_plain(value: Seq<char>)
    ensures
        valid_app_id(value) <==> value.len() > 0 && forall|i: int|
            0 <= i < value.len() ==> {
                let c = (#[trigger] value[i]) as int;
                97 <= c <= 122 || 65 <= c <= 90 || 48 <= c <= 57 || c == 46 || c == 45 || c == 95
            },
{
}

/// Each phase has its own name, and a delivery is over in the phases in which its target answered
/// or it failed.
pub proof fn law_phases_have_names_of_their_own(a: DeliveryPhase, b: DeliveryPhase)
    ensures
        phase_name(a) == phase_name(b) <==> a == b,
        a is DraftSaved <==> phase_name(a) == "draft_saved"@,
        a is Connecting <==> phase_name(a) == "connecting"@,
        a is TargetActivating <==> phase_name(a) == "target_activating"@,
        a is TargetReady <==> phase_name(a) == "target_ready"@,
        a is Negotiating <==> phase_name(a) == "negotiating"@,
        a is Transmitting <==> phase_name(a) == "transmitting"@,
        a is Accepted <==> phase_name(a) == "accepted"@,
        a is Completed <==> phase_name(a) == "completed"@,
        a is DeliveryFailed <==> phase_name(a) == "delivery_failed"@,
        terminal(a) <==> a is Accepted || a is Completed || a is DeliveryFailed,
{
    reveal_strlit("draft_saved");
    assert("draft_saved"@.len() == 11);
    reveal_strlit("connecting");
    assert("connecting"@.len() == 10);
    reveal_strlit("target_activating");
    assert("target_activating"@.len() == 17);
    reveal_strlit("target_ready");
    assert("target_ready"@.len() == 12);
    reveal_strlit("negotiating");
    assert("negotiating"@.len() == 11);
    reveal_strlit("transmitting");
    assert("transmitting"@.len() == 12);
    reveal_strlit("accepted");
    assert("accepted"@.len() == 8);
    reveal_strlit("completed");
    assert("completed"@.len() == 9);
    reveal_strlit("delivery_failed");
    assert("delivery_failed"@.len() == 15);
    assert("draft_saved"@[0] != "negotiating"@[0]);
    assert("target_ready"@[1] != "transmitting"@[1]);
}

/// The two errors are of one kind.
pub open spec fn same_kind(a: AppDeliveryError, b: AppDeliveryError) -> bool {
    match a {
        AppDeliveryError::AppNotInstalled => b is AppNotInstalled,
        AppDeliveryError::EndpointUnavailable => b is EndpointUnavailable,
        AppDeliveryError::ActivationFailed { .. } => b is ActivationFailed,
        AppDeliveryError::ReadyTimeout => b is ReadyTimeout,
        AppDeliveryError::AuthenticationFailed => b is AuthenticationFailed,
        AppDeliveryError::ProtocolIncompatible => b is ProtocolIncompatible,
        AppDeliveryError::CapabilityUnavailable => b is CapabilityUnavailable,
        AppDeliveryError::PermissionDenied => b is PermissionDenied,
        AppDeliveryError::DeliveryFailed { .. } => b is DeliveryFailed,
        AppDeliveryError::ReceiptTimeout => b is ReceiptTimeout,
        AppDeliveryError::Cancelled => b is Cancelled,
    }
}

/// Each kind of error has its own name.
pub proof fn law_errors_have_kinds_of_their_own(a: AppDeliveryError, b: AppDeliveryError)
    ensures
        error_kind(a) == error_kind(b) <==> same_kind(a, b),
        a is AppNotInstalled <==> error_kind(a) == "app_not_installed"@,
        a is EndpointUnavailable <==> error_kind(a) == "endpoint_unavailable"@,
        a is ActivationFailed <==> error_kind(a) == "activation_failed"@,
        a is ReadyTimeout <==> error_kind(a) == "ready_timeout"@,
        a is AuthenticationFailed <==> error_kind(a) == "authentication_failed"@,
        a is ProtocolIncompatible <==> error_kind(a) == "protocol_incompatible"@,
        a is CapabilityUnavailable <==> error_kind(a) == "capability_unavailable"@,
        a is PermissionDenied <==> error_kind(a) == "permission_denied"@,
        a is DeliveryFailed <==> error_kind(a) == "delivery_failed"@,
        a is ReceiptTimeout <==> error_kind(a) == "receipt_timeout"@,
        a is Cancelled <==> error_kind(a) == "cancelled"@,
{
    reveal_strlit("app_not_installed");
    assert("app_not_installed"@.len() == 17);
    reveal_strlit("endpoint_unavailable");
    assert("endpoint_unavailable"@.len() == 20);
    reveal_strlit("activation_failed");
    assert("activation_failed"@.len() == 17);
    reveal_strlit("ready_timeout");
    assert("ready_timeout"@.len() == 13);
    reveal_strlit("authentication_failed");
    assert("authentication_failed"@.len() == 21);
    reveal_strlit("protocol_incompatible");
    assert("protocol_incompatible"@.len() == 21);
    reveal_strlit("capability_unavailable");
    assert("capability_unavailable"@.len() == 22);
    reveal_strlit("permission_denied");
    assert("permission_denied"@.len() == 17);
    reveal_strlit("delivery_failed");
    assert("delivery_failed"@.len() == 15);
    reveal_strlit("receipt_timeout");
    assert("receipt_timeout"@.len() == 15);
    reveal_strlit("cancelled");
    assert("cancelled"@.len() == 9);
    assert("app_not_installed"@[1] == 'p');
    assert("activation_failed"@[1] == 'c');
    assert("permission_denied"@[1] == 'e');
    assert("authentication_failed"@[0] == 'a');
    assert("protocol_incompatible"@[0] == 'p');
    assert("delivery_failed"@[0] == 'd');
    assert("receipt_timeout"@[0] == 'r');
}

/// The words of an error are the name of its kind with blanks in the place of underscores; where
/// the error has a message, it stands behind them.
pub proof fn law_error_words_spell_the_kind(error: AppDeliveryError)
    ensures
        ({
            let spelled = error_kind(error).map_values(
                |c: char|
                    if c == '_' {
                        ' '
                    } else {
                        c
                    },
            );
            error_words(error) == match error {
                AppDeliveryError::ActivationFailed { message } => spelled + ": "@ + message@,
                AppDeliveryError::DeliveryFailed { message } => spelled + ": "@ + message@,
                _ => spelled,
            }
        }),
{
    let spelled = error_kind(error).map_values(
        |c: char|
            if c == '_' {
                ' '
            } else {
                c
            },
    );
    reveal_strlit(": ");
    match error {
        AppDeliveryError::AppNotInstalled => {
            reveal_strlit("app_not_installed");
            reveal_strlit("app not installed");
        },
        AppDeliveryError::EndpointUnavailable => {
            reveal_strlit("endpoint_unavailable");
            reveal_strlit("endpoint unavailable");
        },
        AppDeliveryError::ActivationFailed { .. } => {
            reveal_strlit("activation_failed");
            reveal_strlit("activation failed: ");
            assert("activation failed: "@ =~= spelled + ": "@);
        },
        AppDeliveryError::ReadyTimeout => {
            reveal_strlit("ready_timeout");
            reveal_strlit("ready timeout");
        },
        AppDeliveryError::AuthenticationFailed => {
            reveal_strlit("authentication_failed");
            reveal_strlit("authentication failed");
        },
        AppDeliveryError::ProtocolIncompatible => {
            reveal_strlit("protocol_incompatible");
            reveal_strlit("protocol incompatible");
        },
        AppDeliveryError::CapabilityUnavailable => {
            reveal_strlit("capability_unavailable");
            reveal_strlit("capability unavailable");
        },
        AppDeliveryError::PermissionDenied => {
            reveal_strlit("permission_denied");
            reveal_strlit("permission denied");
        },
        AppDeliveryError::DeliveryFailed { .. } => {
            reveal_strlit("delivery_failed");
            reveal_strlit("delivery failed: ");
            assert("delivery failed: "@ =~= spelled + ": "@);
        },
        AppDeliveryError::ReceiptTimeout => {
            reveal_strlit("receipt_timeout");
            reveal_strlit("receipt timeout");
        },
        AppDeliveryError::Cancelled => {
            reveal_strlit("cancelled");
        },
    }
    assert(error_words(error) =~= match error {
        AppDeliveryError::ActivationFailed { message } => spelled + ": "@ + message@,
        AppDeliveryError::DeliveryFailed { message } => spelled + ": "@ + message@,
        _ => spelled,
    });
}

/// A failed start fails a delivery with what stood in its way.
pub proof fn law_failed_start_keeps_its_reason(error: ActivationError)
    ensures
        error is AppNotInstalled <==> activation_failure(error) is AppNotInstalled,
        error matches ActivationError::ActivationFailed(message) ==> activation_failure(error)
            == (AppDeliveryError::ActivationFailed { message }),
{
}

/// A receipt answers the request that it names.
pub proof fn law_receipt_names_its_request(
    request_id: String,
    task: Option<String>,
    output: serde_json::Value,
    previous: Box<DeliveryReceipt>,
    reason: RejectionReason,
    message: String,
)
    ensures
        receipt_request(DeliveryReceipt::Accepted { request_id, remote_task_id: task })
            == request_id,
        receipt_request(DeliveryReceipt::Completed { request_id, remote_task_id: task, output })
            == request_id,
        receipt_request(DeliveryReceipt::Duplicate { request_id, previous }) == request_id,
        receipt_request(DeliveryReceipt::Rejected { request_id, reason }) == request_id,
        receipt_request(DeliveryReceipt::Failed { request_id, message }) == request_id,
{
}

/// The view of a capability tells all of it.
pub proof fn law_capability_view_tells_all(a: CapabilityDescriptor, b: CapabilityDescriptor)
    ensures
        a@ == b@ <==> a.name@ == b.name@ && a.protocol_version == b.protocol_version
            && a.schema_version == b.schema_version,
        a@.name == a.name@,
{
}

} // verus!
