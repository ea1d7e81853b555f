//! The side of an app that is called: which requests it takes, what it says of itself when it is
//! connected to, and how a caller reads the connection.
use crate::app_delivery::receipts::ReceiptStore;
use crate::app_delivery::receipts;
use crate::app_delivery::transport::AppLinkSession;
use crate::app_delivery::transport;
use crate::app_delivery::types::{
    AppDeliveryError, AppId, CapabilityDescriptor, CapabilityRequestEnvelope, CapabilityView,
    DeliveryReceipt, HOST_PROTOCOL_VERSION, RejectionReason,
};
use crate::app_delivery::types;
use crate::ordered_map::OrderedMap;
use crate::ordered_map;
use crate::text;
use vstd::prelude::*;
use vstd::string::*;

verus! {

broadcast use vstd::string::group_string_axioms;

/// One capability of an endpoint, and whether a request for it is taken.
#[derive(Debug, PartialEq, Eq)]
pub struct CapabilityStatus {
    pub capability: CapabilityDescriptor,
    pub ready: bool,
}

/// What an endpoint says of itself when it is connected to.
#[derive(Debug, PartialEq, Eq)]
pub struct EndpointDescriptor {
    pub app_id: AppId,
    pub instance_id: String,
    pub host_protocol_version: u32,
    pub capabilities: Vec<CapabilityStatus>,
}

/// What becomes of a request that came in.
#[derive(Debug, PartialEq, Eq)]
pub enum EndpointDecision {
    /// It is answered at once.
    Answer(DeliveryReceipt),
    /// The handler of its capability is to be called with it.
    Invoke(CapabilityRequestEnvelope),
}

/// The capabilities that an app has handlers for, and the receipts that it has given.
#[derive(Debug)]
pub struct AppCapabilityEndpoint {
    app_id: AppId,
    instance_id: String,
    handlers: OrderedMap<CapabilityDescriptor>,
    receipts: ReceiptStore,
}

#[verifier::ext_equal]
pub struct EndpointView {
    pub app_id: AppId,
    pub instance_id: Seq<char>,
    pub handlers: Map<Seq<char>, CapabilityDescriptor>,
    pub receipts: Map<Seq<char>, DeliveryReceipt>,
}

impl View for AppCapabilityEndpoint {
    type V = EndpointView;

    closed spec fn view(&self) -> EndpointView {
        EndpointView {
            app_id: self.app_id,
            instance_id: self.instance_id@,
            handlers: self.handlers@,
            receipts: self.receipts@,
        }
    }
}

/// `decision` is what becomes of a request: one that was answered before is a duplicate, one for
/// a capability without a handler or of another version is turned down, and any other goes to
/// its handler.
pub open spec fn request_judged(
    v: EndpointView,
    envelope: CapabilityRequestEnvelope,
    decision: EndpointDecision,
) -> bool {
    let request = envelope.request_id;
    if v.receipts.contains_key(request@) {
        decision == EndpointDecision::Answer(
            DeliveryReceipt::Duplicate {
                request_id: request,
                previous: Box::new(v.receipts[request@]),
            },
        )
    } else if !v.handlers.contains_key(envelope.capability.name@) {
        decision == EndpointDecision::Answer(
            DeliveryReceipt::Rejected {
                request_id: request,
                reason: RejectionReason::CapabilityUnavailable,
            },
        )
    } else if v.handlers[envelope.capability.name@]@ != envelope.capability@ {
        decision == EndpointDecision::Answer(
            DeliveryReceipt::Rejected {
                request_id: request,
                reason: RejectionReason::ProtocolIncompatible,
            },
        )
    } else {
        decision == EndpointDecision::Invoke(envelope)
    }
}

impl AppCapabilityEndpoint {
    /// An endpoint without handlers.
    pub fn open(app_id: AppId, instance_id: String) -> (endpoint: Self)
        ensures
            endpoint@ == (EndpointView {
                app_id,
                instance_id: instance_id@,
                handlers: Map::empty(),
                receipts: Map::empty(),
            }),
    {
        AppCapabilityEndpoint {
            app_id,
            instance_id,
            handlers: OrderedMap::new(),
            receipts: ReceiptStore::new(),
        }
    }

    pub fn app_id(&self) -> (app_id: &AppId)
        ensures
            *app_id == self@.app_id,
    {
        &self.app_id
    }

    /// Takes requests for a capability, in the place of another version of it.
    pub fn register_handler(&mut self, capability: CapabilityDescriptor)
        ensures
            final(self)@ == (EndpointView {
                handlers: old(self)@.handlers.insert(capability.name@, capability),
                ..old(self)@
            }),
    {
        self.handlers.insert(capability.name.clone(), capability);
    }

    /// What the endpoint says of itself: a capability is ready once it has a handler.
    pub fn descriptor(&self) -> (shown: EndpointDescriptor)
        ensures
            shown.app_id == self@.app_id,
            shown.instance_id@ == self@.instance_id,
            shown.host_protocol_version == HOST_PROTOCOL_VERSION,
            shown.capabilities@ == ordered_map::in_order(self@.handlers.dom()).map_values(
                |name: Seq<char>|
                    CapabilityStatus { capability: self@.handlers[name], ready: true },
            ),
    {
        let n: usize = self.handlers.len();
        let ghost keys = self.handlers.keys();
        let mut capabilities: Vec<CapabilityStatus> = Vec::new();
        let mut i: usize = 0;
        while i < n
            invariant
                i <= n,
                n == keys.len(),
                keys == self.handlers.keys(),
                capabilities.len() == i,
                forall|j: int|
                    0 <= j < i ==> #[trigger] capabilities@[j] == (CapabilityStatus {
                        capability: self.handlers@[keys[j]],
                        ready: true,
                    }),
            decreases n - i,
        {
            capabilities.push(
                CapabilityStatus { capability: self.handlers.value_at(i).clone(), ready: true },
            );
            i = i + 1;
        }
        EndpointDescriptor {
            app_id: self.app_id.clone(),
            instance_id: self.instance_id.clone(),
            host_protocol_version: HOST_PROTOCOL_VERSION,
            capabilities,
        }
    }

    /// Decides what becomes of a request.
    pub fn judge(&self, envelope: CapabilityRequestEnvelope) -> (decision: EndpointDecision)
        ensures
            request_judged(self@, envelope, decision),
    {
        if let Some(existing) = self.receipts.get(envelope.request_id.as_str()) {
            return EndpointDecision::Answer(
                DeliveryReceipt::Duplicate {
                    request_id: envelope.request_id,
                    previous: Box::new(existing.clone()),
                },
            );
        }
        match self.handlers.get(envelope.capability.name.as_str()) {
            None => EndpointDecision::Answer(
                DeliveryReceipt::Rejected {
                    request_id: envelope.request_id,
                    reason: RejectionReason::CapabilityUnavailable,
                },
            ),
            Some(capability) => {
                if envelope.capability.is_compatible_with(capability) {
                    EndpointDecision::Invoke(envelope)
                } else {
                    EndpointDecision::Answer(
                        DeliveryReceipt::Rejected {
                            request_id: envelope.request_id,
                            reason: RejectionReason::ProtocolIncompatible,
                        },
                    )
                }
            },
        }
    }

    /// Takes in the receipt of a handler, and says what the caller is told: the first receipt
    /// that the request got.
    pub fn settle(&mut self, receipt: DeliveryReceipt) -> (answer: DeliveryReceipt)
        ensures
            receipts::answered(
                old(self)@.receipts,
                types::receipt_request(receipt)@,
                receipt,
                answer,
            ),
            final(self)@ == (EndpointView {
                receipts: receipts::receipts_after(
                    old(self)@.receipts,
                    types::receipt_request(receipt)@,
                    receipt,
                ),
                ..old(self)@
            }),
            old(self)@.receipts.contains_key(types::receipt_request(receipt)@) ==> answer
                == (DeliveryReceipt::Duplicate {
                request_id: types::receipt_request(receipt),
                previous: Box::new(old(self)@.receipts[types::receipt_request(receipt)@]),
            }),
            !old(self)@.receipts.contains_key(types::receipt_request(receipt)@) ==> answer == receipt,
    {
        let request_id = receipt.request_id().clone();
        self.receipts.accept_or_duplicate(request_id, receipt)
    }
}

/// A request is handled once: once its handler has answered, the request is a duplicate of it.
pub proof fn law_request_is_handled_once(
    v: EndpointView,
    envelope: CapabilityRequestEnvelope,
    receipt: DeliveryReceipt,
    decision: EndpointDecision,
)
    requires
        types::receipt_request(receipt)@ == envelope.request_id@,
        !v.receipts.contains_key(envelope.request_id@),
        request_judged(
            EndpointView {
                receipts: receipts::receipts_after(v.receipts, envelope.request_id@, receipt),
                ..v
            },
            envelope,
            decision,
        ),
    ensures
        decision matches EndpointDecision::Answer(DeliveryReceipt::Duplicate { previous, .. })
            && *previous == receipt,
{
}

/// The capabilities of a row that are ready.
pub open spec fn ready_capabilities(row: Seq<CapabilityStatus>) -> Seq<CapabilityDescriptor>
    decreases row.len(),
{
    if row.len() == 0 {
        Seq::empty()
    } else if row.last().ready {
        ready_capabilities(row.drop_last()).push(row.last().capability)
    } else {
        ready_capabilities(row.drop_last())
    }
}

/// Reads what a connected endpoint says of itself. An endpoint that says nothing that can be read
/// speaks another protocol.
pub fn session_from_handshake(app_id: &AppId, said: Option<EndpointDescriptor>) -> (session: Result<
    AppLinkSession,
    AppDeliveryError,
>)
    ensures
        match said {
            None => session == Err::<AppLinkSession, AppDeliveryError>(
                AppDeliveryError::ProtocolIncompatible,
            ),
            Some(descriptor) => session matches Ok(s) && s.app_id == *app_id && s.instance_id
                == descriptor.instance_id && s.host_protocol_version
                == descriptor.host_protocol_version && s.capabilities@ == ready_capabilities(
                descriptor.capabilities@,
            ),
        },
{
    match said {
        None => Err(AppDeliveryError::ProtocolIncompatible),
        Some(descriptor) => {
            let ghost row = descriptor.capabilities@;
            let mut capabilities: Vec<CapabilityDescriptor> = Vec::new();
            assert(row.take(0) =~= Seq::empty());
            for status in it: descriptor.capabilities
                invariant
                    it.seq() == row,
                    capabilities@ == ready_capabilities(row.take(it.index())),
            {
                assert(row.take(it.index() + 1).drop_last() =~= row.take(it.index()));
                if status.ready {
                    capabilities.push(status.capability);
                }
            }
            assert(row.take(row.len() as int) =~= row);
            Ok(
                AppLinkSession {
                    app_id: app_id.clone(),
                    instance_id: descriptor.instance_id,
                    host_protocol_version: descriptor.host_protocol_version,
                    capabilities,
                },
            )
        },
    }
}

/// Looks at a new connection of a caller that waits for a capability: the wait is over once the
/// capability is offered, once another version of it is, or once the time is up. A connection
/// that failed says nothing.
pub fn poll_link_capability(
    session: &AppLinkSession,
    attempt: Result<AppLinkSession, AppDeliveryError>,
    capability: &CapabilityDescriptor,
    time_is_up: bool,
) -> (answer: Option<Result<AppLinkSession, AppDeliveryError>>)
    ensures
        if attempt is Ok && transport::offers(attempt->Ok_0.capabilities@, capability@) {
            answer matches Some(Ok(ready)) && ready.app_id == session.app_id && ready.instance_id
                == session.instance_id && ready.host_protocol_version
                == attempt->Ok_0.host_protocol_version && ready.capabilities
                == attempt->Ok_0.capabilities
        } else if attempt is Ok && transport::offers_name(
            attempt->Ok_0.capabilities@,
            capability@,
        ) {
            answer == Some(
                Err::<AppLinkSession, AppDeliveryError>(AppDeliveryError::ProtocolIncompatible),
            )
        } else if time_is_up {
            answer == Some(
                Err::<AppLinkSession, AppDeliveryError>(AppDeliveryError::ReadyTimeout),
            )
        } else {
            answer is None
        },
{
    if let Ok(connected) = attempt {
        if connected.capability_ready(capability) {
            return Some(
                Ok(
                    AppLinkSession {
                        app_id: session.app_id.clone(),
                        instance_id: session.instance_id.clone(),
                        host_protocol_version: connected.host_protocol_version,
                        capabilities: connected.capabilities,
                    },
                ),
            );
        }
        if transport::any_of_name(&connected.capabilities, capability) {
            return Some(Err(AppDeliveryError::ProtocolIncompatible));
        }
    }
    if time_is_up {
        Some(Err(AppDeliveryError::ReadyTimeout))
    } else {
        None
    }
}

/// How a connection fails.
#[derive(Clone, Copy, Debug, PartialEq, Eq, Structural)]
pub enum LinkErrorKind {
    Closed,
    TimedOut,
    WouldBlock,
    Other,
}

/// A failure of a connection, in words.
#[derive(Debug, PartialEq, Eq)]
pub struct LinkError {
    pub kind: LinkErrorKind,
    pub message: String,
}

/// How a delivery fails where no connection was made: nobody listens where the connection was
/// closed or timed out.
pub fn connect_failure(error: LinkError) -> (failure: AppDeliveryError)
    ensures
        failure == if error.kind == LinkErrorKind::Closed || error.kind == LinkErrorKind::TimedOut {
            AppDeliveryError::EndpointUnavailable
        } else {
            AppDeliveryError::DeliveryFailed { message: error.message }
        },
{
    match error.kind {
        LinkErrorKind::Closed | LinkErrorKind::TimedOut => AppDeliveryError::EndpointUnavailable,
        _ => AppDeliveryError::DeliveryFailed { message: error.message },
    }
}

/// What a caller does after it tried to send or to receive.
#[derive(Debug, PartialEq, Eq)]
pub enum LinkStep<T> {
    Done(T),
    Retry,
    Fail(AppDeliveryError),
}

/// After an attempt to send: a connection that is busy is tried again until the deadline.
pub fn after_send(sent: Result<(), LinkError>, past_deadline: bool) -> (step: LinkStep<()>)
    ensures
        match sent {
            Ok(_) => step == LinkStep::Done(()),
            Err(error) => if error.kind == LinkErrorKind::WouldBlock {
                if past_deadline {
                    step matches LinkStep::Fail(AppDeliveryError::DeliveryFailed { message })
                        && message@ == "send timed out"@
                } else {
                    step is Retry
                }
            } else {
                step == LinkStep::<()>::Fail(
                    AppDeliveryError::DeliveryFailed { message: error.message },
                )
            },
        },
{
    match sent {
        Ok(_) => LinkStep::Done(()),
        Err(error) => {
            if error.kind == LinkErrorKind::WouldBlock {
                if past_deadline {
                    LinkStep::Fail(
                        AppDeliveryError::DeliveryFailed { message: "send timed out".to_owned() },
                    )
                } else {
                    LinkStep::Retry
                }
            } else {
                LinkStep::Fail(AppDeliveryError::DeliveryFailed { message: error.message })
            }
        },
    }
}

/// After an attempt to receive: a connection that has nothing yet is tried again until the
/// deadline, and one that was closed gives no receipt.
pub fn after_receive(received: Result<Option<Vec<u8>>, LinkError>, past_deadline: bool) -> (step:
    LinkStep<Vec<u8>>)
    ensures
        match received {
            Ok(Some(bytes)) => step == LinkStep::Done(bytes),
            Ok(None) => step matches LinkStep::Fail(AppDeliveryError::DeliveryFailed { message })
                && message@ == "connection closed before receipt"@,
            Err(error) => if error.kind == LinkErrorKind::WouldBlock {
                if past_deadline {
                    step == LinkStep::<Vec<u8>>::Fail(AppDeliveryError::ReceiptTimeout)
                } else {
                    step is Retry
                }
            } else {
                step == LinkStep::<Vec<u8>>::Fail(
                    AppDeliveryError::DeliveryFailed { message: error.message },
                )
            },
        },
{
    match received {
        Ok(Some(bytes)) => LinkStep::Done(bytes),
        Ok(None) => LinkStep::Fail(
            AppDeliveryError::DeliveryFailed {
                message: "connection closed before receipt".to_owned(),
            },
        ),
        Err(error) => {
            if error.kind == LinkErrorKind::WouldBlock {
                if past_deadline {
                    LinkStep::Fail(AppDeliveryError::ReceiptTimeout)
                } else {
                    LinkStep::Retry
                }
            } else {
                LinkStep::Fail(AppDeliveryError::DeliveryFailed { message: error.message })
            }
        },
    }
}

/// How a delivery fails whose request could not be sent.
pub fn send_failure(error: &AppDeliveryError) -> (failure: AppDeliveryError)
    ensures
        failure matches AppDeliveryError::DeliveryFailed { message } && message@ == "send failed: "@
            + types::error_words(*error),
{
    AppDeliveryError::DeliveryFailed {
        message: text::join2("send failed: ", error.message().as_str()),
    }
}

/// How a delivery fails whose receipt could not be received.
pub fn receive_failure(error: &AppDeliveryError) -> (failure: AppDeliveryError)
    ensures
        failure matches AppDeliveryError::DeliveryFailed { message } && message@ == "recv failed: "@
            + types::error_words(*error),
{
    AppDeliveryError::DeliveryFailed {
        message: text::join2("recv failed: ", error.message().as_str()),
    }
}

/// A request goes to the handler of its capability exactly where it was not answered before and the
/// handler serves the capability in the versions that the request names; it goes there whole.
/// Whatever is answered at once names the request: a duplicate where it was answered before, and
/// otherwise a rejection that says whether the capability is missing or of another version.
pub proof fn law_request_goes_to_its_handler(
    v: EndpointView,
    envelope: CapabilityRequestEnvelope,
    decision: EndpointDecision,
)
    requires
        request_judged(v, envelope, decision),
    ensures
        ({
            let known = v.receipts.contains_key(envelope.request_id@);
            let name = envelope.capability.name@;
            let handled = v.handlers.contains_key(name);
            let fits = handled && v.handlers[name].name@ == name
                && v.handlers[name].protocol_version == envelope.capability.protocol_version
                && v.handlers[name].schema_version == envelope.capability.schema_version;
            &&& decision is Invoke <==> !known && fits
            &&& decision matches EndpointDecision::Invoke(sent) ==> sent == envelope
            &&& decision matches EndpointDecision::Answer(receipt) ==> {
                &&& types::receipt_request(receipt) == envelope.request_id
                &&& receipt is Duplicate <==> known
                &&& receipt is Duplicate || receipt is Rejected
                &&& receipt matches DeliveryReceipt::Duplicate { previous, .. } ==> *previous
                    == v.receipts[envelope.request_id@]
                &&& receipt matches DeliveryReceipt::Rejected { reason, .. } ==> {
                    &&& reason is CapabilityUnavailable <==> !handled
                    &&& reason is ProtocolIncompatible <==> handled
                }
            }
        }),
{
}

/// The capabilities that a session shows are those of the handshake that are ready, in their order.
pub proof fn law_session_shows_what_is_ready(row: Seq<CapabilityStatus>)
    ensures
        ready_capabilities(row) == row.filter(|status: CapabilityStatus| status.ready).map_values(
            |status: CapabilityStatus| status.capability,
        ),
    decreases row.len(),
{
    let ready = |status: CapabilityStatus| status.ready;
    let shown = |status: CapabilityStatus| status.capability;
    reveal(Seq::filter);
    if row.len() > 0 {
        law_session_shows_what_is_ready(row.drop_last());
        let front = row.drop_last().filter(ready);
        assert(row.filter(ready) == if ready(row.last()) {
            front.push(row.last())
        } else {
            front
        });
        assert(front.push(row.last()).map_values(shown) =~= front.map_values(shown).push(
            row.last().capability,
        ));
    } else {
        assert(row.filter(ready).map_values(shown) =~= Seq::empty());
    }
}

/// An endpoint is seen by its callers with every capability that it has a handler for, and with no
/// other.
pub proof fn law_handled_capabilities_are_offered(
    handlers: Map<Seq<char>, CapabilityDescriptor>,
    wanted: CapabilityView,
)
    requires
        handlers.dom().finite(),
        forall|name: Seq<char>| #[trigger]
            handlers.contains_key(name) ==> handlers[name].name@ == name,
    ensures
        ({
            let said = ordered_map::in_order(handlers.dom()).map_values(
                |name: Seq<char>| CapabilityStatus { capability: handlers[name], ready: true },
            );
            transport::offers(ready_capabilities(said), wanted) <==> handlers.contains_key(
                wanted.name,
            ) && handlers[wanted.name]@ == wanted
        }),
{
    let keys = ordered_map::in_order(handlers.dom());
    let said = keys.map_values(
        |name: Seq<char>| CapabilityStatus { capability: handlers[name], ready: true },
    );
    lemma_all_ready(said);
    ordered_map::lemma_in_order_of(handlers.dom());
    let shown = ready_capabilities(said);
    if transport::offers(shown, wanted) {
        let i = choose|i: int| 0 <= i < shown.len() && (#[trigger] shown[i])@ == wanted;
        assert(keys.to_set().contains(keys[i]));
        assert(said[i].capability == handlers[keys[i]]);
    }
    if handlers.contains_key(wanted.name) && handlers[wanted.name]@ == wanted {
        assert(keys.to_set().contains(wanted.name));
        let i = choose|i: int| 0 <= i < keys.len() && keys[i] == wanted.name;
        assert(said[i].capability == handlers[wanted.name]);
        assert(shown[i]@ == wanted);
    }
}

proof fn lemma_all_ready(row: Seq<CapabilityStatus>)
    requires
        forall|i: int| 0 <= i < row.len() ==> (#[trigger] row[i]).ready,
    ensures
        ready_capabilities(row).len() == row.len(),
        forall|i: int|
            0 <= i < row.len() ==> ready_capabilities(row)[i] == (#[trigger] row[i]).capability,
    decreases row.len(),
{
    if row.len() > 0 {
        lemma_all_ready(row.drop_last());
        assert forall|i: int| 0 <= i < row.len() implies ready_capabilities(row)[i] == (
        #[trigger] row[i]).capability by {
            if i < row.len() - 1 {
                assert(row.drop_last()[i] == row[i]);
            }
        }
    }
}

} // verus!
