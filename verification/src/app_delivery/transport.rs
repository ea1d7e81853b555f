//! Connections to other apps: what a connected app says of itself, and a transport in memory.
use crate::app_delivery::receipts::ReceiptStore;
use crate::app_delivery::receipts;
use crate::app_delivery::types::{
    AppDeliveryError, AppId, CapabilityDescriptor, CapabilityRequestEnvelope, CapabilityView,
    DeliveryReceipt, HOST_PROTOCOL_VERSION,
};
use crate::ordered_map::OrderedMap;
use crate::text;
use vstd::prelude::*;
use vstd::string::*;

verus! {

broadcast use vstd::string::group_string_axioms;

/// A row of capabilities holds one that serves `required`.
pub open spec fn offers(capabilities: Seq<CapabilityDescriptor>, required: CapabilityView) -> bool {
    exists|i: int| 0 <= i < capabilities.len() && (#[trigger] capabilities[i])@ == required
}

/// A row of capabilities holds one of the name of `required`.
pub open spec fn offers_name(capabilities: Seq<CapabilityDescriptor>, required: CapabilityView) -> bool {
    exists|i: int|
        0 <= i < capabilities.len() && (#[trigger] capabilities[i]).name@ == required.name
}

/// Whether a row of capabilities holds one that serves `required`.
pub fn any_compatible(capabilities: &Vec<CapabilityDescriptor>, required: &CapabilityDescriptor) -> (found:
    bool)
    ensures
        found == offers(capabilities@, required@),
{
    let mut i: usize = 0;
    while i < capabilities.len()
        invariant
            i <= capabilities.len(),
            forall|j: int| 0 <= j < i ==> (#[trigger] capabilities@[j])@ != required@,
        decreases capabilities.len() - i,
    {
        if required.is_compatible_with(&capabilities[i]) {
            return true;
        }
        i = i + 1;
    }
    false
}

/// Whether a row of capabilities holds one of the name of `required`.
pub fn any_of_name(capabilities: &Vec<CapabilityDescriptor>, required: &CapabilityDescriptor) -> (found:
    bool)
    ensures
        found == offers_name(capabilities@, required@),
{
    let mut i: usize = 0;
    while i < capabilities.len()
        invariant
            i <= capabilities.len(),
            forall|j: int| 0 <= j < i ==> (#[trigger] capabilities@[j]).name@ != required@.name,
        decreases capabilities.len() - i,
    {
        if text::text_eq(capabilities[i].name.as_str(), required.name.as_str()) {
            return true;
        }
        i = i + 1;
    }
    false
}

/// What a connected app says of itself.
#[derive(Debug, PartialEq, Eq)]
pub struct AppLinkSession {
    pub app_id: AppId,
    pub instance_id: String,
    pub host_protocol_version: u32,
    pub capabilities: Vec<CapabilityDescriptor>,
}

#[verifier::ext_equal]
pub struct SessionView {
    pub app_id: AppId,
    pub instance_id: Seq<char>,
    pub host_protocol_version: u32,
    pub capabilities: Seq<CapabilityDescriptor>,
}

impl View for AppLinkSession {
    type V = SessionView;

    open spec fn view(&self) -> SessionView {
        SessionView {
            app_id: self.app_id,
            instance_id: self.instance_id@,
            host_protocol_version: self.host_protocol_version,
            capabilities: self.capabilities@,
        }
    }
}

impl AppLinkSession {
    /// Whether the app offers a capability.
    pub fn capability_ready(&self, required: &CapabilityDescriptor) -> (ready: bool)
        ensures
            ready == offers(self.capabilities@, required@),
    {
        any_compatible(&self.capabilities, required)
    }

    /// Refuses an app whose host speaks another protocol.
    pub fn ensure_protocol_compatible(&self) -> (checked: Result<(), AppDeliveryError>)
        ensures
            checked == if self.host_protocol_version == HOST_PROTOCOL_VERSION {
                Ok::<(), AppDeliveryError>(())
            } else {
                Err(AppDeliveryError::ProtocolIncompatible)
            },
    {
        if self.host_protocol_version == HOST_PROTOCOL_VERSION {
            Ok(())
        } else {
            Err(AppDeliveryError::ProtocolIncompatible)
        }
    }

    /// Refuses an app that does not offer a capability, and says whether it offers another
    /// version of it.
    pub fn ensure_capability_ready(&self, required: &CapabilityDescriptor) -> (checked: Result<
        (),
        AppDeliveryError,
    >)
        ensures
            checked == if offers(self.capabilities@, required@) {
                Ok::<(), AppDeliveryError>(())
            } else if offers_name(self.capabilities@, required@) {
                Err(AppDeliveryError::ProtocolIncompatible)
            } else {
                Err(AppDeliveryError::CapabilityUnavailable)
            },
    {
        if any_compatible(&self.capabilities, required) {
            Ok(())
        } else if any_of_name(&self.capabilities, required) {
            Err(AppDeliveryError::ProtocolIncompatible)
        } else {
            Err(AppDeliveryError::CapabilityUnavailable)
        }
    }
}

/// An app in memory.
#[derive(Debug)]
struct MemoryPeer {
    online: bool,
    host_protocol_version: u32,
    capabilities: Vec<CapabilityDescriptor>,
    ready_after_ns: Option<u128>,
    force_error: Option<AppDeliveryError>,
    receipts: ReceiptStore,
}

#[verifier::ext_equal]
pub struct PeerView {
    pub online: bool,
    pub host_protocol_version: u32,
    pub capabilities: Seq<CapabilityDescriptor>,
    pub ready_after_ns: Option<u128>,
    pub force_error: Option<AppDeliveryError>,
    pub receipts: Map<Seq<char>, DeliveryReceipt>,
}

impl View for MemoryPeer {
    type V = PeerView;

    closed spec fn view(&self) -> PeerView {
        PeerView {
            online: self.online,
            host_protocol_version: self.host_protocol_version,
            capabilities: self.capabilities@,
            ready_after_ns: self.ready_after_ns,
            force_error: self.force_error,
            receipts: self.receipts@,
        }
    }
}

/// Injectable in-memory transport for pure Rust delivery state-machine tests.
#[derive(Debug)]
pub struct InMemoryAppLinkTransport {
    peers: OrderedMap<MemoryPeer>,
}

closed spec fn peer_views(peers: Map<Seq<char>, MemoryPeer>) -> Map<Seq<char>, PeerView> {
    peers.map_values(|peer: MemoryPeer| peer@)
}

impl View for InMemoryAppLinkTransport {
    type V = Map<Seq<char>, PeerView>;

    closed spec fn view(&self) -> Map<Seq<char>, PeerView> {
        peer_views(self.peers@)
    }
}

/// An app that just appeared.
pub open spec fn new_peer(
    online: bool,
    capabilities: Seq<CapabilityDescriptor>,
    ready_after_ns: Option<u128>,
) -> PeerView {
    PeerView {
        online,
        host_protocol_version: 1,
        capabilities,
        ready_after_ns,
        force_error: None,
        receipts: Map::empty(),
    }
}

/// The apps with one of them changed; an app that is not there is not changed.
pub open spec fn peer_changed(
    peers: Map<Seq<char>, PeerView>,
    app: Seq<char>,
    changed: PeerView,
) -> Map<Seq<char>, PeerView> {
    if peers.contains_key(app) {
        peers.insert(app, changed)
    } else {
        peers
    }
}

/// The capabilities that a freshly connected app shows: none while it is still getting ready.
pub open spec fn shown_capabilities(peer: PeerView) -> Seq<CapabilityDescriptor> {
    if peer.ready_after_ns matches Some(delay) && delay > 0 {
        Seq::empty()
    } else {
        peer.capabilities
    }
}

/// `connected` is the answer to connecting to `app`: an app that is unknown is not installed, a
/// forced error comes first, an app that is off has no endpoint, and any other shows itself.
pub open spec fn connects(
    peers: Map<Seq<char>, PeerView>,
    app: AppId,
    connected: Result<AppLinkSession, AppDeliveryError>,
) -> bool {
    if !peers.contains_key(app@) {
        connected == Err::<AppLinkSession, AppDeliveryError>(AppDeliveryError::AppNotInstalled)
    } else {
        let peer = peers[app@];
        match peer.force_error {
            Some(error) => connected == Err::<AppLinkSession, AppDeliveryError>(error),
            None => if !peer.online {
                connected == Err::<AppLinkSession, AppDeliveryError>(
                    AppDeliveryError::EndpointUnavailable,
                )
            } else {
                connected matches Ok(session) && session@ == (SessionView {
                    app_id: app,
                    instance_id: "memory-"@ + app@,
                    host_protocol_version: peer.host_protocol_version,
                    capabilities: shown_capabilities(peer),
                })
            },
        }
    }
}

/// An app has had the time it needs to get ready.
pub open spec fn had_time(peer: PeerView, elapsed_ns: u128) -> bool {
    match peer.ready_after_ns {
        Some(delay) => elapsed_ns >= delay,
        None => true,
    }
}

/// `answer` is what waiting for a capability gives after some time: the session of the app once
/// it is ready and offers the capability, an error where it is ready and offers another version
/// of it, a timeout where the time is up, and nothing yet otherwise.
pub open spec fn capability_awaited(
    peers: Map<Seq<char>, PeerView>,
    session: SessionView,
    capability: CapabilityView,
    elapsed_ns: u128,
    timeout_ns: u128,
    answer: Option<Result<AppLinkSession, AppDeliveryError>>,
) -> bool {
    let app = session.app_id@;
    if !peers.contains_key(app) {
        answer == Some(
            Err::<AppLinkSession, AppDeliveryError>(AppDeliveryError::EndpointUnavailable),
        )
    } else {
        let peer = peers[app];
        match peer.force_error {
            Some(error) => answer == Some(Err::<AppLinkSession, AppDeliveryError>(error)),
            None => if had_time(peer, elapsed_ns) && offers(peer.capabilities, capability) {
                answer matches Some(Ok(ready)) && ready@ == (SessionView {
                    host_protocol_version: peer.host_protocol_version,
                    capabilities: peer.capabilities,
                    ..session
                })
            } else if had_time(peer, elapsed_ns) && offers_name(peer.capabilities, capability) {
                answer == Some(
                    Err::<AppLinkSession, AppDeliveryError>(
                        AppDeliveryError::ProtocolIncompatible,
                    ),
                )
            } else if elapsed_ns >= timeout_ns {
                answer == Some(
                    Err::<AppLinkSession, AppDeliveryError>(AppDeliveryError::ReadyTimeout),
                )
            } else {
                answer is None
            },
        }
    }
}

/// `answer` is what an app says to a request, and `after` are the apps then: an app that offers
/// the capability accepts a request once and repeats its receipt from then on.
pub open spec fn request_answered(
    peers: Map<Seq<char>, PeerView>,
    after: Map<Seq<char>, PeerView>,
    app: Seq<char>,
    envelope: CapabilityRequestEnvelope,
    answer: Result<DeliveryReceipt, AppDeliveryError>,
) -> bool {
    if !peers.contains_key(app) {
        &&& answer == Err::<DeliveryReceipt, AppDeliveryError>(AppDeliveryError::EndpointUnavailable)
        &&& after == peers
    } else {
        let peer = peers[app];
        match peer.force_error {
            Some(error) => {
                &&& answer == Err::<DeliveryReceipt, AppDeliveryError>(error)
                &&& after == peers
            },
            None => if !offers(peer.capabilities, envelope.capability@) {
                &&& answer == Err::<DeliveryReceipt, AppDeliveryError>(
                    AppDeliveryError::CapabilityUnavailable,
                )
                &&& after == peers
            } else {
                exists|receipt: DeliveryReceipt| #[trigger]
                    accepted(envelope, receipt) && (answer matches Ok(told) && receipts::answered(
                        peer.receipts,
                        envelope.request_id@,
                        receipt,
                        told,
                    )) && after == peers.insert(
                        app,
                        PeerView {
                            receipts: receipts::receipts_after(
                                peer.receipts,
                                envelope.request_id@,
                                receipt,
                            ),
                            ..peer
                        },
                    )
            },
        }
    }
}

/// `receipt` accepts a request, as a task named after it.
pub open spec fn accepted(envelope: CapabilityRequestEnvelope, receipt: DeliveryReceipt) -> bool {
    receipt matches DeliveryReceipt::Accepted { request_id, remote_task_id } && request_id
        == envelope.request_id && (remote_task_id matches Some(task) && task@ == "task-"@
        + envelope.request_id@)
}

impl InMemoryAppLinkTransport {
    pub fn new() -> (transport: Self)
        ensures
            transport@ == Map::<Seq<char>, PeerView>::empty(),
    {
        let transport = InMemoryAppLinkTransport { peers: OrderedMap::new() };
        assert(transport@ =~= Map::<Seq<char>, PeerView>::empty());
        transport
    }

    fn put(&mut self, app_id: &AppId, peer: MemoryPeer)
        ensures
            final(self)@ == old(self)@.insert(app_id@, peer@),
    {
        self.peers.insert(app_id.as_str().to_owned(), peer);
        assert(self@ =~= old(self)@.insert(app_id@, peer@));
    }

    /// An app that is on.
    pub fn register_online(&mut self, app_id: &AppId, capabilities: Vec<CapabilityDescriptor>)
        ensures
            final(self)@ == old(self)@.insert(app_id@, new_peer(true, capabilities@, None)),
    {
        self.put(
            app_id,
            MemoryPeer {
                online: true,
                host_protocol_version: 1,
                capabilities,
                ready_after_ns: None,
                force_error: None,
                receipts: ReceiptStore::new(),
            },
        );
    }

    /// An app that is off, and takes some time to get ready once it is on.
    pub fn register_offline(
        &mut self,
        app_id: &AppId,
        capabilities: Vec<CapabilityDescriptor>,
        ready_after_ns: u128,
    )
        ensures
            final(self)@ == old(self)@.insert(
                app_id@,
                new_peer(false, capabilities@, Some(ready_after_ns)),
            ),
    {
        self.put(
            app_id,
            MemoryPeer {
                online: false,
                host_protocol_version: 1,
                capabilities,
                ready_after_ns: Some(ready_after_ns),
                force_error: None,
                receipts: ReceiptStore::new(),
            },
        );
    }

    /// Makes every use of an app fail.
    pub fn set_force_error(&mut self, app_id: &AppId, error: AppDeliveryError)
        ensures
            final(self)@ == peer_changed(
                old(self)@,
                app_id@,
                PeerView { force_error: Some(error), ..old(self)@[app_id@] },
            ),
    {
        if let Some(peer) = self.peers.remove(app_id.as_str()) {
            let mut peer = peer;
            peer.force_error = Some(error);
            self.put(app_id, peer);
        }
        assert(self@ =~= peer_changed(
            old(self)@,
            app_id@,
            PeerView { force_error: Some(error), ..old(self)@[app_id@] },
        ));
    }

    /// Switches an app on.
    pub fn mark_online(&mut self, app_id: &AppId)
        ensures
            final(self)@ == peer_changed(
                old(self)@,
                app_id@,
                PeerView { online: true, ..old(self)@[app_id@] },
            ),
    {
        if let Some(peer) = self.peers.remove(app_id.as_str()) {
            let mut peer = peer;
            peer.online = true;
            self.put(app_id, peer);
        }
        assert(self@ =~= peer_changed(
            old(self)@,
            app_id@,
            PeerView { online: true, ..old(self)@[app_id@] },
        ));
    }

    /// Makes the host of an app speak a version of the protocol.
    pub fn set_host_protocol_version(&mut self, app_id: &AppId, version: u32)
        ensures
            final(self)@ == peer_changed(
                old(self)@,
                app_id@,
                PeerView { host_protocol_version: version, ..old(self)@[app_id@] },
            ),
    {
        if let Some(peer) = self.peers.remove(app_id.as_str()) {
            let mut peer = peer;
            peer.host_protocol_version = version;
            self.put(app_id, peer);
        }
        assert(self@ =~= peer_changed(
            old(self)@,
            app_id@,
            PeerView { host_protocol_version: version, ..old(self)@[app_id@] },
        ));
    }

    /// Changes what an app offers.
    pub fn set_capabilities(&mut self, app_id: &AppId, capabilities: Vec<CapabilityDescriptor>)
        ensures
            final(self)@ == peer_changed(
                old(self)@,
                app_id@,
                PeerView { capabilities: capabilities@, ..old(self)@[app_id@] },
            ),
    {
        if let Some(peer) = self.peers.remove(app_id.as_str()) {
            let mut peer = peer;
            peer.capabilities = capabilities;
            self.put(app_id, peer);
        }
        assert(self@ =~= peer_changed(
            old(self)@,
            app_id@,
            PeerView { capabilities: capabilities@, ..old(self)@[app_id@] },
        ));
    }

    /// Connects to an app.
    pub fn try_connect(&self, app_id: &AppId) -> (connected: Result<
        AppLinkSession,
        AppDeliveryError,
    >)
        ensures
            connects(self@, *app_id, connected),
    {
        let peer = match self.peers.get(app_id.as_str()) {
            Some(peer) => peer,
            None => {
                return Err(AppDeliveryError::AppNotInstalled);
            },
        };
        assert(self@[app_id@] == peer@);
        if let Some(error) = &peer.force_error {
            return Err(error.clone());
        }
        if !peer.online {
            return Err(AppDeliveryError::EndpointUnavailable);
        }
        let getting_ready = match peer.ready_after_ns {
            Some(delay) => delay > 0,
            None => false,
        };
        let capabilities = if getting_ready {
            Vec::new()
        } else {
            let shown = peer.capabilities.clone();
            assert(shown@ =~= peer.capabilities@);
            shown
        };
        Ok(
            AppLinkSession {
                app_id: app_id.clone(),
                instance_id: text::join2("memory-", app_id.as_str()),
                host_protocol_version: peer.host_protocol_version,
                capabilities,
            },
        )
    }

    /// Looks whether an app offers a capability by now. `elapsed_ns` is how long the caller has
    /// waited, and `timeout_ns` how long it is willing to.
    pub fn poll_capability_ready(
        &self,
        session: &AppLinkSession,
        capability: &CapabilityDescriptor,
        elapsed_ns: u128,
        timeout_ns: u128,
    ) -> (answer: Option<Result<AppLinkSession, AppDeliveryError>>)
        ensures
            capability_awaited(
                self@,
                session@,
                capability@,
                elapsed_ns,
                timeout_ns,
                answer,
            ),
    {
        let peer = match self.peers.get(session.app_id.as_str()) {
            Some(peer) => peer,
            None => {
                return Some(Err(AppDeliveryError::EndpointUnavailable));
            },
        };
        assert(self@[session.app_id@] == peer@);
        if let Some(error) = &peer.force_error {
            return Some(Err(error.clone()));
        }
        let ready = match peer.ready_after_ns {
            Some(delay) => elapsed_ns >= delay,
            None => true,
        };
        if ready && any_compatible(&peer.capabilities, capability) {
            let capabilities = peer.capabilities.clone();
            assert(capabilities@ =~= peer.capabilities@);
            return Some(
                Ok(
                    AppLinkSession {
                        app_id: session.app_id.clone(),
                        instance_id: session.instance_id.clone(),
                        host_protocol_version: peer.host_protocol_version,
                        capabilities,
                    },
                ),
            );
        }
        if ready && any_of_name(&peer.capabilities, capability) {
            return Some(Err(AppDeliveryError::ProtocolIncompatible));
        }
        if elapsed_ns >= timeout_ns {
            return Some(Err(AppDeliveryError::ReadyTimeout));
        }
        None
    }

    /// Hands a request to an app.
    pub fn transmit(&mut self, session: &AppLinkSession, envelope: &CapabilityRequestEnvelope) -> (answer:
        Result<DeliveryReceipt, AppDeliveryError>)
        ensures
            request_answered(old(self)@, final(self)@, session.app_id@, *envelope, answer),
    {
        let ghost before = self@;
        let ghost app = session.app_id@;
        let peer = match self.peers.get(session.app_id.as_str()) {
            Some(peer) => peer,
            None => {
                return Err(AppDeliveryError::EndpointUnavailable);
            },
        };
        assert(before[app] == peer@);
        if let Some(error) = &peer.force_error {
            return Err(error.clone());
        }
        if !any_compatible(&peer.capabilities, &envelope.capability) {
            return Err(AppDeliveryError::CapabilityUnavailable);
        }
        let receipt = DeliveryReceipt::Accepted {
            request_id: envelope.request_id.clone(),
            remote_task_id: Some(text::join2("task-", envelope.request_id.as_str())),
        };
        assert(accepted(*envelope, receipt));
        let mut told = Err(AppDeliveryError::EndpointUnavailable);
        if let Some(peer) = self.peers.remove(session.app_id.as_str()) {
            let mut peer = peer;
            assert(peer@ == before[app]);
            told = Ok(peer.receipts.accept_or_duplicate(envelope.request_id.clone(), receipt));
            self.put(&session.app_id, peer);
            assert(self@ =~= before.insert(
                app,
                PeerView {
                    receipts: receipts::receipts_after(
                        before[app].receipts,
                        envelope.request_id@,
                        receipt,
                    ),
                    ..before[app]
                },
            ));
        }
        told
    }

    /// Asks an app for the receipt of a request.
    pub fn query_receipt(&self, session: &AppLinkSession, request_id: &str) -> (answer: Result<
        Option<DeliveryReceipt>,
        AppDeliveryError,
    >)
        ensures
            if !self@.contains_key(session.app_id@) {
                answer == Err::<Option<DeliveryReceipt>, AppDeliveryError>(
                    AppDeliveryError::EndpointUnavailable,
                )
            } else {
                let receipts = self@[session.app_id@].receipts;
                answer == Ok::<Option<DeliveryReceipt>, AppDeliveryError>(
                    if receipts.contains_key(request_id@) {
                        Some(receipts[request_id@])
                    } else {
                        None
                    },
                )
            },
    {
        match self.peers.get(session.app_id.as_str()) {
            Some(peer) => {
                assert(self@[session.app_id@] == peer@);
                match peer.receipts.get(request_id) {
                    Some(receipt) => Ok(Some(receipt.clone())),
                    None => Ok(None),
                }
            },
            None => Err(AppDeliveryError::EndpointUnavailable),
        }
    }
}

/// An app that accepted a request repeats its first receipt when the request is sent again, and
/// remembers nothing else.
pub proof fn law_resent_request_is_a_duplicate(
    peers: Map<Seq<char>, PeerView>,
    between: Map<Seq<char>, PeerView>,
    after: Map<Seq<char>, PeerView>,
    app: Seq<char>,
    first: CapabilityRequestEnvelope,
    second: CapabilityRequestEnvelope,
    answer: DeliveryReceipt,
    again: Result<DeliveryReceipt, AppDeliveryError>,
)
    requires
        request_answered(peers, between, app, first, Ok(answer)),
        peers.contains_key(app) && !peers[app].receipts.contains_key(first.request_id@),
        second.request_id@ == first.request_id@,
        second.capability@ == first.capability@,
        request_answered(between, after, app, second, again),
    ensures
        again matches Ok(DeliveryReceipt::Duplicate { previous, .. }) && *previous == answer,
        after == between,
{
    assert(after =~= between);
}

/// An app offers a capability exactly where it holds one of that name in those versions, and offers
/// the name where it holds one of that name in any versions.
pub proof fn law_offer_fits_in_name_and_versions(
    capabilities: Seq<CapabilityDescriptor>,
    required: CapabilityDescriptor,
)
    ensures
        offers(capabilities, required@) <==> exists|i: int|
            0 <= i < capabilities.len() && (#[trigger] capabilities[i]).name@ == required.name@
                && capabilities[i].protocol_version == required.protocol_version
                && capabilities[i].schema_version == required.schema_version,
        offers_name(capabilities, required@) <==> exists|i: int|
            0 <= i < capabilities.len() && (#[trigger] capabilities[i]).name@ == required.name@,
        offers(capabilities, required@) ==> offers_name(capabilities, required@),
{
    if offers(capabilities, required@) {
        let i = choose|i: int|
            0 <= i < capabilities.len() && (#[trigger] capabilities[i])@ == required@;
        assert(capabilities[i].name@ == required.name@);
        assert(capabilities[i].protocol_version == required@.protocol_version);
        assert(capabilities[i].schema_version == required@.schema_version);
    }
    if exists|i: int|
        0 <= i < capabilities.len() && (#[trigger] capabilities[i]).name@ == required.name@
            && capabilities[i].protocol_version == required.protocol_version
            && capabilities[i].schema_version == required.schema_version {
        let i = choose|i: int|
            0 <= i < capabilities.len() && (#[trigger] capabilities[i]).name@ == required.name@
                && capabilities[i].protocol_version == required.protocol_version
                && capabilities[i].schema_version == required.schema_version;
        assert(capabilities[i]@ =~= required@);
    }
}

/// Connecting succeeds exactly where the app is known, is not made to fail and is on. The session
/// is that of the app; it shows what the app offers unless the app takes time to get ready.
pub proof fn law_connection_shows_the_app(
    peers: Map<Seq<char>, PeerView>,
    app: AppId,
    connected: Result<AppLinkSession, AppDeliveryError>,
)
    requires
        connects(peers, app, connected),
    ensures
        connected is Ok <==> peers.contains_key(app@) && peers[app@].force_error is None
            && peers[app@].online,
        connected matches Ok(session) ==> {
            &&& session.app_id == app
            &&& session.instance_id@ == "memory-"@ + app@
            &&& session.host_protocol_version == peers[app@].host_protocol_version
            &&& peers[app@].ready_after_ns is None || peers[app@].ready_after_ns == Some(0u128)
                ==> session.capabilities@ == peers[app@].capabilities
            &&& peers[app@].ready_after_ns is Some && peers[app@].ready_after_ns->0 > 0
                ==> session.capabilities@.len() == 0
        },
        connected matches Err(error) ==> {
            &&& !peers.contains_key(app@) ==> error is AppNotInstalled
            &&& peers.contains_key(app@) && peers[app@].force_error is Some ==> error
                == peers[app@].force_error->0
            &&& peers.contains_key(app@) && peers[app@].force_error is None
                ==> error is EndpointUnavailable
        },
{
}

/// A wait for a capability goes on exactly while the app is there and not made to fail, the time is
/// not up, and the app is not ready or offers nothing of that name. It succeeds only with an app
/// that offers the capability, on the same session.
pub proof fn law_wait_ends_with_the_capability(
    peers: Map<Seq<char>, PeerView>,
    session: SessionView,
    capability: CapabilityView,
    elapsed_ns: u128,
    timeout_ns: u128,
    answer: Option<Result<AppLinkSession, AppDeliveryError>>,
)
    requires
        capability_awaited(peers, session, capability, elapsed_ns, timeout_ns, answer),
    ensures
        ({
            let app = session.app_id@;
            let there = peers.contains_key(app);
            let forced = there && peers[app].force_error is Some;
            let ready = there && (peers[app].ready_after_ns matches Some(delay) ==> elapsed_ns
                >= delay);
            let offered = there && offers(peers[app].capabilities, capability);
            let named = there && offers_name(peers[app].capabilities, capability);
            &&& answer is None <==> there && !forced && elapsed_ns < timeout_ns && !(ready && (
            offered || named))
            &&& answer is Some && answer->0 is Ok <==> there && !forced && ready && offered
            &&& answer matches Some(Ok(found)) ==> {
                &&& offers(found.capabilities@, capability)
                &&& found.app_id == session.app_id
                &&& found.instance_id@ == session.instance_id
                &&& found.host_protocol_version == peers[app].host_protocol_version
            }
            &&& answer matches Some(Err(error)) ==> {
                &&& !there ==> error is EndpointUnavailable
                &&& forced ==> error == peers[app].force_error->0
                &&& there && !forced && ready && named ==> error is ProtocolIncompatible
                &&& there && !forced && !(ready && named) ==> error is ReadyTimeout && elapsed_ns
                    >= timeout_ns
            }
        }),
{
    let app = session.app_id@;
    if peers.contains_key(app) && offers(peers[app].capabilities, capability) {
        let row = peers[app].capabilities;
        let i = choose|i: int| 0 <= i < row.len() && (#[trigger] row[i])@ == capability;
        assert(row[i].name@ == capability.name);
    }
}

/// A request is answered exactly where the app is there, is not made to fail and offers the
/// capability. Its first answer accepts it under its own name, as a task named after it, and is
/// remembered; every other app stays as it is, and so do all of them where it is not answered.
pub proof fn law_request_is_accepted_by_its_app(
    peers: Map<Seq<char>, PeerView>,
    after: Map<Seq<char>, PeerView>,
    app: Seq<char>,
    envelope: CapabilityRequestEnvelope,
    answer: Result<DeliveryReceipt, AppDeliveryError>,
    other: Seq<char>,
)
    requires
        request_answered(peers, after, app, envelope, answer),
    ensures
        answer is Ok <==> peers.contains_key(app) && peers[app].force_error is None && offers(
            peers[app].capabilities,
            envelope.capability@,
        ),
        after.dom() == peers.dom(),
        other != app && peers.contains_key(other) ==> after[other] == peers[other],
        answer is Err ==> after == peers,
        answer matches Err(error) ==> {
            &&& !peers.contains_key(app) ==> error is EndpointUnavailable
            &&& peers.contains_key(app) && peers[app].force_error is Some ==> error
                == peers[app].force_error->0
            &&& peers.contains_key(app) && peers[app].force_error is None
                ==> error is CapabilityUnavailable
        },
        answer is Ok && !peers[app].receipts.contains_key(envelope.request_id@) ==> {
            &&& after[app].receipts.contains_key(envelope.request_id@)
            &&& after[app].receipts[envelope.request_id@] == answer->Ok_0
            &&& answer->Ok_0 matches DeliveryReceipt::Accepted { request_id, remote_task_id }
                && request_id == envelope.request_id && (remote_task_id matches Some(task) && task@
                == "task-"@ + envelope.request_id@)
        },
        answer is Ok && peers[app].receipts.contains_key(envelope.request_id@) ==> after == peers && (
        answer->Ok_0 matches DeliveryReceipt::Duplicate { request_id, previous } && request_id@
            == envelope.request_id@ && *previous == peers[app].receipts[envelope.request_id@]),
{
    assert(after.dom() =~= peers.dom());
    if answer is Ok && peers[app].receipts.contains_key(envelope.request_id@) {
        assert(after =~= peers);
    }
}

/// A new app speaks this protocol, fails at nothing and has answered nothing.
pub proof fn law_new_app_is_plain(
    online: bool,
    capabilities: Seq<CapabilityDescriptor>,
    ready_after_ns: Option<u128>,
)
    ensures
        ({
            let peer = new_peer(online, capabilities, ready_after_ns);
            &&& peer.online == online
            &&& peer.capabilities == capabilities
            &&& peer.ready_after_ns == ready_after_ns
            &&& peer.host_protocol_version == HOST_PROTOCOL_VERSION
            &&& peer.force_error is None
            &&& peer.receipts.len() == 0
        }),
{
}

/// Changing an app changes that app and no other, and makes no app appear.
pub proof fn law_only_the_app_is_changed(
    peers: Map<Seq<char>, PeerView>,
    app: Seq<char>,
    changed: PeerView,
    other: Seq<char>,
)
    ensures
        peer_changed(peers, app, changed).dom() == peers.dom(),
        peers.contains_key(app) ==> peer_changed(peers, app, changed)[app] == changed,
        other != app && peers.contains_key(other) ==> peer_changed(peers, app, changed)[other]
            == peers[other],
{
    assert(peer_changed(peers, app, changed).dom() =~= peers.dom());
}

/// The view of a session tells all of it.
pub proof fn law_session_view_tells_all(a: AppLinkSession, b: AppLinkSession)
    ensures
        a@ == b@ <==> a.app_id == b.app_id && a.instance_id@ == b.instance_id@
            && a.host_protocol_version == b.host_protocol_version && a.capabilities@
            == b.capabilities@,
        a@.app_id == a.app_id,
        a@.host_protocol_version == a.host_protocol_version,
{
}

} // verus!
