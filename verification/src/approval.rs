//! Questions to the user that wait for a decision.
use crate::bridge::{
    ApprovalAttribution, ApprovalDecision, ApprovalRequest, ApprovalResponse, FrontendContext,
};
use crate::error::{HostError, HostResult};
use crate::ids;
use crate::ordered_map::OrderedMap;
use crate::ordered_map;
use crate::text;
use vstd::prelude::*;
use vstd::string::*;

verus! {

broadcast use vstd::string::group_string_axioms;

/// A question that waits for a decision.
#[derive(Debug, PartialEq, Eq)]
pub struct PendingApproval {
    pub request: ApprovalRequest,
}

/// The questions that wait for a decision.
#[derive(Debug)]
pub struct ApprovalBridge {
    pending: OrderedMap<PendingApproval>,
}

/// The questions of a map of pending approvals.
pub open spec fn questions(pending: Map<Seq<char>, PendingApproval>) -> Map<Seq<char>, ApprovalRequest> {
    pending.map_values(|entry: PendingApproval| entry.request)
}

impl View for ApprovalBridge {
    type V = Map<Seq<char>, ApprovalRequest>;

    closed spec fn view(&self) -> Map<Seq<char>, ApprovalRequest> {
        questions(self.pending@)
    }
}

/// A part of a response says what the question says, or says nothing.
pub open spec fn agrees(said: Option<Seq<char>>, asked: Seq<char>) -> bool {
    match said {
        Some(s) => s == asked,
        None => true,
    }
}

/// A response is traced back to the same place as the question, as far as it says.
pub open spec fn same_attribution(response: ApprovalResponse, request: ApprovalRequest) -> bool {
    &&& agrees(text::opt_text(response.trace_id), request.trace_id@)
    &&& agrees(text::opt_text(response.correlation_id), request.correlation_id@)
    &&& match response.context {
        Some(context) => context@ == request.context@,
        None => true,
    }
}

/// `decided` is the answer to a response: it is refused where no such question waits, where it
/// does not hold the token of the question, and where it is traced back to another place.
pub open spec fn response_judged(
    pending: Map<Seq<char>, ApprovalRequest>,
    response: ApprovalResponse,
    decided: HostResult<ApprovalDecision>,
) -> bool {
    let id = response.approval_id@;
    if !pending.contains_key(id) {
        decided matches Err(HostError::Approval(words)) && words@
            == "approval request not pending: "@ + id
    } else if pending[id].token@ != response.token@ {
        decided matches Err(HostError::Approval(words)) && words@ == "approval token mismatch: "@
            + id
    } else if !same_attribution(response, pending[id]) {
        decided matches Err(HostError::Approval(words)) && words@
            == "approval attribution mismatch: "@ + id
    } else {
        decided == Ok::<ApprovalDecision, HostError>(response.decision)
    }
}

/// A question is answered once: a second answer to it is refused.
pub proof fn law_question_is_answered_once(
    pending: Map<Seq<char>, ApprovalRequest>,
    first: ApprovalResponse,
    decided: HostResult<ApprovalDecision>,
    second: ApprovalResponse,
    again: HostResult<ApprovalDecision>,
)
    requires
        response_judged(pending, first, decided),
        decided is Ok,
        second.approval_id@ == first.approval_id@,
        response_judged(pending.remove(first.approval_id@), second, again),
    ensures
        again is Err,
{
}

impl ApprovalBridge {
    pub fn new() -> (bridge: Self)
        ensures
            bridge@ == Map::<Seq<char>, ApprovalRequest>::empty(),
    {
        let bridge = ApprovalBridge { pending: OrderedMap::new() };
        assert(bridge@ =~= Map::<Seq<char>, ApprovalRequest>::empty());
        bridge
    }

    /// Asks a question that is traced back to a place in the frontend. Its trace and correlation
    /// are new and share one identifier.
    pub fn request(
        &mut self,
        requester: String,
        operation: String,
        risk: String,
        payload: serde_json::Value,
        context: FrontendContext,
    ) -> (request: ApprovalRequest)
        ensures
            ids::prefixed_id("approval:"@, request.approval_id@),
            ids::id_shape(request.token@),
            request.requester == requester,
            request.operation == operation,
            request.risk == risk,
            request.payload == payload,
            request.context == context,
            exists|id: Seq<char>| #[trigger]
                ids::id_shape(id) && request.trace_id@ == "approval-trace:"@ + id
                    && request.correlation_id@ == "approval-correlation:"@ + id,
            final(self)@ == old(self)@.insert(request.approval_id@, request),
    {
        let attribution = fallback_attribution(context);
        self.request_with_attribution(requester, operation, risk, payload, attribution)
    }

    /// Asks a question.
    pub fn request_with_attribution(
        &mut self,
        requester: String,
        operation: String,
        risk: String,
        payload: serde_json::Value,
        attribution: ApprovalAttribution,
    ) -> (request: ApprovalRequest)
        ensures
            ids::prefixed_id("approval:"@, request.approval_id@),
            ids::id_shape(request.token@),
            request.requester == requester,
            request.operation == operation,
            request.risk == risk,
            request.payload == payload,
            request.trace_id == attribution.trace_id,
            request.correlation_id == attribution.correlation_id,
            request.context == attribution.context,
            final(self)@ == old(self)@.insert(request.approval_id@, request),
    {
        let request = ApprovalRequest {
            approval_id: ids::fresh_prefixed_id("approval:"),
            token: ids::fresh_id(),
            requester,
            operation,
            risk,
            trace_id: attribution.trace_id,
            correlation_id: attribution.correlation_id,
            payload,
            context: attribution.context,
        };
        self.pending.insert(
            request.approval_id.clone(),
            PendingApproval { request: request.clone() },
        );
        assert(self@ =~= old(self)@.insert(request.approval_id@, request));
        request
    }

    /// Takes in the user's decision. A response that is refused leaves its question waiting.
    pub fn resolve(&mut self, response: ApprovalResponse) -> (decided: HostResult<ApprovalDecision>)
        ensures
            response_judged(old(self)@, response, decided),
            decided matches Ok(decision) ==> decision == response.decision,
            final(self)@ == if decided is Ok {
                old(self)@.remove(response.approval_id@)
            } else {
                old(self)@
            },
    {
        let id = response.approval_id.as_str();
        let request = match self.pending.get(id) {
            Some(entry) => &entry.request,
            None => {
                return Err(
                    HostError::Approval(text::join2("approval request not pending: ", id)),
                );
            },
        };
        assert(old(self)@[id@] == *request);
        if !text::text_eq(request.token.as_str(), response.token.as_str()) {
            return Err(HostError::Approval(text::join2("approval token mismatch: ", id)));
        }
        let trace_matches = match &response.trace_id {
            Some(trace_id) => text::text_eq(trace_id.as_str(), request.trace_id.as_str()),
            None => true,
        };
        let correlation_matches = match &response.correlation_id {
            Some(correlation_id) => text::text_eq(
                correlation_id.as_str(),
                request.correlation_id.as_str(),
            ),
            None => true,
        };
        let context_matches = match &response.context {
            Some(context) => context.same_as(&request.context),
            None => true,
        };
        if !(trace_matches && correlation_matches && context_matches) {
            return Err(HostError::Approval(text::join2("approval attribution mismatch: ", id)));
        }
        self.pending.remove(id);
        assert(self@ =~= old(self)@.remove(id@));
        Ok(response.decision)
    }

    /// The questions that wait for a decision, in the order of their identifiers.
    pub fn pending(&self) -> (requests: Vec<ApprovalRequest>)
        ensures
            requests@ == ordered_map::in_order(self@.dom()).map_values(|id: Seq<char>| self@[id]),
    {
        let n: usize = self.pending.len();
        let ghost keys = self.pending.keys();
        assert(self@.dom() =~= self.pending@.dom());
        let mut requests: Vec<ApprovalRequest> = Vec::new();
        let mut i: usize = 0;
        while i < n
            invariant
                i <= n,
                n == keys.len(),
                keys == self.pending.keys(),
                requests.len() == i,
                forall|j: int| 0 <= j < i ==> #[trigger] requests@[j] == self@[keys[j]],
            decreases n - i,
        {
            requests.push(self.pending.value_at(i).request.clone());
            i = i + 1;
        }
        requests
    }
}

fn fallback_attribution(context: FrontendContext) -> (attribution: ApprovalAttribution)
    ensures
        attribution.context == context,
        exists|id: Seq<char>| #[trigger]
            ids::id_shape(id) && attribution.trace_id@ == "approval-trace:"@ + id
                && attribution.correlation_id@ == "approval-correlation:"@ + id,
{
    let id = ids::fresh_id();
    assert(ids::id_shape(id@));
    ApprovalAttribution {
        trace_id: text::join2("approval-trace:", id.as_str()),
        correlation_id: text::join2("approval-correlation:", id.as_str()),
        context,
    }
}

/// A decision that is taken is the user's own: what comes back is what the response holds, so that
/// nothing that was denied is allowed. It is taken only for a question that waits, with the
/// question's token, and from the place the question was put to as far as the response says.
pub proof fn law_decision_is_the_users(
    pending: Map<Seq<char>, ApprovalRequest>,
    response: ApprovalResponse,
    decision: ApprovalDecision,
)
    requires
        response_judged(pending, response, Ok(decision)),
    ensures
        decision == response.decision,
        decision == ApprovalDecision::Allow <==> response.decision == ApprovalDecision::Allow,
        pending.contains_key(response.approval_id@),
        pending[response.approval_id@].token@ == response.token@,
        response.trace_id matches Some(t) ==> t@ == pending[response.approval_id@].trace_id@,
        response.correlation_id matches Some(c) ==> c@
            == pending[response.approval_id@].correlation_id@,
        response.context matches Some(context) ==> context@
            == pending[response.approval_id@].context@,
{
}

/// A response with the question's identifier and token is taken, whatever is decided, where it says
/// nothing else or says what the question says.
pub proof fn law_fitting_response_is_taken(
    pending: Map<Seq<char>, ApprovalRequest>,
    response: ApprovalResponse,
    decided: HostResult<ApprovalDecision>,
)
    requires
        pending.contains_key(response.approval_id@),
        response.token@ == pending[response.approval_id@].token@,
        response.trace_id matches Some(t) ==> t@ == pending[response.approval_id@].trace_id@,
        response.correlation_id matches Some(c) ==> c@
            == pending[response.approval_id@].correlation_id@,
        response.context matches Some(context) ==> context@
            == pending[response.approval_id@].context@,
        response_judged(pending, response, decided),
    ensures
        decided == Ok::<ApprovalDecision, HostError>(response.decision),
{
}

/// Two responses that differ in their decision alone are both taken or both refused, and where they
/// are taken each brings its own decision.
pub proof fn law_decision_does_not_decide_whether_it_is_taken(
    pending: Map<Seq<char>, ApprovalRequest>,
    one: ApprovalResponse,
    other: ApprovalResponse,
    decided: HostResult<ApprovalDecision>,
    again: HostResult<ApprovalDecision>,
)
    requires
        other == (ApprovalResponse { decision: other.decision, ..one }),
        response_judged(pending, one, decided),
        response_judged(pending, other, again),
    ensures
        decided is Ok <==> again is Ok,
        decided is Ok ==> decided->Ok_0 == one.decision && again->Ok_0 == other.decision,
{
}

} // verus!
