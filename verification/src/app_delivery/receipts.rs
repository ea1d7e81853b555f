//! The receipts an app has given, so that a request that comes again gets the same answer.
use crate::app_delivery::types::DeliveryReceipt;
use crate::ordered_map::OrderedMap;
use vstd::prelude::*;

verus! {

/// The first receipt of each request.
#[derive(Debug)]
pub struct ReceiptStore {
    receipts: OrderedMap<DeliveryReceipt>,
}

impl View for ReceiptStore {
    type V = Map<Seq<char>, DeliveryReceipt>;

    closed spec fn view(&self) -> Map<Seq<char>, DeliveryReceipt> {
        self.receipts@
    }
}

/// `answer` is what a request is told where `receipt` would be its first answer: the first answer
/// it ever got, marked as a duplicate, where there is one.
pub open spec fn answered(
    receipts: Map<Seq<char>, DeliveryReceipt>,
    request: Seq<char>,
    receipt: DeliveryReceipt,
    answer: DeliveryReceipt,
) -> bool {
    if receipts.contains_key(request) {
        answer matches DeliveryReceipt::Duplicate { request_id, previous } && request_id@ == request
            && *previous == receipts[request]
    } else {
        answer == receipt
    }
}

/// The receipts once a request was answered: a first answer stays the first.
pub open spec fn receipts_after(
    receipts: Map<Seq<char>, DeliveryReceipt>,
    request: Seq<char>,
    receipt: DeliveryReceipt,
) -> Map<Seq<char>, DeliveryReceipt> {
    if receipts.contains_key(request) {
        receipts
    } else {
        receipts.insert(request, receipt)
    }
}

/// A request that comes again is told its first receipt, whatever it would be told now, and
/// changes nothing.
pub proof fn law_replay_returns_the_first_receipt(
    receipts: Map<Seq<char>, DeliveryReceipt>,
    request: Seq<char>,
    first: DeliveryReceipt,
    later: DeliveryReceipt,
    answer: DeliveryReceipt,
)
    requires
        !receipts.contains_key(request),
        answered(receipts_after(receipts, request, first), request, later, answer),
    ensures
        answer is Duplicate,
        *answer->previous == first,
        receipts_after(receipts_after(receipts, request, first), request, later) == receipts_after(
            receipts,
            request,
            first,
        ),
{
}

impl ReceiptStore {
    pub fn new() -> (store: Self)
        ensures
            store@ == Map::<Seq<char>, DeliveryReceipt>::empty(),
    {
        ReceiptStore { receipts: OrderedMap::new() }
    }

    /// The first receipt of a request.
    pub fn get(&self, request_id: &str) -> (receipt: Option<&DeliveryReceipt>)
        ensures
            match receipt {
                Some(r) => self@.contains_key(request_id@) && *r == self@[request_id@],
                None => !self@.contains_key(request_id@),
            },
    {
        self.receipts.get(request_id)
    }

    /// Answers a request with `receipt`, or with its first receipt where it has one.
    pub fn accept_or_duplicate(&mut self, request_id: String, receipt: DeliveryReceipt) -> (answer:
        DeliveryReceipt)
        ensures
            answered(old(self)@, request_id@, receipt, answer),
            final(self)@ == receipts_after(old(self)@, request_id@, receipt),
            old(self)@.contains_key(request_id@) ==> final(self)@ == old(self)@ && answer
                == (DeliveryReceipt::Duplicate {
                request_id,
                previous: Box::new(old(self)@[request_id@]),
            }),
            !old(self)@.contains_key(request_id@) ==> final(self)@ == old(self)@.insert(
                request_id@,
                receipt,
            ) && answer == receipt,
    {
        if let Some(previous) = self.receipts.get(request_id.as_str()) {
            let previous = previous.clone();
            return DeliveryReceipt::Duplicate { request_id, previous: Box::new(previous) };
        }
        let answer = receipt.clone();
        self.receipts.insert(request_id, receipt);
        answer
    }
}

/// A first receipt is told as it is and kept; the receipts of other requests stay.
pub proof fn law_first_receipt_is_kept(
    receipts: Map<Seq<char>, DeliveryReceipt>,
    request: Seq<char>,
    receipt: DeliveryReceipt,
    answer: DeliveryReceipt,
    other: Seq<char>,
)
    requires
        !receipts.contains_key(request),
        other != request,
        answered(receipts, request, receipt, answer),
    ensures
        answer == receipt,
        receipts_after(receipts, request, receipt).contains_key(request),
        receipts_after(receipts, request, receipt)[request] == receipt,
        receipts_after(receipts, request, receipt).contains_key(other) == receipts.contains_key(
            other,
        ),
        receipts.contains_key(other) ==> receipts_after(receipts, request, receipt)[other]
            == receipts[other],
{
}

/// The answer to a request that was answered before names the request and holds its first receipt.
pub proof fn law_duplicate_names_its_request(
    receipts: Map<Seq<char>, DeliveryReceipt>,
    request: Seq<char>,
    receipt: DeliveryReceipt,
    answer: DeliveryReceipt,
)
    requires
        receipts.contains_key(request),
        answered(receipts, request, receipt, answer),
    ensures
        answer is Duplicate,
        answer->Duplicate_request_id@ == request,
        *answer->previous == receipts[request],
        receipts_after(receipts, request, receipt) == receipts,
{
}

} // verus!
