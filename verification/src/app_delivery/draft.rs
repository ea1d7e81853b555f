//! Drafts of deliveries that failed, kept so that they can be taken up again.
use crate::app_delivery::types::{
    AppId, CapabilityDescriptor, CapabilityRequestEnvelope,
};
use crate::health::NANOS_PER_MILLI;
use crate::ordered_map::OrderedMap;
use crate::ordered_map;
use crate::text;
use vstd::prelude::*;
use vstd::string::*;

verus! {

broadcast use vstd::string::group_string_axioms;

/// A request that could not be delivered.
#[derive(Debug, PartialEq, Eq)]
pub struct DeliveryDraft {
    pub request_id: String,
    pub source_app: String,
    pub target_app: String,
    pub capability: CapabilityDescriptor,
    pub payload: serde_json::Value,
    pub saved_at_unix_ms: u64,
    pub reason: String,
    /// Draft is recoverable but must never be presented as delivered.
    pub delivered: bool,
}

impl Clone for DeliveryDraft {
    fn clone(&self) -> (copy: Self)
        ensures
            copy == *self,
    {
        DeliveryDraft {
            request_id: self.request_id.clone(),
            source_app: self.source_app.clone(),
            target_app: self.target_app.clone(),
            capability: self.capability.clone(),
            payload: self.payload.clone(),
            saved_at_unix_ms: self.saved_at_unix_ms,
            reason: self.reason.clone(),
            delivered: self.delivered,
        }
    }
}

impl DeliveryDraft {
    /// The draft of a request that failed for a reason at a time. It is not delivered.
    pub open spec fn of_envelope(
        envelope: CapabilityRequestEnvelope,
        reason: String,
        now_ms: u64,
    ) -> DeliveryDraft {
        DeliveryDraft {
            request_id: envelope.request_id,
            source_app: envelope.source,
            target_app: envelope.target,
            capability: envelope.capability,
            payload: envelope.payload,
            saved_at_unix_ms: now_ms,
            reason,
            delivered: false,
        }
    }

    pub fn from_envelope(envelope: &CapabilityRequestEnvelope, reason: String, now_ms: u64) -> (draft:
        Self)
        ensures
            draft == DeliveryDraft::of_envelope(*envelope, reason, now_ms),
            draft.request_id == envelope.request_id,
            draft.source_app == envelope.source,
            draft.target_app == envelope.target,
            draft.capability == envelope.capability,
            draft.payload == envelope.payload,
            draft.saved_at_unix_ms == now_ms,
            draft.reason == reason,
            !draft.delivered,
    {
        DeliveryDraft {
            request_id: envelope.request_id.clone(),
            source_app: envelope.source.clone(),
            target_app: envelope.target.clone(),
            capability: envelope.capability.clone(),
            payload: envelope.payload.clone(),
            saved_at_unix_ms: now_ms,
            reason,
            delivered: false,
        }
    }

    /// The name of the file that holds the draft.
    pub fn file_name(&self) -> (name: String)
        ensures
            name@ == self.request_id@ + ".json"@,
    {
        text::join2(self.request_id.as_str(), ".json")
    }
}

/// The drafts by their requests, in memory or in a directory as well.
#[derive(Debug)]
pub struct DeliveryDraftStore {
    drafts: OrderedMap<DeliveryDraft>,
    persistent: bool,
}

impl View for DeliveryDraftStore {
    type V = Map<Seq<char>, DeliveryDraft>;

    closed spec fn view(&self) -> Map<Seq<char>, DeliveryDraft> {
        self.drafts@
    }
}

/// The drafts in a row by their requests, a later one in the place of an earlier one.
pub open spec fn loaded(row: Seq<DeliveryDraft>) -> Map<Seq<char>, DeliveryDraft>
    decreases row.len(),
{
    if row.len() == 0 {
        Map::empty()
    } else {
        loaded(row.drop_last()).insert(row.last().request_id@, row.last())
    }
}

/// A draft that waits for `target`.
pub open spec fn waits_for(drafts: Map<Seq<char>, DeliveryDraft>, target: Seq<char>) -> spec_fn(
    Seq<char>,
) -> bool {
    |request: Seq<char>|
        drafts[request].target_app@ == target && !drafts[request].delivered
}

/// The drafts that wait for `target`, in the order of their requests.
pub open spec fn waiting_for(drafts: Map<Seq<char>, DeliveryDraft>, target: Seq<char>) -> Seq<
    DeliveryDraft,
> {
    ordered_map::in_order(drafts.dom()).filter(waits_for(drafts, target)).map_values(
        |request: Seq<char>| drafts[request],
    )
}

impl DeliveryDraftStore {
    /// The drafts are written to a directory as well.
    pub closed spec fn on_disk(self) -> bool {
        self.persistent
    }

    /// A store that lasts as long as the process.
    pub fn memory() -> (store: Self)
        ensures
            store@ == Map::<Seq<char>, DeliveryDraft>::empty(),
            !store.on_disk(),
    {
        DeliveryDraftStore { drafts: OrderedMap::new(), persistent: false }
    }

    /// A store over the drafts that were read from its directory.
    pub fn persistent(read: Vec<DeliveryDraft>) -> (store: Self)
        ensures
            store@ == loaded(read@),
            store.on_disk(),
    {
        let ghost row = read@;
        let mut drafts: OrderedMap<DeliveryDraft> = OrderedMap::new();
        assert(row.take(0) =~= Seq::empty());
        for draft in it: read
            invariant
                it.seq() == row,
                drafts@ == loaded(row.take(it.index())),
        {
            assert(row.take(it.index() + 1).drop_last() =~= row.take(it.index()));
            drafts.insert(draft.request_id.clone(), draft);
        }
        assert(row.take(row.len() as int) =~= row);
        DeliveryDraftStore { drafts, persistent: true }
    }

    /// Whether a draft has to be written to a file before it is kept.
    pub fn wants_file(&self) -> (wanted: bool)
        ensures
            wanted == self.on_disk(),
    {
        self.persistent
    }

    /// Keeps a draft. Where the drafts are written to a directory and the file could not be
    /// written, the draft is not kept.
    pub fn save(&mut self, draft: DeliveryDraft, file_written: bool) -> (kept: bool)
        requires
            !draft.delivered,
        ensures
            kept == (!old(self).on_disk() || file_written),
            final(self)@ == if kept {
                old(self)@.insert(draft.request_id@, draft)
            } else {
                old(self)@
            },
            final(self).on_disk() == old(self).on_disk(),
    {
        if self.persistent && !file_written {
            return false;
        }
        self.drafts.insert(draft.request_id.clone(), draft);
        true
    }

    pub fn get(&self, request_id: &str) -> (draft: Option<DeliveryDraft>)
        ensures
            match draft {
                Some(d) => self@.contains_key(request_id@) && d == self@[request_id@],
                None => !self@.contains_key(request_id@),
            },
    {
        match self.drafts.get(request_id) {
            Some(draft) => Some(draft.clone()),
            None => None,
        }
    }

    /// The drafts that wait for an app.
    pub fn list_for_target(&self, target: &AppId) -> (drafts: Vec<DeliveryDraft>)
        ensures
            drafts@ == waiting_for(self@, target@),
    {
        let n: usize = self.drafts.len();
        let ghost keys = self.drafts.keys();
        let ghost p = waits_for(self@, target@);
        let mut drafts: Vec<DeliveryDraft> = Vec::new();
        let mut i: usize = 0;
        assert(drafts@ =~= keys.take(0).filter(p).map_values(|k: Seq<char>| self@[k])) by {
            reveal(Seq::filter);
        }
        while i < n
            invariant
                i <= n,
                n == keys.len(),
                keys == self.drafts.keys(),
                p == waits_for(self@, target@),
                drafts@ == keys.take(i as int).filter(p).map_values(|k: Seq<char>| self@[k]),
            decreases n - i,
        {
            let draft = self.drafts.value_at(i);
            let ghost key = keys[i as int];
            proof {
                assert(keys.take(i + 1) =~= keys.take(i as int).push(key));
                keys.take(i as int).lemma_filter_push(key, p);
            }
            let ghost before = drafts@;
            if text::text_eq(draft.target_app.as_str(), target.as_str()) && !draft.delivered {
                drafts.push(draft.clone());
            }
            i = i + 1;
            assert(drafts@ =~= keys.take(i as int).filter(p).map_values(|k: Seq<char>| self@[k]));
        }
        assert(keys.take(i as int) =~= keys);
        assert(drafts@ =~= waiting_for(self@, target@));
        drafts
    }
}

/// The milliseconds on a clock that shows `since_epoch` nanoseconds since 1970, as far as they
/// fit 64 bits; none on a clock before 1970.
pub open spec fn unix_ms(since_epoch: Option<u128>) -> u64 {
    match since_epoch {
        Some(nanos) => ((nanos / NANOS_PER_MILLI) % 0x1_0000_0000_0000_0000) as u64,
        None => 0,
    }
}

/// The milliseconds on a clock. `since_epoch` is absent on a clock before 1970.
pub fn now_unix_ms(since_epoch: Option<u128>) -> (ms: u64)
    ensures
        ms == unix_ms(since_epoch),
{
    match since_epoch {
        Some(nanos) => ((nanos / NANOS_PER_MILLI) % 0x1_0000_0000_0000_0000) as u64,
        None => 0,
    }
}

/// Of the drafts that were read, the last one of a request is kept under it, and nothing else is.
pub proof fn law_last_draft_of_a_request_is_kept(row: Seq<DeliveryDraft>, i: int)
    requires
        0 <= i < row.len(),
        forall|j: int| i < j < row.len() ==> (#[trigger] row[j]).request_id@ != row[i].request_id@,
    ensures
        loaded(row).contains_key(row[i].request_id@),
        loaded(row)[row[i].request_id@] == row[i],
    decreases row.len(),
{
    if i < row.len() - 1 {
        let front = row.drop_last();
        assert forall|j: int| i < j < front.len() implies (#[trigger] front[j]).request_id@
            != front[i].request_id@ by {
            assert(row[j] == front[j]);
        }
        law_last_draft_of_a_request_is_kept(front, i);
        assert(row[row.len() - 1].request_id@ != row[i].request_id@);
    }
}

/// Every draft that is kept was read, under its own request.
pub proof fn law_kept_drafts_were_read(row: Seq<DeliveryDraft>, request: Seq<char>)
    requires
        loaded(row).contains_key(request),
    ensures
        loaded(row)[request].request_id@ == request,
        row.contains(loaded(row)[request]),
    decreases row.len(),
{
    if row.last().request_id@ == request {
        assert(row[row.len() - 1] == row.last());
    } else {
        let front = row.drop_last();
        law_kept_drafts_were_read(front, request);
        let i = choose|i: int| 0 <= i < front.len() && front[i] == loaded(front)[request];
        assert(row[i] == front[i]);
    }
}

/// The drafts that are listed for an app are those that wait for it and were not delivered, all of
/// them.
pub proof fn law_drafts_of_the_target_are_listed(
    drafts: Map<Seq<char>, DeliveryDraft>,
    target: Seq<char>,
    draft: DeliveryDraft,
)
    requires
        drafts.dom().finite(),
    ensures
        waiting_for(drafts, target).contains(draft) <==> !draft.delivered && draft.target_app@
            == target && exists|request: Seq<char>| #[trigger]
            drafts.contains_key(request) && drafts[request] == draft,
{
    let keys = ordered_map::in_order(drafts.dom());
    let p = waits_for(drafts, target);
    let kept = keys.filter(p);
    let shown = waiting_for(drafts, target);
    ordered_map::lemma_in_order_of(drafts.dom());
    lemma_kept_keys(keys, p);
    if shown.contains(draft) {
        let i = choose|i: int| 0 <= i < shown.len() && shown[i] == draft;
        assert(kept.contains(kept[i]));
        assert(keys.contains(kept[i]) && p(kept[i]));
        assert(drafts.contains_key(kept[i]));
    }
    if !draft.delivered && draft.target_app@ == target && exists|request: Seq<char>| #[trigger]
        drafts.contains_key(request) && drafts[request] == draft {
        let request = choose|request: Seq<char>| #[trigger]
            drafts.contains_key(request) && drafts[request] == draft;
        assert(keys.contains(request));
        let i = choose|i: int| 0 <= i < keys.len() && keys[i] == request;
        assert(p(keys[i]));
        assert(kept.contains(request));
        let j = choose|j: int| 0 <= j < kept.len() && kept[j] == request;
        assert(shown[j] == draft);
    }
}

/// A clock that shows a time since 1970 that fits is read in whole milliseconds; one before 1970
/// shows none.
pub proof fn law_clock_is_read_in_milliseconds(nanos: u128)
    requires
        nanos < 0x1_0000_0000_0000_0000 * 1_000_000,
    ensures
        unix_ms(Some(nanos)) * 1_000_000 <= nanos,
        nanos < (unix_ms(Some(nanos)) + 1) * 1_000_000,
        unix_ms(None) == 0,
{
}

proof fn lemma_kept_keys(keys: Seq<Seq<char>>, p: spec_fn(Seq<char>) -> bool)
    ensures
        forall|key: Seq<char>| #[trigger]
            keys.filter(p).contains(key) <==> keys.contains(key) && p(key),
    decreases keys.len(),
{
    reveal(Seq::filter);
    if keys.len() > 0 {
        let front = keys.drop_last();
        lemma_kept_keys(front, p);
        assert forall|key: Seq<char>| #[trigger] keys.filter(p).contains(key) <==> keys.contains(
            key,
        ) && p(key) by {
            assert(front.filter(p).contains(key) <==> front.contains(key) && p(key));
            assert(keys.contains(key) <==> front.contains(key) || key == keys.last()) by {
                if keys.contains(key) {
                    let i = choose|i: int| 0 <= i < keys.len() && keys[i] == key;
                    if i < front.len() {
                        assert(front[i] == key);
                    }
                }
                if front.contains(key) {
                    let i = choose|i: int| 0 <= i < front.len() && front[i] == key;
                    assert(keys[i] == key);
                }
                assert(keys[keys.len() - 1] == keys.last());
            }
            let f = front.filter(p);
            let g = f.push(keys.last());
            assert(g.contains(key) <==> f.contains(key) || key == keys.last()) by {
                assert(g[g.len() - 1] == keys.last());
                if f.contains(key) {
                    let i = choose|i: int| 0 <= i < f.len() && f[i] == key;
                    assert(g[i] == key);
                }
                if g.contains(key) {
                    let i = choose|i: int| 0 <= i < g.len() && g[i] == key;
                    if i < f.len() {
                        assert(f[i] == key);
                    }
                }
            }
        }
    }
}

} // verus!
