//! How far each delivery has come, with a bound on those that are over.
use crate::app_delivery::types::DeliveryPhase;
use crate::app_delivery::types;
use crate::ordered_map::OrderedMap;
use crate::text;
use std::collections::VecDeque;
use vstd::prelude::*;
use vstd::string::*;

verus! {

broadcast use vstd::string::group_string_axioms;

/// Max terminal delivery phases retained for desktop hosts.
#[derive(Clone, Copy, Debug, PartialEq, Eq, Structural)]
pub struct OperationHistoryPolicy {
    pub max_terminal_entries: usize,
}

impl OperationHistoryPolicy {
    pub fn desktop_default() -> (policy: Self)
        ensures
            policy.max_terminal_entries == 10_000,
    {
        OperationHistoryPolicy { max_terminal_entries: 10_000 }
    }
}

impl Default for OperationHistoryPolicy {
    fn default() -> (policy: Self)
        ensures
            policy.max_terminal_entries == 10_000,
    {
        OperationHistoryPolicy::desktop_default()
    }
}

/// How much the history holds.
#[derive(Clone, Copy, Debug, PartialEq, Eq, Structural)]
pub struct OperationHistoryStats {
    pub entries: usize,
    pub terminal_entries: usize,
    pub evictions: u64,
}

/// How far each delivery has come.
#[derive(Debug)]
pub struct OperationHistory {
    phases: OrderedMap<DeliveryPhase>,
    terminal_order: VecDeque<String>,
    policy: OperationHistoryPolicy,
    evictions: u64,
}

/// The phase of each delivery, the deliveries that came to an end, oldest first, and how many
/// were forgotten.
#[verifier::ext_equal]
pub struct HistoryView {
    pub phases: Map<Seq<char>, DeliveryPhase>,
    pub ended: Seq<Seq<char>>,
    pub evictions: u64,
}

/// A delivery is over.
pub open spec fn over(v: HistoryView, id: Seq<char>) -> bool {
    v.phases.contains_key(id) && types::terminal(v.phases[id])
}

/// The row of ended deliveries holds those that are over, each of them once, and keeps its bound.
pub open spec fn within(v: HistoryView, max: nat) -> bool {
    &&& v.ended.len() <= max
    &&& v.phases.dom().finite()
    &&& v.ended.no_duplicates()
    &&& forall|id: Seq<char>| #[trigger] v.ended.contains(id) <==> over(v, id)
}

/// The history without the delivery that ended first.
pub open spec fn oldest_evicted(v: HistoryView) -> HistoryView {
    HistoryView {
        phases: v.phases.remove(v.ended[0]),
        ended: v.ended.drop_first(),
        evictions: if v.evictions < u64::MAX {
            (v.evictions + 1) as u64
        } else {
            v.evictions
        },
    }
}

/// The history once a delivery has come to a phase, before any other is forgotten. One that ends
/// goes to the end of the row, one that was over already keeps its place, and one that is taken
/// up again leaves the row.
pub open spec fn phase_noted(v: HistoryView, id: Seq<char>, phase: DeliveryPhase) -> HistoryView {
    HistoryView {
        phases: v.phases.insert(id, phase),
        ended: if !types::terminal(phase) {
            v.ended.remove_value(id)
        } else if over(v, id) {
            v.ended
        } else {
            v.ended.push(id)
        },
        ..v
    }
}

/// The history once a delivery has come to a phase. Where more deliveries are over than are
/// remembered, the one that ended first is forgotten.
pub open spec fn phase_recorded(
    v: HistoryView,
    max: nat,
    id: Seq<char>,
    phase: DeliveryPhase,
) -> HistoryView {
    let w = phase_noted(v, id, phase);
    if w.ended.len() > max {
        oldest_evicted(w)
    } else {
        w
    }
}

proof fn lemma_struck(row: Seq<Seq<char>>, id: Seq<char>)
    requires
        row.no_duplicates(),
    ensures
        row.remove_value(id).no_duplicates(),
        row.remove_value(id).len() <= row.len(),
        forall|x: Seq<char>| #[trigger]
            row.remove_value(id).contains(x) <==> row.contains(x) && x != id,
{
    row.index_of_first_ensures(id);
    let struck = row.remove_value(id);
    assert forall|x: Seq<char>| #[trigger] struck.contains(x) <==> row.contains(x) && x != id by {
        if let Some(at) = row.index_of_first(id) {
            if struck.contains(x) {
                let i = choose|i: int| 0 <= i < struck.len() && struck[i] == x;
                assert(row[if i < at {
                    i
                } else {
                    i + 1
                }] == x);
            }
            if row.contains(x) && x != id {
                let i = choose|i: int| 0 <= i < row.len() && row[i] == x;
                assert(struck[if i < at {
                    i
                } else {
                    i - 1
                }] == x);
            }
        }
    }
}

proof fn lemma_noting_keeps_the_row(v: HistoryView, max: nat, id: Seq<char>, phase: DeliveryPhase)
    requires
        within(v, max),
    ensures
        within(phase_noted(v, id, phase), max + 1),
        phase_noted(v, id, phase).ended.len() > max ==> types::terminal(phase) && !over(v, id)
            && phase_noted(v, id, phase).ended.len() == max + 1,
{
    let w = phase_noted(v, id, phase);
    assert(v.ended.contains(id) <==> over(v, id));
    lemma_struck(v.ended, id);
    assert forall|x: Seq<char>| #[trigger] w.ended.contains(x) <==> over(w, x) by {
        assert(v.ended.contains(x) <==> over(v, x));
        if types::terminal(phase) && !over(v, id) {
            assert(w.ended.last() == id);
            if v.ended.contains(x) {
                let i = choose|i: int| 0 <= i < v.ended.len() && v.ended[i] == x;
                assert(w.ended[i] == x);
            }
        }
    }
}

/// However much is recorded, the history keeps its bound, and its row holds the deliveries that
/// are over and no others.
pub proof fn law_recording_keeps_the_bound(
    v: HistoryView,
    max: nat,
    id: Seq<char>,
    phase: DeliveryPhase,
)
    requires
        within(v, max),
    ensures
        within(phase_recorded(v, max, id, phase), max),
{
    lemma_noting_keeps_the_row(v, max, id, phase);
    let w = phase_noted(v, id, phase);
    if w.ended.len() > max {
        let r = oldest_evicted(w);
        assert(w.ended.contains(w.ended[0]));
        assert forall|x: Seq<char>| #[trigger] r.ended.contains(x) <==> over(r, x) by {
            assert(w.ended.contains(x) <==> over(w, x));
            if r.ended.contains(x) {
                let i = choose|i: int| 0 <= i < r.ended.len() && r.ended[i] == x;
                assert(w.ended[i + 1] == x);
            }
            if over(r, x) {
                let i = choose|i: int| 0 <= i < w.ended.len() && w.ended[i] == x;
                assert(r.ended[i - 1] == x);
            }
        }
    }
}

/// A delivery in flight is never forgotten: recording another one leaves its phase alone.
pub proof fn law_deliveries_in_flight_are_kept(
    v: HistoryView,
    max: nat,
    id: Seq<char>,
    phase: DeliveryPhase,
    other: Seq<char>,
)
    requires
        within(v, max),
        other != id,
        v.phases.contains_key(other),
        !types::terminal(v.phases[other]),
    ensures
        phase_recorded(v, max, id, phase).phases.contains_key(other),
        phase_recorded(v, max, id, phase).phases[other] == v.phases[other],
{
    lemma_noting_keeps_the_row(v, max, id, phase);
    let w = phase_noted(v, id, phase);
    if w.ended.len() > max {
        assert(w.ended.contains(w.ended[0]));
    }
}

/// A delivery that is over is forgotten only where the budget is exceeded: recording another one
/// leaves its phase alone while one more would fit, where the other one was over already or is
/// not over, and in any case where some delivery ended before it. While nothing has to make room,
/// the count of forgotten deliveries stays.
pub proof fn law_ended_deliveries_are_kept_within_the_budget(
    v: HistoryView,
    max: nat,
    id: Seq<char>,
    phase: DeliveryPhase,
    other: Seq<char>,
)
    requires
        within(v, max),
        other != id,
        over(v, other),
    ensures
        v.ended.len() < max || over(v, id) || !types::terminal(phase) || v.ended[0] != other
            ==> phase_recorded(v, max, id, phase).phases.contains_key(other) && phase_recorded(
            v,
            max,
            id,
            phase,
        ).phases[other] == v.phases[other],
        v.ended.len() < max || over(v, id) || !types::terminal(phase) ==> phase_recorded(
            v,
            max,
            id,
            phase,
        ).evictions == v.evictions,
{
    lemma_noting_keeps_the_row(v, max, id, phase);
    assert(v.ended.contains(other));
}

/// What was recorded is found again, whatever was recorded before, as long as the history
/// remembers any delivery that is over.
pub proof fn law_recorded_phase_is_found(
    v: HistoryView,
    max: nat,
    id: Seq<char>,
    phase: DeliveryPhase,
)
    requires
        within(v, max),
        max > 0,
    ensures
        phase_recorded(v, max, id, phase).phases.contains_key(id),
        phase_recorded(v, max, id, phase).phases[id] == phase,
{
    lemma_noting_keeps_the_row(v, max, id, phase);
    let w = phase_noted(v, id, phase);
    if w.ended.len() > max {
        assert(v.ended[0] == w.ended[0]);
        assert(v.ended.contains(v.ended[0]));
    }
}

impl View for OperationHistory {
    type V = HistoryView;

    closed spec fn view(&self) -> HistoryView {
        HistoryView {
            phases: self.phases@,
            ended: text::texts(self.terminal_order@),
            evictions: self.evictions,
        }
    }
}

/// Strikes a delivery from a row.
fn strike(row: &mut VecDeque<String>, id: &str)
    ensures
        text::texts(final(row)@) == text::texts(old(row)@).remove_value(id@),
{
    let ghost before = text::texts(row@);
    let mut at: usize = 0;
    while at < row.len() && !text::text_eq(row[at].as_str(), id)
        invariant
            at <= row.len(),
            row@ == old(row)@,
            before == text::texts(old(row)@),
            forall|j: int| 0 <= j < at ==> (#[trigger] before[j]) != id@,
        decreases row.len() - at,
    {
        at = at + 1;
    }
    proof {
        before.index_of_first_ensures(id@);
        assert(before.len() == row.len());
        if at < row.len() {
            assert(before[at as int] == id@);
        }
    }
    if at < row.len() {
        row.remove(at);
        assert(text::texts(row@) =~= before.remove(at as int));
    }
}

impl OperationHistory {
    #[verifier::type_invariant]
    spec fn bounded(self) -> bool {
        within(self@, self.policy.max_terminal_entries as nat)
    }

    /// How many deliveries that are over the history remembers.
    pub closed spec fn max_terminal(self) -> nat {
        self.policy.max_terminal_entries as nat
    }

    pub fn new(policy: OperationHistoryPolicy) -> (history: Self)
        ensures
            history@ == (HistoryView { phases: Map::empty(), ended: Seq::empty(), evictions: 0 }),
            history.max_terminal() == policy.max_terminal_entries,
    {
        let phases: OrderedMap<DeliveryPhase> = OrderedMap::new();
        let terminal_order: VecDeque<String> = VecDeque::new();
        proof {
            assert(text::texts(terminal_order@) =~= Seq::empty());
        }
        OperationHistory { phases, terminal_order, policy, evictions: 0 }
    }

    /// Notes that a delivery has come to a phase.
    pub fn record(&mut self, request_id: String, phase: DeliveryPhase)
        ensures
            final(self)@ == phase_recorded(
                old(self)@,
                old(self).max_terminal(),
                request_id@,
                phase,
            ),
            final(self).max_terminal() == old(self).max_terminal(),
    {
        let ghost before = self@;
        let ghost id = request_id@;
        let ghost max = self.max_terminal();
        proof {
            use_type_invariant(&*self);
            law_recording_keeps_the_bound(before, max, id, phase);
        }
        let mut history = OperationHistory::new(self.policy);
        std::mem::swap(&mut history, self);
        let mut phases = history.phases;
        let mut terminal_order = history.terminal_order;
        let mut evictions: u64 = history.evictions;
        let previously_terminal = match phases.get(request_id.as_str()) {
            Some(previous) => previous.is_terminal(),
            None => false,
        };
        let ghost w = phase_noted(before, id, phase);
        proof {
            lemma_noting_keeps_the_row(before, max, id, phase);
            assert(before.ended.contains(id) <==> over(before, id));
        }
        phases.insert(request_id.clone(), phase);
        if !phase.is_terminal() {
            if previously_terminal {
                strike(&mut terminal_order, request_id.as_str());
            } else {
                proof {
                    before.ended.index_of_first_ensures(id);
                }
            }
        } else if !previously_terminal {
            terminal_order.push_back(request_id);
            assert(text::texts(terminal_order@) =~= w.ended);
        }
        assert(text::texts(terminal_order@) == w.ended);
        assert(text::texts(terminal_order@).len() == terminal_order@.len());
        if terminal_order.len() > history.policy.max_terminal_entries {
            if let Some(oldest) = terminal_order.pop_front() {
                assert(oldest@ == w.ended[0]);
                assert(text::texts(terminal_order@) =~= w.ended.drop_first());
                phases.remove(oldest.as_str());
                evictions = evictions.saturating_add(1);
            }
        }
        let ghost after = HistoryView {
            phases: phases@,
            ended: text::texts(terminal_order@),
            evictions,
        };
        assert(after =~= phase_recorded(before, max, id, phase));
        let recorded = OperationHistory {
            phases,
            terminal_order,
            policy: history.policy,
            evictions,
        };
        *self = recorded;
    }

    /// How far a delivery has come.
    pub fn phase_for(&self, request_id: &str) -> (phase: Option<DeliveryPhase>)
        ensures
            match phase {
                Some(p) => self@.phases.contains_key(request_id@) && p == self@.phases[request_id@],
                None => !self@.phases.contains_key(request_id@),
            },
    {
        match self.phases.get(request_id) {
            Some(phase) => Some(*phase),
            None => None,
        }
    }

    /// How much the history holds.
    pub fn stats(&self) -> (stats: OperationHistoryStats)
        ensures
            stats.entries == self@.phases.len(),
            stats.terminal_entries == self@.ended.len(),
            within(self@, self.max_terminal()),
            stats.evictions == self@.evictions,
    {
        proof {
            use_type_invariant(self);
        }
        assert(text::texts(self.terminal_order@).len() == self.terminal_order@.len());
        OperationHistoryStats {
            entries: self.phases.len(),
            terminal_entries: self.terminal_order.len(),
            evictions: self.evictions,
        }
    }
}

/// A delivery that ends stands last in the row, and the others stand before it as they did; where
/// the row was full, the one that ended first leaves it and is forgotten, which is counted.
pub proof fn law_full_history_forgets_the_oldest(
    v: HistoryView,
    max: nat,
    id: Seq<char>,
    phase: DeliveryPhase,
)
    requires
        within(v, max),
        max > 0,
        types::terminal(phase),
        !over(v, id),
    ensures
        ({
            let w = phase_recorded(v, max, id, phase);
            &&& v.ended.len() < max ==> {
                &&& w.ended == v.ended.push(id)
                &&& w.evictions == v.evictions
                &&& w.phases.dom() == v.phases.dom().insert(id)
            }
            &&& v.ended.len() == max ==> {
                &&& w.ended == v.ended.drop_first().push(id)
                &&& w.phases.dom() == v.phases.dom().insert(id).remove(v.ended[0])
                &&& v.evictions < u64::MAX ==> w.evictions == v.evictions + 1
                &&& v.evictions == u64::MAX ==> w.evictions == u64::MAX
            }
        }),
{
    let w = phase_recorded(v, max, id, phase);
    if v.ended.len() < max {
        assert(w.phases.dom() =~= v.phases.dom().insert(id));
    } else {
        assert(v.ended.push(id).drop_first() =~= v.ended.drop_first().push(id));
        assert(w.phases.dom() =~= v.phases.dom().insert(id).remove(v.ended[0]));
    }
}

/// A delivery that is taken up again leaves the row of those that are over, and one that is over
/// already keeps its place in it; nothing is forgotten for either.
pub proof fn law_known_delivery_makes_no_room(
    v: HistoryView,
    max: nat,
    id: Seq<char>,
    phase: DeliveryPhase,
    other: Seq<char>,
)
    requires
        within(v, max),
        !types::terminal(phase) || over(v, id),
    ensures
        ({
            let w = phase_recorded(v, max, id, phase);
            &&& w.phases == v.phases.insert(id, phase)
            &&& w.evictions == v.evictions
            &&& types::terminal(phase) ==> w.ended == v.ended
            &&& !types::terminal(phase) ==> !w.ended.contains(id)
            &&& other != id ==> w.ended.contains(other) == v.ended.contains(other)
        }),
{
    lemma_struck(v.ended, id);
}

} // verus!
