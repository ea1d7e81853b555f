//! Lists in the order of their identifiers.
use crate::bridge::{PluginSummary, PluginSummaryView, RunnerSummary, RunnerSummaryView};
use crate::text;
use vstd::prelude::*;
use vstd::string::*;

verus! {

broadcast use vstd::string::group_string_axioms;

/// Something that is listed under an identifier.
pub trait Listed: View {
    spec fn id_of(v: Self::V) -> Seq<char>;

    fn id(&self) -> (id: &str)
        ensures
            id@ == Self::id_of(self@),
    ;
}

impl Listed for PluginSummary {
    open spec fn id_of(v: PluginSummaryView) -> Seq<char> {
        v.plugin_id
    }

    fn id(&self) -> (id: &str) {
        self.plugin_id.as_str()
    }
}

impl Listed for RunnerSummary {
    open spec fn id_of(v: RunnerSummaryView) -> Seq<char> {
        v.runner_id
    }

    fn id(&self) -> (id: &str) {
        self.runner_id.as_str()
    }
}

/// The views of a row.
pub open spec fn views<T: View>(row: Seq<T>) -> Seq<T::V> {
    row.map_values(|item: T| item@)
}

/// No item stands before one with a smaller identifier.
pub open spec fn in_id_order<T: Listed>(row: Seq<T::V>) -> bool {
    forall|i: int, j: int|
        0 <= i < j < row.len() ==> !text::text_lt(
            #[trigger] T::id_of(row[j]),
            #[trigger] T::id_of(row[i]),
        )
}

/// What carries an identifier.
pub open spec fn under<T: Listed>(id: Seq<char>) -> spec_fn(T::V) -> bool {
    |v: T::V| T::id_of(v) == id
}

/// `sorted` is `row` in the order of the identifiers, with items of one identifier in the order in
/// which they stood.
pub open spec fn sorted_of<T: Listed>(row: Seq<T::V>, sorted: Seq<T::V>) -> bool {
    &&& in_id_order::<T>(sorted)
    &&& sorted.len() == row.len()
    &&& forall|id: Seq<char>| #[trigger]
        sorted.filter(under::<T>(id)) == row.filter(under::<T>(id))
}

/// Sorting a row leaves out nothing and adds nothing.
pub proof fn lemma_sorted_holds_the_same<T: Listed>(row: Seq<T::V>, sorted: Seq<T::V>, item: T::V)
    requires
        sorted_of::<T>(row, sorted),
    ensures
        row.contains(item) <==> sorted.contains(item),
{
    let p = under::<T>(T::id_of(item));
    assert(sorted.filter(p) == row.filter(p));
    if row.contains(item) {
        let i = choose|i: int| 0 <= i < row.len() && row[i] == item;
        row.lemma_filter_contains(p, i);
        sorted.lemma_filter_contains_rev(p, item);
    }
    if sorted.contains(item) {
        let i = choose|i: int| 0 <= i < sorted.len() && sorted[i] == item;
        sorted.lemma_filter_contains(p, i);
        row.lemma_filter_contains_rev(p, item);
    }
}

proof fn lemma_none_under<T: Listed>(row: Seq<T::V>, id: Seq<char>)
    requires
        forall|i: int| 0 <= i < row.len() ==> T::id_of(#[trigger] row[i]) != id,
    ensures
        row.filter(under::<T>(id)) == Seq::<T::V>::empty(),
    decreases row.len(),
{
    reveal(Seq::filter);
    if row.len() > 0 {
        assert forall|i: int| 0 <= i < row.drop_last().len() implies T::id_of(
            #[trigger] row.drop_last()[i],
        ) != id by {
            assert(row.drop_last()[i] == row[i]);
        }
        lemma_none_under::<T>(row.drop_last(), id);
        assert(T::id_of(row[row.len() - 1]) != id);
    }
}

/// Putting an item behind everything that does not come after it keeps the order, and puts it last
/// among the items of its identifier.
proof fn lemma_insert<T: Listed>(sorted: Seq<T::V>, at: int, v: T::V)
    requires
        in_id_order::<T>(sorted),
        0 <= at <= sorted.len(),
        forall|i: int| 0 <= i < at ==> !text::text_lt(T::id_of(v), T::id_of(#[trigger] sorted[i])),
        at < sorted.len() ==> text::text_lt(T::id_of(v), T::id_of(sorted[at])),
    ensures
        in_id_order::<T>(sorted.insert(at, v)),
        forall|id: Seq<char>| #[trigger]
            sorted.insert(at, v).filter(under::<T>(id)) == if T::id_of(v) == id {
                sorted.filter(under::<T>(id)).push(v)
            } else {
                sorted.filter(under::<T>(id))
            },
{
    let grown = sorted.insert(at, v);
    let before = sorted.take(at);
    let behind = sorted.skip(at);
    assert(sorted =~= before + behind);
    assert(grown =~= before.push(v) + behind);
    assert forall|i: int| at <= i < sorted.len() implies text::text_lt(
        T::id_of(v),
        T::id_of(#[trigger] sorted[i]),
    ) by {
        if i > at {
            assert(!text::text_lt(T::id_of(sorted[i]), T::id_of(sorted[at])));
            text::lemma_text_lt_total(T::id_of(sorted[i]), T::id_of(sorted[at]));
            if T::id_of(sorted[i]) != T::id_of(sorted[at]) {
                text::lemma_text_lt_transitive(
                    T::id_of(v),
                    T::id_of(sorted[at]),
                    T::id_of(sorted[i]),
                );
            }
        }
    }
    assert forall|i: int, j: int| 0 <= i < j < grown.len() implies !text::text_lt(
        #[trigger] T::id_of(grown[j]),
        #[trigger] T::id_of(grown[i]),
    ) by {
        if j == at {
            assert(grown[i] == sorted[i]);
        } else if i == at {
            assert(grown[j] == sorted[j - 1]);
            if text::text_lt(T::id_of(grown[j]), T::id_of(v)) {
                text::lemma_text_lt_transitive(T::id_of(v), T::id_of(grown[j]), T::id_of(v));
                text::lemma_text_lt_irreflexive(T::id_of(v));
            }
        } else {
            let a = if i < at { i } else { i - 1 };
            let b = if j < at { j } else { j - 1 };
            assert(grown[i] == sorted[a] && grown[j] == sorted[b]);
        }
    }
    assert forall|id: Seq<char>| #[trigger]
        grown.filter(under::<T>(id)) == if T::id_of(v) == id {
            sorted.filter(under::<T>(id)).push(v)
        } else {
            sorted.filter(under::<T>(id))
        } by {
        let p = under::<T>(id);
        Seq::filter_distributes_over_add(before, behind, p);
        Seq::filter_distributes_over_add(before.push(v), behind, p);
        before.lemma_filter_push(v, p);
        if T::id_of(v) == id {
            assert forall|i: int| 0 <= i < behind.len() implies T::id_of(#[trigger] behind[i])
                != id by {
                assert(behind[i] == sorted[at + i]);
                text::lemma_text_lt_irreflexive(id);
            }
            lemma_none_under::<T>(behind, id);
            assert(before.filter(p).push(v) + Seq::<T::V>::empty() =~= (before.filter(p)
                + Seq::<T::V>::empty()).push(v));
        }
    }
}

/// Puts a row into the order of its identifiers. Items of one identifier keep their order.
pub fn sort_by_id<T: Listed>(row: Vec<T>) -> (sorted: Vec<T>)
    ensures
        sorted_of::<T>(views(row@), views(sorted@)),
{
    let ghost all = row@;
    let mut sorted: Vec<T> = Vec::new();
    assert(all.take(0) =~= Seq::empty());
    assert(views(sorted@) =~= views(all.take(0)));
    for item in it: row
        invariant
            it.seq() == all,
            sorted.len() == it.index(),
            sorted_of::<T>(views(all.take(it.index())), views(sorted@)),
    {
        let ghost done = it.index();
        let ghost before = views(all.take(done));
        let ghost v = item@;
        let mut at: usize = sorted.len();
        while at > 0 && text::text_less(item.id(), sorted[at - 1].id())
            invariant
                at <= sorted.len(),
                v == item@,
                at < sorted.len() ==> text::text_lt(T::id_of(v), T::id_of(views(sorted@)[at as int])),
            decreases at,
        {
            at = at - 1;
            assert(views(sorted@)[at as int] == sorted@[at as int]@);
        }
        let ghost kept = views(sorted@);
        proof {
            if at > 0 {
                assert(kept[at - 1] == sorted@[at - 1]@);
            }
            assert forall|i: int| 0 <= i < at implies !text::text_lt(
                T::id_of(v),
                T::id_of(#[trigger] kept[i]),
            ) by {
                if i < at - 1 && text::text_lt(T::id_of(v), T::id_of(kept[i])) {
                    assert(!text::text_lt(T::id_of(kept[at - 1]), T::id_of(kept[i])));
                    text::lemma_text_lt_total(T::id_of(kept[at - 1]), T::id_of(kept[i]));
                    if T::id_of(kept[at - 1]) != T::id_of(kept[i]) {
                        text::lemma_text_lt_transitive(
                            T::id_of(v),
                            T::id_of(kept[i]),
                            T::id_of(kept[at - 1]),
                        );
                    }
                }
            }
            lemma_insert::<T>(kept, at as int, v);
        }
        sorted.insert(at, item);
        proof {
            assert(views(sorted@) =~= kept.insert(at as int, v));
            assert(views(all.take(done + 1)) =~= before.push(v));
            assert forall|id: Seq<char>| #[trigger]
                views(sorted@).filter(under::<T>(id)) == views(all.take(done + 1)).filter(
                    under::<T>(id),
                ) by {
                before.lemma_filter_push(v, under::<T>(id));
                assert(kept.filter(under::<T>(id)) == before.filter(under::<T>(id)));
                assert(kept.insert(at as int, v).filter(under::<T>(id)) == views(sorted@).filter(
                    under::<T>(id),
                ));
            }
        }
    }
    assert(all.take(all.len() as int) =~= all);
    sorted
}

/// A sorted list of plugins goes up in the identifiers of the plugins, and holds what the row held.
pub proof fn law_plugins_are_listed_in_order(
    row: Seq<PluginSummaryView>,
    sorted: Seq<PluginSummaryView>,
    i: int,
    j: int,
    item: PluginSummaryView,
)
    requires
        sorted_of::<PluginSummary>(row, sorted),
        0 <= i < j < sorted.len(),
    ensures
        sorted[i].plugin_id == sorted[j].plugin_id || text::text_lt(
            sorted[i].plugin_id,
            sorted[j].plugin_id,
        ),
        sorted.len() == row.len(),
        row.contains(item) <==> sorted.contains(item),
{
    lemma_sorted_holds_the_same::<PluginSummary>(row, sorted, item);
    assert(!text::text_lt(PluginSummary::id_of(sorted[j]), PluginSummary::id_of(sorted[i])));
    text::lemma_text_lt_total(sorted[i].plugin_id, sorted[j].plugin_id);
}

/// A sorted list of runners goes up in the identifiers of the runners, and holds what the row held.
pub proof fn law_runners_are_listed_in_order(
    row: Seq<RunnerSummaryView>,
    sorted: Seq<RunnerSummaryView>,
    i: int,
    j: int,
    item: RunnerSummaryView,
)
    requires
        sorted_of::<RunnerSummary>(row, sorted),
        0 <= i < j < sorted.len(),
    ensures
        sorted[i].runner_id == sorted[j].runner_id || text::text_lt(
            sorted[i].runner_id,
            sorted[j].runner_id,
        ),
        sorted.len() == row.len(),
        row.contains(item) <==> sorted.contains(item),
{
    lemma_sorted_holds_the_same::<RunnerSummary>(row, sorted, item);
    assert(!text::text_lt(RunnerSummary::id_of(sorted[j]), RunnerSummary::id_of(sorted[i])));
    text::lemma_text_lt_total(sorted[i].runner_id, sorted[j].runner_id);
}

} // verus!
