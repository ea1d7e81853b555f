//! A map from text to values that is walked in the order of its keys.
use crate::text;
use vstd::prelude::*;

verus! {

/// One key with its value.
#[derive(Debug, PartialEq, Eq)]
pub struct Entry<V> {
    pub key: String,
    pub value: V,
}

/// A map from text to values. Its entries stand in strictly ascending order of their keys, so
/// no key occurs twice and a walk over the entries meets the keys in order.
#[derive(Debug, PartialEq, Eq)]
pub struct OrderedMap<V> {
    entries: Vec<Entry<V>>,
}

/// The keys of a row of entries.
pub open spec fn entry_keys<V>(entries: Seq<Entry<V>>) -> Seq<Seq<char>> {
    entries.map_values(|e: Entry<V>| e.key@)
}

/// The keys stand in strictly ascending order.
pub open spec fn ascending(keys: Seq<Seq<char>>) -> bool {
    forall|i: int, j: int| 0 <= i < j < keys.len() ==> text::text_lt(#[trigger] keys[i], #[trigger] keys[j])
}

/// The members of a finite set of texts in ascending order.
pub open spec fn in_order(texts: Set<Seq<char>>) -> Seq<Seq<char>> {
    choose|s: Seq<Seq<char>>| #[trigger] ascending(s) && s.to_set() == texts
}

/// A row in ascending order is the only one with its members.
pub proof fn lemma_in_order(s: Seq<Seq<char>>)
    requires
        ascending(s),
    ensures
        in_order(s.to_set()) == s,
{
    let t = in_order(s.to_set());
    assert(ascending(s) && s.to_set() == s.to_set());
    lemma_ascending_unique(s, t);
}

/// Two rows in ascending order with the same members are the same row.
pub proof fn lemma_ascending_unique(s: Seq<Seq<char>>, t: Seq<Seq<char>>)
    requires
        ascending(s),
        ascending(t),
        s.to_set() == t.to_set(),
    ensures
        s == t,
    decreases s.len(),
{
    if s.len() == 0 {
        if t.len() > 0 {
            assert(t.to_set().contains(t[0]));
            assert(s.to_set().contains(t[0]));
        }
        assert(s =~= t);
    } else {
        assert(s.to_set().contains(s.last()));
        assert(t.to_set().contains(s.last()));
        let j = choose|j: int| 0 <= j < t.len() && t[j] == s.last();
        if j < t.len() - 1 {
            assert(t.to_set().contains(t.last()));
            assert(s.to_set().contains(t.last()));
            let i = choose|i: int| 0 <= i < s.len() && s[i] == t.last();
            assert(text::text_lt(t[j], t.last()));
            if i < s.len() - 1 {
                assert(text::text_lt(s[i], s[s.len() - 1]));
                text::lemma_text_lt_transitive(s.last(), t.last(), s.last());
            }
            text::lemma_text_lt_irreflexive(s.last());
        }
        let s1 = s.drop_last();
        let t1 = t.drop_last();
        assert(s1.to_set() =~= t1.to_set()) by {
            assert forall|x: Seq<char>| s1.to_set().contains(x) == t1.to_set().contains(x) by {
                text::lemma_text_lt_irreflexive(s.last());
                if s1.to_set().contains(x) {
                    let i = choose|i: int| 0 <= i < s1.len() && s1[i] == x;
                    assert(s[i] == x);
                    assert(text::text_lt(s[i], s[s.len() - 1]));
                    assert(s.to_set().contains(x));
                    let k = choose|k: int| 0 <= k < t.len() && t[k] == x;
                    assert(t1[k] == x);
                }
                if t1.to_set().contains(x) {
                    let i = choose|i: int| 0 <= i < t1.len() && t1[i] == x;
                    assert(t[i] == x);
                    assert(text::text_lt(t[i], t[t.len() - 1]));
                    assert(t.to_set().contains(x));
                    let k = choose|k: int| 0 <= k < s.len() && s[k] == x;
                    assert(s1[k] == x);
                }
            }
        }
        lemma_ascending_unique(s1, t1);
        assert(s =~= s1.push(s.last()));
        assert(t =~= t1.push(t.last()));
    }
}

/// Where a new member goes in a row in ascending order.
proof fn lemma_place(s: Seq<Seq<char>>, x: Seq<char>) -> (at: int)
    requires
        ascending(s),
        !s.contains(x),
    ensures
        0 <= at <= s.len(),
        forall|i: int| 0 <= i < at ==> text::text_lt(#[trigger] s[i], x),
        forall|i: int| at <= i < s.len() ==> text::text_lt(x, #[trigger] s[i]),
    decreases s.len(),
{
    if s.len() == 0 {
        0
    } else {
        let front = s.drop_last();
        assert(forall|i: int| 0 <= i < front.len() ==> front[i] == s[i]);
        if front.contains(x) {
            let i = choose|i: int| 0 <= i < front.len() && front[i] == x;
            assert(s[i] == x);
        }
        text::lemma_text_lt_total(s.last(), x);
        assert(s.contains(s.last()));
        if text::text_lt(s.last(), x) {
            assert forall|i: int| 0 <= i < s.len() implies text::text_lt(#[trigger] s[i], x) by {
                if i < s.len() - 1 {
                    assert(text::text_lt(s[i], s[s.len() - 1]));
                    text::lemma_text_lt_transitive(s[i], s.last(), x);
                }
            }
            s.len() as int
        } else {
            let at = lemma_place(front, x);
            assert forall|i: int| 0 <= i < at implies text::text_lt(#[trigger] s[i], x) by {
                assert(front[i] == s[i]);
            }
            assert forall|i: int| at <= i < s.len() implies text::text_lt(x, #[trigger] s[i]) by {
                if i < s.len() - 1 {
                    assert(front[i] == s[i]);
                }
            }
            at
        }
    }
}

/// A finite set of texts can be put in ascending order.
pub proof fn lemma_in_order_of(members: Set<Seq<char>>)
    requires
        members.finite(),
    ensures
        ascending(in_order(members)),
        in_order(members).to_set() == members,
        in_order(members).no_duplicates(),
        in_order(members).len() == members.len(),
    decreases members.len(),
{
    if members.len() == 0 {
        let s = Seq::<Seq<char>>::empty();
        assert(members =~= Set::empty());
        assert(s.to_set() =~= members);
        assert(ascending(s));
    } else {
        let x = members.choose();
        let rest = members.remove(x);
        lemma_in_order_of(rest);
        let t = in_order(rest);
        assert(!t.contains(x)) by {
            if t.contains(x) {
                assert(t.to_set().contains(x));
            }
        }
        let at = lemma_place(t, x);
        let s = t.insert(at, x);
        assert forall|i: int, j: int| 0 <= i < j < s.len() implies text::text_lt(
            #[trigger] s[i],
            #[trigger] s[j],
        ) by {
            let i0 = if i < at { i } else { i - 1 };
            let j0 = if j < at { j } else { j - 1 };
            if i != at {
                assert(s[i] == t[i0]);
            }
            if j != at {
                assert(s[j] == t[j0]);
            }
        }
        assert forall|y: Seq<char>| s.to_set().contains(y) == members.contains(y) by {
            if s.to_set().contains(y) {
                let i = choose|i: int| 0 <= i < s.len() && s[i] == y;
                if i != at {
                    let i0 = if i < at { i } else { i - 1 };
                    assert(t[i0] == y);
                    assert(t.to_set().contains(y));
                }
            }
            if members.contains(y) {
                if y == x {
                    assert(s[at] == y);
                } else {
                    assert(t.to_set().contains(y));
                    let i = choose|i: int| 0 <= i < t.len() && t[i] == y;
                    assert(s[if i < at { i } else { i + 1 }] == y);
                }
            }
        }
        assert(s.to_set() =~= members);
        assert(ascending(s) && s.to_set() == members);
    }
    let s = in_order(members);
    assert(ascending(s) && s.to_set() == members);
    assert(s.no_duplicates()) by {
        assert forall|i: int, j: int| 0 <= i < s.len() && 0 <= j < s.len() && i != j implies s[i]
            != s[j] by {
            if s[i] == s[j] {
                lemma_ascending_distinct(s, i, j);
            }
        }
    }
    s.unique_seq_to_set();
}

/// An index at which a row of entries holds the key `k`.
pub open spec fn index_of_key<V>(entries: Seq<Entry<V>>, k: Seq<char>) -> int {
    choose|i: int| 0 <= i < entries.len() && #[trigger] entries[i].key@ == k
}

/// What a row of entries with distinct keys maps each key to.
pub open spec fn entries_map<V>(entries: Seq<Entry<V>>) -> Map<Seq<char>, V> {
    Map::new(
        |k: Seq<char>| exists|i: int| 0 <= i < entries.len() && #[trigger] entries[i].key@ == k,
        |k: Seq<char>| entries[index_of_key(entries, k)].value,
    )
}

proof fn lemma_ascending_distinct(keys: Seq<Seq<char>>, i: int, j: int)
    requires
        ascending(keys),
        0 <= i < keys.len(),
        0 <= j < keys.len(),
        keys[i] == keys[j],
    ensures
        i == j,
{
    text::lemma_text_lt_irreflexive(keys[i]);
}

/// A row in ascending order maps the key of each entry to its value.
pub proof fn lemma_entry_at<V>(entries: Seq<Entry<V>>, i: int)
    requires
        ascending(entry_keys(entries)),
        0 <= i < entries.len(),
    ensures
        entries_map(entries).contains_key(entries[i].key@),
        entries_map(entries)[entries[i].key@] == entries[i].value,
{
    let k = entries[i].key@;
    let keys = entry_keys(entries);
    let c = index_of_key(entries, k);
    assert(entries[i].key@ == k);
    assert(keys[c] == k && keys[i] == k);
    lemma_ascending_distinct(keys, c, i);
}

impl<V> OrderedMap<V> {
    #[verifier::type_invariant]
    spec fn sorted(self) -> bool {
        ascending(entry_keys(self.entries@))
    }

    /// The keys in ascending order.
    pub open spec fn keys(self) -> Seq<Seq<char>> {
        in_order(self@.dom())
    }
}

impl<V> View for OrderedMap<V> {
    type V = Map<Seq<char>, V>;

    closed spec fn view(&self) -> Map<Seq<char>, V> {
        entries_map(self.entries@)
    }
}

/// A row of entries in ascending order holds the keys of its map, in order.
proof fn lemma_keys<V>(entries: Seq<Entry<V>>)
    requires
        ascending(entry_keys(entries)),
    ensures
        entries_map(entries).dom() == entry_keys(entries).to_set(),
        in_order(entries_map(entries).dom()) == entry_keys(entries),
        entries_map(entries).dom().finite(),
        entries_map(entries).dom().len() == entries.len(),
{
    let keys = entry_keys(entries);
    assert forall|k: Seq<char>| entries_map(entries).dom().contains(k) == keys.to_set().contains(k) by {
        if keys.to_set().contains(k) {
            let i = choose|i: int| 0 <= i < keys.len() && keys[i] == k;
            assert(entries[i].key@ == k);
        }
        if entries_map(entries).dom().contains(k) {
            let i = index_of_key(entries, k);
            assert(keys[i] == k);
        }
    }
    assert(entries_map(entries).dom() =~= keys.to_set());
    lemma_in_order(keys);
    assert(keys.no_duplicates()) by {
        assert forall|i: int, j: int| 0 <= i < keys.len() && 0 <= j < keys.len() && i != j implies keys[i]
            != keys[j] by {
            if keys[i] == keys[j] {
                lemma_ascending_distinct(keys, i, j);
            }
        }
    }
    keys.unique_seq_to_set();
}

/// Two rows in ascending order with the same keys map the same keys.
pub proof fn lemma_same_keys<A, B>(a: Seq<Entry<A>>, b: Seq<Entry<B>>)
    requires
        ascending(entry_keys(a)),
        entry_keys(a) == entry_keys(b),
    ensures
        entries_map(a).dom() == entries_map(b).dom(),
        ascending(entry_keys(b)),
{
    lemma_keys(a);
    lemma_keys(b);
}

impl<V> OrderedMap<V> {
    pub fn new() -> (map: Self)
        ensures
            map@ == Map::<Seq<char>, V>::empty(),
    {
        let map = OrderedMap { entries: Vec::new() };
        assert(map@ =~= Map::<Seq<char>, V>::empty());
        map
    }

    pub fn len(&self) -> (n: usize)
        ensures
            n == self@.len(),
            n == self.keys().len(),
            self@.dom().finite(),
            ascending(self.keys()),
            self@.dom() == self.keys().to_set(),
    {
        proof {
            use_type_invariant(self);
            lemma_keys(self.entries@);
        }
        self.entries.len()
    }

    /// The index of the first entry whose key does not come before `key`, and whether its key
    /// is `key`.
    fn locate(&self, key: &str) -> (found: (usize, bool))
        ensures
            found.0 <= self.entries.len(),
            forall|i: int| 0 <= i < found.0 ==> text::text_lt(#[trigger] self.entries@[i].key@, key@),
            forall|i: int| found.0 <= i < self.entries.len() && !(found.1 && i == found.0)
                ==> text::text_lt(key@, #[trigger] self.entries@[i].key@),
            found.1 ==> found.0 < self.entries.len() && self.entries@[found.0 as int].key@ == key@,
            found.1 == self@.contains_key(key@),
            found.1 ==> self@[key@] == self.entries@[found.0 as int].value,
    {
        proof {
            use_type_invariant(self);
        }
        let ghost keys = entry_keys(self.entries@);
        let mut i: usize = 0;
        while i < self.entries.len() && text::text_less(self.entries[i].key.as_str(), key)
            invariant
                i <= self.entries.len(),
                forall|j: int| 0 <= j < i ==> text::text_lt(#[trigger] self.entries@[j].key@, key@),
            decreases self.entries.len() - i,
        {
            i = i + 1;
        }
        let here = i < self.entries.len() && text::text_eq(self.entries[i].key.as_str(), key);
        proof {
            if i < self.entries.len() {
                text::lemma_text_lt_total(self.entries@[i as int].key@, key@);
                assert forall|j: int| i < j < self.entries.len() implies text::text_lt(
                    key@,
                    #[trigger] self.entries@[j].key@,
                ) by {
                    assert(text::text_lt(keys[i as int], keys[j]));
                    if !here {
                        text::lemma_text_lt_transitive(key@, keys[i as int], keys[j]);
                    }
                }
            }
            if here {
                lemma_entry_at(self.entries@, i as int);
            } else {
                assert forall|j: int| 0 <= j < self.entries.len() implies #[trigger] self.entries@[j].key@
                    != key@ by {
                    text::lemma_text_lt_irreflexive(key@);
                }
            }
        }
        (i, here)
    }

    pub fn contains_key(&self, key: &str) -> (found: bool)
        ensures
            found == self@.contains_key(key@),
    {
        self.locate(key).1
    }

    pub fn get(&self, key: &str) -> (value: Option<&V>)
        ensures
            match value {
                Some(v) => self@.contains_key(key@) && self@[key@] == *v,
                None => !self@.contains_key(key@),
            },
    {
        let (at, found) = self.locate(key);
        if found {
            Some(&self.entries[at].value)
        } else {
            None
        }
    }


    /// The `at`-th key in ascending order.
    pub fn key_at(&self, at: usize) -> (key: &String)
        requires
            at < self.keys().len(),
        ensures
            key@ == self.keys()[at as int],
            self@.contains_key(key@),
    {
        proof {
            use_type_invariant(self);
            lemma_keys(self.entries@);
            lemma_entry_at(self.entries@, at as int);
        }
        &self.entries[at].key
    }

    /// The value of the `at`-th key in ascending order.
    pub fn value_at(&self, at: usize) -> (value: &V)
        requires
            at < self.keys().len(),
        ensures
            self@.contains_key(self.keys()[at as int]),
            *value == self@[self.keys()[at as int]],
    {
        proof {
            use_type_invariant(self);
            lemma_keys(self.entries@);
            lemma_entry_at(self.entries@, at as int);
        }
        &self.entries[at].value
    }

    /// Maps `key` to `value`. Returns what it was mapped to before.
    pub fn insert(&mut self, key: String, value: V) -> (previous: Option<V>)
        ensures
            final(self)@ == old(self)@.insert(key@, value),
            match previous {
                Some(v) => old(self)@.contains_key(key@) && v == old(self)@[key@],
                None => !old(self)@.contains_key(key@),
            },
    {
        proof {
            use_type_invariant(&*self);
        }
        let (at, found) = self.locate(key.as_str());
        let mut entries: Vec<Entry<V>> = Vec::new();
        std::mem::swap(&mut entries, &mut self.entries);
        let ghost before = entries@;
        let ghost keys = entry_keys(before);
        let ghost k = key@;
        let previous = if found {
            let removed = entries.remove(at);
            entries.insert(at, Entry { key, value });
            proof {
                lemma_entry_at(before, at as int);
                assert(entries@ =~= before.update(at as int, entries@[at as int]));
            }
            Some(removed.value)
        } else {
            entries.insert(at, Entry { key, value });
            None
        };
        proof {
            let after = entry_keys(entries@);
            assert forall|i: int, j: int| 0 <= i < j < after.len() implies text::text_lt(
                #[trigger] after[i],
                #[trigger] after[j],
            ) by {
                let i0 = if found || i < at { i } else { i - 1 };
                let j0 = if found || j < at { j } else { j - 1 };
                if i != at {
                    assert(after[i] == keys[i0] && before[i0].key@ == keys[i0]);
                }
                if j != at {
                    assert(after[j] == keys[j0] && before[j0].key@ == keys[j0]);
                }
                if i != at && j != at {
                    assert(text::text_lt(keys[i0], keys[j0]));
                }
            }
            lemma_inserted(before, entries@, at as int, found);
        }
        self.entries = entries;
        previous
    }

    /// Takes `key` out of the map. Returns what it was mapped to.
    pub fn remove(&mut self, key: &str) -> (removed: Option<V>)
        ensures
            final(self)@ == old(self)@.remove(key@),
            match removed {
                Some(v) => old(self)@.contains_key(key@) && v == old(self)@[key@],
                None => !old(self)@.contains_key(key@),
            },
    {
        proof {
            use_type_invariant(&*self);
        }
        let (at, found) = self.locate(key);
        if !found {
            assert(self@ =~= self@.remove(key@));
            return None;
        }
        let mut entries: Vec<Entry<V>> = Vec::new();
        std::mem::swap(&mut entries, &mut self.entries);
        let ghost before = entries@;
        let ghost keys = entry_keys(before);
        let removed = entries.remove(at);
        proof {
            lemma_entry_at(before, at as int);
            let after = entry_keys(entries@);
            assert forall|i: int, j: int| 0 <= i < j < after.len() implies text::text_lt(
                #[trigger] after[i],
                #[trigger] after[j],
            ) by {
                let i0 = if i < at { i } else { i + 1 };
                let j0 = if j < at { j } else { j + 1 };
                assert(after[i] == keys[i0]);
                assert(after[j] == keys[j0]);
            }
            lemma_removed(before, entries@, at as int);
        }
        self.entries = entries;
        Some(removed.value)
    }

    /// Takes all entries out, in ascending order of their keys.
    pub fn into_entries(self) -> (entries: Vec<Entry<V>>)
        ensures
            entry_keys(entries@) == self.keys(),
            ascending(entry_keys(entries@)),
            entries_map(entries@) == self@,
            forall|i: int| 0 <= i < entries.len() ==> self@.contains_key(#[trigger] entries@[i].key@)
                && self@[entries@[i].key@] == entries@[i].value,
    {
        proof {
            use_type_invariant(&self);
            lemma_keys(self.entries@);
            assert forall|i: int| 0 <= i < self.entries.len() implies self@.contains_key(
                #[trigger] self.entries@[i].key@,
            ) && self@[self.entries@[i].key@] == self.entries@[i].value by {
                lemma_entry_at(self.entries@, i);
            }
        }
        self.entries
    }

    /// Makes a map of entries that stand in ascending order of their keys.
    pub fn from_entries(entries: Vec<Entry<V>>) -> (map: Self)
        requires
            ascending(entry_keys(entries@)),
        ensures
            map.keys() == entry_keys(entries@),
            map@ == entries_map(entries@),
            forall|i: int| 0 <= i < entries.len() ==> map@.contains_key(#[trigger] entries@[i].key@)
                && map@[entries@[i].key@] == entries@[i].value,
    {
        proof {
            lemma_keys(entries@);
            assert forall|i: int| 0 <= i < entries.len() implies entries_map(entries@).contains_key(
                #[trigger] entries@[i].key@,
            ) && entries_map(entries@)[entries@[i].key@] == entries@[i].value by {
                lemma_entry_at(entries@, i);
            }
        }
        OrderedMap { entries }
    }
}

impl<V: Clone> Clone for OrderedMap<V> {
    fn clone(&self) -> (copy: Self)
        ensures
            copy@.dom() == self@.dom(),
            forall|k: Seq<char>| #[trigger] self@.contains_key(k) ==> cloned(self@[k], copy@[k]),
    {
        proof {
            use_type_invariant(self);
            lemma_keys(self.entries@);
        }
        let mut entries: Vec<Entry<V>> = Vec::new();
        let mut i: usize = 0;
        while i < self.entries.len()
            invariant
                i <= self.entries.len(),
                entries.len() == i,
                forall|j: int|
                    0 <= j < i ==> (#[trigger] entries@[j]).key@ == self.entries@[j].key@ && cloned(
                        self.entries@[j].value,
                        entries@[j].value,
                    ),
            decreases self.entries.len() - i,
        {
            let entry = &self.entries[i];
            entries.push(Entry { key: entry.key.clone(), value: entry.value.clone() });
            i = i + 1;
        }
        proof {
            assert(entry_keys(entries@) =~= entry_keys(self.entries@));
            lemma_keys(entries@);
            assert forall|k: Seq<char>| #[trigger] self@.contains_key(k) implies cloned(
                self@[k],
                entries_map(entries@)[k],
            ) by {
                let at = index_of_key(self.entries@, k);
                assert(self.entries@[at].key@ == k);
                assert(entries@[at].key@ == k);
                lemma_entry_at(self.entries@, at);
                lemma_entry_at(entries@, at);
            }
        }
        OrderedMap { entries }
    }
}

proof fn lemma_inserted<V>(before: Seq<Entry<V>>, after: Seq<Entry<V>>, at: int, found: bool)
    requires
        ascending(entry_keys(before)),
        ascending(entry_keys(after)),
        0 <= at < after.len(),
        at <= before.len(),
        found ==> at < before.len() && after == before.update(at, after[at]) && before[at].key@ == after[at].key@,
        !found ==> after == before.insert(at, after[at]),
    ensures
        entries_map(after) == entries_map(before).insert(after[at].key@, after[at].value),
{
    let k = after[at].key@;
    let m = entries_map(before).insert(k, after[at].value);
    let w = entries_map(after);
    assert forall|x: Seq<char>|
        #![trigger w.dom().contains(x)]
        #![trigger m.dom().contains(x)]
        w.dom().contains(x) == m.dom().contains(x) && (m.dom().contains(x) ==> w[x] == m[x]) by {
        if w.dom().contains(x) {
            let i = index_of_key(after, x);
            lemma_entry_at(after, i);
            if i != at {
                let i0 = if found || i < at { i } else { i - 1 };
                assert(before[i0] == after[i]);
                lemma_entry_at(before, i0);
                if x == k {
                    lemma_ascending_distinct(entry_keys(after), i, at);
                }
            }
        }
        if m.dom().contains(x) {
            if x == k {
                lemma_entry_at(after, at);
            } else {
                let i = index_of_key(before, x);
                lemma_entry_at(before, i);
                let i1 = if found || i < at { i } else { i + 1 };
                assert(after[i1] == before[i]);
                lemma_entry_at(after, i1);
            }
        }
    }
    assert(w =~= m);
}

proof fn lemma_removed<V>(before: Seq<Entry<V>>, after: Seq<Entry<V>>, at: int)
    requires
        ascending(entry_keys(before)),
        ascending(entry_keys(after)),
        0 <= at < before.len(),
        after == before.remove(at),
    ensures
        entries_map(after) == entries_map(before).remove(before[at].key@),
{
    let k = before[at].key@;
    let m = entries_map(before).remove(k);
    let w = entries_map(after);
    assert forall|x: Seq<char>|
        #![trigger w.dom().contains(x)]
        #![trigger m.dom().contains(x)]
        w.dom().contains(x) == m.dom().contains(x) && (m.dom().contains(x) ==> w[x] == m[x]) by {
        if w.dom().contains(x) {
            let i = index_of_key(after, x);
            lemma_entry_at(after, i);
            let i0 = if i < at { i } else { i + 1 };
            assert(before[i0] == after[i]);
            lemma_entry_at(before, i0);
            if x == k {
                lemma_ascending_distinct(entry_keys(before), i0, at);
            }
        }
        if m.dom().contains(x) {
            let i = index_of_key(before, x);
            lemma_entry_at(before, i);
            let i1 = if i < at { i } else { i - 1 };
            assert(after[i1] == before[i]);
            lemma_entry_at(after, i1);
        }
    }
    assert(w =~= m);
}

} // verus!
