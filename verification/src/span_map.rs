//! Maps from span names, kept in the order of the names.

use crate::text::{comes_before, same_text, text_less, text_order_total, text_order_transitive};
use vstd::prelude::*;

verus! {

/// The names of the entries strictly increase.
pub open spec fn in_order<V>(entries: Seq<(String, V)>) -> bool {
    forall|i: int, j: int|
        0 <= i < j < entries.len() ==> text_less(
            (#[trigger] entries[i]).0@,
            (#[trigger] entries[j]).0@,
        )
}

/// `span` is the name of one of the entries.
pub open spec fn names<V>(entries: Seq<(String, V)>, span: Seq<char>) -> bool {
    exists|i: int| 0 <= i < entries.len() && (#[trigger] entries[i]).0@ == span
}

/// The position of the entry that `span` names.
pub open spec fn place_of<V>(entries: Seq<(String, V)>, span: Seq<char>) -> int {
    choose|i: int| 0 <= i < entries.len() && (#[trigger] entries[i]).0@ == span
}

/// The map that the entries stand for.
pub open spec fn map_of<V>(entries: Seq<(String, V)>) -> Map<Seq<char>, V> {
    Map::new(
        |span: Seq<char>| names(entries, span),
        |span: Seq<char>| entries[place_of(entries, span)].1,
    )
}

/// A map from span names to values. Its entries are walked in the order of the names.
pub struct SpanMap<V> {
    entries: Vec<(String, V)>,
}

impl<V> View for SpanMap<V> {
    type V = Seq<(String, V)>;

    closed spec fn view(&self) -> Seq<(String, V)> {
        self.entries@
    }
}

/// In a list whose names increase, a name stands in one place only.
pub proof fn names_are_distinct<V>(entries: Seq<(String, V)>, i: int, j: int)
    requires
        in_order(entries),
        0 <= i < entries.len(),
        0 <= j < entries.len(),
        entries[i].0@ == entries[j].0@,
    ensures
        i == j,
{
    text_order_total(entries[i].0@, entries[j].0@);
}

/// An entry of a list whose names increase is what the map holds under its name.
pub proof fn entry_is_mapped<V>(entries: Seq<(String, V)>, i: int)
    requires
        in_order(entries),
        0 <= i < entries.len(),
    ensures
        map_of(entries).contains_key(entries[i].0@),
        map_of(entries)[entries[i].0@] == entries[i].1,
{
    let span = entries[i].0@;
    assert(names(entries, span));
    names_are_distinct(entries, i, place_of(entries, span));
}

/// Putting an entry between the smaller and the larger names keeps the order and adds one
/// association to the map.
proof fn inserting_adds<V>(entries: Seq<(String, V)>, at: int, entry: (String, V))
    requires
        in_order(entries),
        0 <= at <= entries.len(),
        forall|i: int| 0 <= i < at ==> text_less((#[trigger] entries[i]).0@, entry.0@),
        forall|i: int|
            at <= i < entries.len() ==> text_less(entry.0@, (#[trigger] entries[i]).0@),
    ensures
        in_order(entries.insert(at, entry)),
        !names(entries, entry.0@),
        map_of(entries.insert(at, entry)) == map_of(entries).insert(entry.0@, entry.1),
{
    let longer = entries.insert(at, entry);
    assert(in_order(longer));
    assert forall|i: int| 0 <= i < entries.len() implies (#[trigger] entries[i]).0@
        != entry.0@ by {
        text_order_total(entries[i].0@, entry.0@);
    }
    let expected = map_of(entries).insert(entry.0@, entry.1);
    assert forall|span: Seq<char>|
        #![trigger map_of(longer).dom().contains(span)]
        #![trigger map_of(longer)[span]]
        map_of(longer).dom().contains(span) == expected.dom().contains(span) && (map_of(
            longer,
        ).dom().contains(span) ==> map_of(longer)[span] == expected[span]) by {
        if names(longer, span) {
            let k = place_of(longer, span);
            if k < at {
                assert(longer[k] == entries[k]);
                entry_is_mapped(entries, k);
            } else if k > at {
                assert(longer[k] == entries[k - 1]);
                entry_is_mapped(entries, k - 1);
            }
        }
        if names(entries, span) {
            let k = place_of(entries, span);
            if k < at {
                assert(longer[k].0@ == span);
            } else {
                assert(longer[k + 1].0@ == span);
            }
        }
        if span == entry.0@ {
            assert(longer[at].0@ == span);
            entry_is_mapped(longer, at);
        }
    }
    assert(map_of(longer) =~= expected);
}

/// Giving an entry a new value changes what the map holds under its name only.
proof fn updating_replaces<V>(entries: Seq<(String, V)>, at: int, entry: (String, V))
    requires
        in_order(entries),
        0 <= at < entries.len(),
        entries[at].0@ == entry.0@,
    ensures
        in_order(entries.update(at, entry)),
        map_of(entries.update(at, entry)) == map_of(entries).insert(entry.0@, entry.1),
{
    let changed = entries.update(at, entry);
    assert(in_order(changed)) by {
        assert forall|i: int, j: int| 0 <= i < j < changed.len() implies text_less(
            (#[trigger] changed[i]).0@,
            (#[trigger] changed[j]).0@,
        ) by {
            assert(changed[i].0@ == entries[i].0@);
            assert(changed[j].0@ == entries[j].0@);
        }
    }
    let expected = map_of(entries).insert(entry.0@, entry.1);
    assert forall|span: Seq<char>|
        #![trigger map_of(changed).dom().contains(span)]
        #![trigger map_of(changed)[span]]
        map_of(changed).dom().contains(span) == expected.dom().contains(span) && (map_of(
            changed,
        ).dom().contains(span) ==> map_of(changed)[span] == expected[span]) by {
        if names(changed, span) {
            let k = place_of(changed, span);
            assert(entries[k].0@ == span);
            entry_is_mapped(entries, k);
            if k != at && span == entry.0@ {
                names_are_distinct(changed, k, at);
            }
        }
        if names(entries, span) {
            let k = place_of(entries, span);
            assert(changed[k].0@ == span);
        }
        if span == entry.0@ {
            assert(changed[at].0@ == span);
            entry_is_mapped(changed, at);
        }
    }
    assert(map_of(changed) =~= expected);
}

impl<V> SpanMap<V> {
    /// The entries stand in the order of their names.
    pub open spec fn wf(&self) -> bool {
        in_order(self@)
    }

    /// The map itself, whatever the order of its entries.
    pub open spec fn map(&self) -> Map<Seq<char>, V> {
        map_of(self@)
    }

    /// An empty map.
    pub fn new() -> (spans: Self)
        ensures
            spans.wf(),
            spans@ == Seq::<(String, V)>::empty(),
            spans.map() == Map::<Seq<char>, V>::empty(),
    {
        let spans = SpanMap { entries: Vec::new() };
        assert(spans.map() =~= Map::<Seq<char>, V>::empty());
        spans
    }

    /// The number of entries.
    pub fn len(&self) -> (len: usize)
        ensures
            len == self@.len(),
    {
        self.entries.len()
    }

    /// The entries, in the order of their names.
    pub fn entries(&self) -> (entries: &Vec<(String, V)>)
        ensures
            entries@ == self@,
    {
        &self.entries
    }

    /// Gives the entries away, in the order of their names.
    pub fn into_entries(self) -> (entries: Vec<(String, V)>)
        ensures
            entries@ == self@,
    {
        self.entries
    }

    /// The number of names that come before `span`.
    fn lower_bound(&self, span: &str) -> (at: usize)
        requires
            self.wf(),
        ensures
            at <= self@.len(),
            forall|i: int| 0 <= i < at ==> text_less((#[trigger] self@[i]).0@, span@),
            forall|i: int|
                at <= i < self@.len() ==> !text_less((#[trigger] self@[i]).0@, span@),
    {
        let mut low: usize = 0;
        let mut high: usize = self.entries.len();
        while low < high
            invariant
                low <= high <= self@.len(),
                self@ == self.entries@,
                self.wf(),
                forall|i: int| 0 <= i < low ==> text_less((#[trigger] self@[i]).0@, span@),
                forall|i: int|
                    high <= i < self@.len() ==> !text_less((#[trigger] self@[i]).0@, span@),
            decreases high - low,
        {
            let middle = low + (high - low) / 2;
            if comes_before(self.entries[middle].0.as_str(), span) {
                proof {
                    assert forall|i: int| 0 <= i <= middle implies text_less(
                        (#[trigger] self@[i]).0@,
                        span@,
                    ) by {
                        if i < middle {
                            text_order_transitive(self@[i].0@, self@[middle as int].0@, span@);
                        }
                    }
                }
                low = middle + 1;
            } else {
                proof {
                    assert forall|i: int| middle <= i < self@.len() implies !text_less(
                        (#[trigger] self@[i]).0@,
                        span@,
                    ) by {
                        if i > middle && text_less(self@[i].0@, span@) {
                            text_order_transitive(self@[middle as int].0@, self@[i].0@, span@);
                        }
                    }
                }
                high = middle;
            }
        }
        low
    }

    /// The place of `span` among the entries, if it has one; else the place where it belongs.
    fn find(&self, span: &str) -> (found: (bool, usize))
        requires
            self.wf(),
        ensures
            found.0 == names(self@, span@),
            found.1 <= self@.len(),
            found.0 ==> found.1 < self@.len() && self@[found.1 as int].0@ == span@,
            !found.0 ==> {
                &&& forall|i: int|
                    0 <= i < found.1 ==> text_less((#[trigger] self@[i]).0@, span@)
                &&& forall|i: int|
                    found.1 <= i < self@.len() ==> text_less(span@, (#[trigger] self@[i]).0@)
            },
    {
        let at = self.lower_bound(span);
        if at < self.entries.len() && same_text(self.entries[at].0.as_str(), span) {
            return (true, at);
        }
        proof {
            assert forall|i: int| 0 <= i < self@.len() implies (#[trigger] self@[i]).0@ != span@
                && (i >= at ==> text_less(span@, self@[i].0@)) by {
                text_order_total(self@[i].0@, span@);
                if i > at {
                    text_order_total(self@[at as int].0@, span@);
                    text_order_transitive(span@, self@[at as int].0@, self@[i].0@);
                }
            }
        }
        (false, at)
    }

    /// The value under `span`.
    pub fn get(&self, span: &str) -> (value: Option<&V>)
        requires
            self.wf(),
        ensures
            match value {
                Some(v) => self.map().contains_key(span@) && *v == self.map()[span@],
                None => !self.map().contains_key(span@),
            },
    {
        let (found, at) = self.find(span);
        if found {
            proof {
                entry_is_mapped(self@, at as int);
            }
            Some(&self.entries[at].1)
        } else {
            None
        }
    }

    /// Puts `value` under `span`, in place of what may be there.
    pub fn insert(&mut self, span: String, value: V)
        requires
            old(self).wf(),
        ensures
            final(self).wf(),
            final(self).map() == old(self).map().insert(span@, value),
    {
        let ghost before = self@;
        let (found, at) = self.find(span.as_str());
        if found {
            proof {
                updating_replaces(before, at as int, (span, value));
            }
            self.entries.set(at, (span, value));
        } else {
            proof {
                inserting_adds(before, at as int, (span, value));
            }
            self.entries.insert(at, (span, value));
        }
    }
}

/// What a map of lists holds, with each list as a sequence.
pub open spec fn groups_of<T>(entries: Seq<(String, Vec<T>)>) -> Map<Seq<char>, Seq<T>> {
    map_of(entries).map_values(|list: Vec<T>| list@)
}

/// What stands under `span`, or nothing.
pub open spec fn group_at<T>(groups: Map<Seq<char>, Seq<T>>, span: Seq<char>) -> Seq<T> {
    if groups.contains_key(span) {
        groups[span]
    } else {
        Seq::empty()
    }
}

impl<T> SpanMap<Vec<T>> {
    /// The lists of the map, as sequences.
    pub open spec fn groups(&self) -> Map<Seq<char>, Seq<T>> {
        groups_of(self@)
    }

    /// Appends `item` to the list under `span`, which is empty if there was none.
    pub fn push(&mut self, span: String, item: T)
        requires
            old(self).wf(),
        ensures
            final(self).wf(),
            final(self).groups() == old(self).groups().insert(
                span@,
                group_at(old(self).groups(), span@).push(item),
            ),
    {
        let ghost before = self@;
        let ghost groups = self.groups();
        let (found, at) = self.find(span.as_str());
        if found {
            self.entries[at].1.push(item);
            proof {
                entry_is_mapped(before, at as int);
                let entry = self@[at as int];
                assert(self@ =~= before.update(at as int, entry));
                updating_replaces(before, at as int, entry);
                assert(self.groups() =~= groups.insert(
                    span@,
                    group_at(groups, span@).push(item),
                ));
            }
        } else {
            let mut list: Vec<T> = Vec::new();
            list.push(item);
            proof {
                inserting_adds(before, at as int, (span, list));
            }
            self.entries.insert(at, (span, list));
            proof {
                assert(self.groups() =~= groups.insert(
                    span@,
                    group_at(groups, span@).push(item),
                ));
            }
        }
    }
}

} // verus!
