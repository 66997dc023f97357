//! The registry itself.

use std::collections::{HashMap, HashSet};
use std::sync::Arc;

use vstd::prelude::*;
use vstd::std_specs::hash::*;
use vstd::std_specs::iter::IteratorSpec;

use crate::schedule::due::{interval_is_due, is_due};

verus! {

broadcast use vstd::std_specs::hash::group_hash_axioms;

/// An item that a [`Schedule`] can hold: it has an identifier and asks to be
/// polled at a fixed interval. Neither changes while the item is registered.
///
/// `id` and `interval` say what the two are; `get_id` and `get_interval`
/// compute them. An implementation in unverified code gives all four a body,
/// the first two that of the last two.
pub trait Schedulable {
    /// The identifier of the item.
    spec fn id(&self) -> i64;

    /// The number of seconds between two polls of the item.
    spec fn interval(&self) -> i64;

    /// Returns the identifier of the item.
    fn get_id(&self) -> (id: i64)
        ensures
            id == self.id(),
    ;

    /// Returns the interval of the item.
    fn get_interval(&self) -> (interval: i64)
        ensures
            interval == self.interval(),
    ;
}

/// `Arc::clone`: a second handle to the value that `item` shares.
#[verifier::external_body]
fn share<T>(item: &Arc<T>) -> (shared: Arc<T>)
    ensures
        shared == *item,
{
    Arc::clone(item)
}

/// The identifiers among `items` whose item is polled every `interval`
/// seconds.
pub open spec fn ids_with_interval<Item: Schedulable>(items: Map<i64, Item>, interval: i64) -> Set<
    i64,
> {
    Set::new(|id: i64| items.contains_key(id) && items[id].interval() == interval)
}

/// The identifiers of `items` grouped by interval: an interval is a key
/// exactly if some item has it.
pub open spec fn group_by_interval<Item: Schedulable>(items: Map<i64, Item>) -> Map<
    i64,
    Set<i64>,
> {
    Map::new(
        |interval: i64| exists|id: i64| #[trigger] ids_with_interval(items, interval).contains(id),
        |interval: i64| ids_with_interval(items, interval),
    )
}

/// Whether `due` lists the items of `items` that are due in the window from
/// `from` to `to`: each of them once, in any order, and nothing else.
pub open spec fn lists_due<Item: Schedulable>(
    items: Map<i64, Item>,
    from: int,
    to: int,
    due: Seq<Arc<Item>>,
) -> bool {
    &&& forall|i: int|
        0 <= i < due.len() ==> items.contains_key((#[trigger] due[i]).id()) && items[due[i].id()]
            == *due[i] && is_due(due[i].interval() as int, from, to)
    &&& forall|i: int, j: int|
        0 <= i < j < due.len() ==> (#[trigger] due[i]).id() != (#[trigger] due[j]).id()
    &&& forall|id: i64|
        #[trigger] items.contains_key(id) && is_due(items[id].interval() as int, from, to)
            ==> exists|i: int| 0 <= i < due.len() && (#[trigger] due[i]).id() == id
}

/// Whether one of the first `count` entries has the key `key`.
spec fn among_keys(entries: Seq<(&i64, &HashSet<i64>)>, count: int, key: i64) -> bool {
    exists|p: int| 0 <= p < count && *(#[trigger] entries[p]).0 == key
}

/// Whether one of the first `count` identifiers is `id`.
spec fn among_ids(ids: Seq<&i64>, count: int, id: i64) -> bool {
    exists|r: int| 0 <= r < count && *(#[trigger] ids[r]) == id
}

/// Whether an item with the identifier `id` is listed in `due`.
spec fn listed<Item: Schedulable>(due: Seq<Arc<Item>>, id: i64) -> bool {
    exists|i: int| 0 <= i < due.len() && (#[trigger] due[i]).id() == id
}

/// A schedule of [`Schedulable`] items.
///
/// | Operation | Time complexity |
/// |-----------|-----------------|
/// | Get       | O(1)            |
/// | Get due   | O(m)            |
/// | Insert    | O(1)            |
/// | Remove    | O(1)            |
///
/// **m** is the number of distinct intervals.
pub struct Schedule<Item: Schedulable> {
    items: HashMap<i64, Arc<Item>>,
    intervals: HashMap<i64, HashSet<i64>>,
}

impl<Item: Schedulable> View for Schedule<Item> {
    type V = Map<i64, Item>;

    /// The registered items by identifier.
    closed spec fn view(&self) -> Map<i64, Item> {
        Map::new(|id: i64| self.items@.contains_key(id), |id: i64| *self.items@[id])
    }
}

impl<Item: Schedulable> Schedule<Item> {
    /// The identifiers registered under each interval.
    pub closed spec fn intervals(&self) -> Map<i64, Set<i64>> {
        Map::new(|k: i64| self.intervals@.contains_key(k), |k: i64| self.intervals@[k]@)
    }

    /// The two indexes agree and hold nothing superfluous.
    ///
    /// - Every item is kept under its own identifier.
    /// - Every identifier of an item stands in the set under that item's
    ///   interval, and every identifier in a set under an interval is that of
    ///   an item with this interval.
    /// - No interval is a key of an empty set.
    pub open spec fn well_formed(&self) -> bool {
        &&& forall|id: i64| #[trigger]
            self@.contains_key(id) ==> self@[id].id() == id
        &&& forall|id: i64| #[trigger]
            self@.contains_key(id) ==> self.intervals().contains_key(self@[id].interval())
                && self.intervals()[self@[id].interval()].contains(id)
        &&& forall|k: i64, id: i64|
            self.intervals().contains_key(k) && #[trigger] self.intervals()[k].contains(id)
                ==> self@.contains_key(id) && self@[id].interval() == k
        &&& forall|k: i64| #[trigger]
            self.intervals().contains_key(k) ==> exists|id: i64| self.intervals()[k].contains(id)
    }

    /// Creates an empty schedule.
    pub fn new() -> (schedule: Self)
        ensures
            schedule.well_formed(),
            schedule@ == Map::<i64, Item>::empty(),
            schedule.intervals() == Map::<i64, Set<i64>>::empty(),
    {
        let schedule = Schedule { items: HashMap::new(), intervals: HashMap::new() };
        assert(schedule@ =~= Map::<i64, Item>::empty());
        assert(schedule.intervals() =~= Map::<i64, Set<i64>>::empty());
        schedule
    }

    /// The items as they are kept, by identifier.
    pub fn items_ref(&self) -> (items: &HashMap<i64, Arc<Item>>)
        ensures
            items@.dom() == self@.dom(),
            forall|id: i64| #[trigger] self@.contains_key(id) ==> *items@[id] == self@[id],
    {
        assert(self.items@.dom() =~= self@.dom());
        &self.items
    }

    /// The identifiers as they are kept, by interval.
    pub fn intervals_ref(&self) -> (intervals: &HashMap<i64, HashSet<i64>>)
        ensures
            intervals@.dom() == self.intervals().dom(),
            forall|k: i64| #[trigger]
                self.intervals().contains_key(k) ==> intervals@[k]@ == self.intervals()[k],
    {
        assert(self.intervals@.dom() =~= self.intervals().dom());
        &self.intervals
    }

    /// Gets an item by `id`.
    pub fn get(&self, id: i64) -> (item: Option<Arc<Item>>)
        ensures
            match item {
                Some(item) => self@.contains_key(id) && *item == self@[id],
                None => !self@.contains_key(id),
            },
    {
        match self.items.get(&id) {
            Some(item) => Some(share(item)),
            None => None,
        }
    }
}

impl<Item: Schedulable> Schedule<Item> {
    /// What a walk over the buckets has collected in `due` once it has gone
    /// through the first `position` of `entries` and through the first
    /// `count` of `members`, the identifiers of the bucket at `position`: the
    /// due items of those buckets and those members, each once.
    spec fn collected(
        &self,
        from: i64,
        to: i64,
        entries: Seq<(&i64, &HashSet<i64>)>,
        position: int,
        members: Seq<&i64>,
        count: int,
        due: Seq<Arc<Item>>,
    ) -> bool {
        &&& forall|i: int|
            0 <= i < due.len() ==> self@.contains_key((#[trigger] due[i]).id())
                && self@[due[i].id()] == *due[i]
        &&& forall|i: int, j: int|
            0 <= i < j < due.len() ==> (#[trigger] due[i]).id() != (#[trigger] due[j]).id()
        &&& forall|id: i64| #[trigger]
            listed(due, id) ==> self.wanted(from, to, entries, position, members, count, id)
        &&& forall|id: i64| #[trigger]
            self.wanted(from, to, entries, position, members, count, id) ==> listed(due, id)
    }

    /// Whether `id` is the identifier of a due item that the walk has come
    /// by: its bucket is among the first `position` of `entries`, or is the
    /// one at `position` and `id` is among the first `count` of `members`.
    spec fn wanted(
        &self,
        from: i64,
        to: i64,
        entries: Seq<(&i64, &HashSet<i64>)>,
        position: int,
        members: Seq<&i64>,
        count: int,
        id: i64,
    ) -> bool {
        &&& self@.contains_key(id)
        &&& is_due(self@[id].interval() as int, from as int, to as int)
        &&& among_keys(entries, position, self@[id].interval()) || (0 <= position < entries.len()
            && self@[id].interval() == *entries[position].0 && among_ids(members, count, id))
    }

    /// Two entries of a walk over the buckets with the same key are one
    /// entry.
    proof fn lemma_entry_keys_differ(&self, entries: Seq<(&i64, &HashSet<i64>)>, p: int, q: int)
        requires
            entries == spec_hash_map_iter(&self.intervals).remaining(),
            entries.no_duplicates(),
            0 <= p < entries.len(),
            0 <= q < entries.len(),
            *entries[p].0 == *entries[q].0,
        ensures
            p == q,
    {
        axiom_spec_hash_map_iter(&self.intervals);
        assert(self.intervals@[*entries[p].0] == *entries[p].1);
        assert(self.intervals@[*entries[q].0] == *entries[q].1);
        assert(entries[p] == entries[q]);
    }

    /// The walk collects the next member of a due bucket.
    proof fn lemma_collected_one_more(
        &self,
        from: i64,
        to: i64,
        entries: Seq<(&i64, &HashSet<i64>)>,
        position: int,
        members: Seq<&i64>,
        count: int,
        before: Seq<Arc<Item>>,
        after: Seq<Arc<Item>>,
    )
        requires
            self.well_formed(),
            entries == spec_hash_map_iter(&self.intervals).remaining(),
            entries.no_duplicates(),
            members.no_duplicates(),
            0 <= position < entries.len(),
            0 <= count < members.len(),
            self.intervals().contains_key(*entries[position].0),
            self.intervals()[*entries[position].0].contains(*members[count]),
            is_due(*entries[position].0 as int, from as int, to as int),
            self.collected(from, to, entries, position, members, count, before),
            after.len() == before.len() + 1,
            forall|i: int| 0 <= i < before.len() ==> after[i] == before[i],
            self@[*members[count]] == *after[before.len() as int],
        ensures
            self.collected(from, to, entries, position, members, count + 1, after),
    {
        let id = *members[count];
        let interval = *entries[position].0;
        let last = before.len() as int;
        assert(self@.contains_key(id) && self@[id].interval() == interval && self@[id].id() == id);
        assert(after[last].id() == id);
        assert forall|other: i64|
            self.wanted(from, to, entries, position, members, count, other) implies self.wanted(
            from,
            to,
            entries,
            position,
            members,
            count + 1,
            other,
        ) by {
            if among_ids(members, count, other) {
                let r = choose|r: int| 0 <= r < count && *(#[trigger] members[r]) == other;
                assert(0 <= r < count + 1 && *members[r] == other);
            }
        }
        assert(self.wanted(from, to, entries, position, members, count + 1, id)) by {
            assert(0 <= count < count + 1 && *members[count] == id);
        }
        assert(!self.wanted(from, to, entries, position, members, count, id)) by {
            if among_keys(entries, position, interval) {
                let p = choose|p: int| 0 <= p < position && *(#[trigger] entries[p]).0 == interval;
                self.lemma_entry_keys_differ(entries, p, position);
            }
            if among_ids(members, count, id) {
                let r = choose|r: int| 0 <= r < count && *(#[trigger] members[r]) == id;
                assert(members[r] == members[count]);
            }
        }
        assert forall|i: int| 0 <= i < after.len() implies self@.contains_key(
            (#[trigger] after[i]).id(),
        ) && self@[after[i].id()] == *after[i] by {
            if i < last {
                assert(after[i] == before[i]);
            }
        }
        assert forall|i: int, j: int| 0 <= i < j < after.len() implies (#[trigger] after[i]).id()
            != (#[trigger] after[j]).id() by {
            assert(after[i] == before[i]);
            if j < last {
                assert(after[j] == before[j]);
            } else {
                if after[i].id() == id {
                    assert(listed(before, id));
                }
            }
        }
        assert forall|other: i64| #[trigger] listed(after, other) implies self.wanted(
            from,
            to,
            entries,
            position,
            members,
            count + 1,
            other,
        ) by {
            let i = choose|i: int| 0 <= i < after.len() && (#[trigger] after[i]).id() == other;
            if i < last {
                assert(before[i] == after[i]);
                assert(listed(before, other));
            }
        }
        assert forall|other: i64| #[trigger]
            self.wanted(from, to, entries, position, members, count + 1, other) implies listed(
            after,
            other,
        ) by {
            if other == id {
                assert(after[last].id() == other);
            } else {
                if among_ids(members, count + 1, other) {
                    let r = choose|r: int| 0 <= r < count + 1 && *(#[trigger] members[r]) == other;
                    assert(0 <= r < count && *members[r] == other);
                }
                assert(self.wanted(from, to, entries, position, members, count, other));
                let i = choose|i: int|
                    0 <= i < before.len() && (#[trigger] before[i]).id() == other;
                assert(after[i] == before[i]);
            }
        }
    }

    /// Once every member of a due bucket is collected, the walk is through
    /// with the bucket.
    proof fn lemma_collected_bucket_done(
        &self,
        from: i64,
        to: i64,
        entries: Seq<(&i64, &HashSet<i64>)>,
        position: int,
        members: Seq<&i64>,
        due: Seq<Arc<Item>>,
    )
        requires
            self.well_formed(),
            0 <= position < entries.len(),
            self.intervals().contains_key(*entries[position].0),
            self.intervals()[*entries[position].0] == members.unref().to_set(),
            self.collected(from, to, entries, position, members, members.len() as int, due),
        ensures
            self.collected(from, to, entries, position + 1, Seq::empty(), 0, due),
    {
        let interval = *entries[position].0;
        let none = Seq::<&i64>::empty();
        let all = members.len() as int;
        assert forall|id: i64| #[trigger]
            self.wanted(from, to, entries, position, members, all, id) implies self.wanted(
            from,
            to,
            entries,
            position + 1,
            none,
            0,
            id,
        ) by {
            if among_keys(entries, position, self@[id].interval()) {
                let p = choose|p: int|
                    0 <= p < position && *(#[trigger] entries[p]).0 == self@[id].interval();
                assert(0 <= p < position + 1 && *entries[p].0 == self@[id].interval());
            } else {
                assert(0 <= position < position + 1 && *entries[position].0
                    == self@[id].interval());
            }
        }
        assert forall|id: i64| #[trigger]
            self.wanted(from, to, entries, position + 1, none, 0, id) implies self.wanted(
            from,
            to,
            entries,
            position,
            members,
            all,
            id,
        ) by {
            assert(!among_ids(none, 0, id));
            let p = choose|p: int|
                0 <= p < position + 1 && *(#[trigger] entries[p]).0 == self@[id].interval();
            if p < position {
                assert(among_keys(entries, position, self@[id].interval()));
            } else {
                assert(self.intervals()[interval].contains(id));
                assert(members.unref().to_set().contains(id));
                let r = choose|r: int| 0 <= r < members.unref().len() && members.unref()[r] == id;
                assert(0 <= r < all && *members[r] == id);
            }
        }
        assert forall|id: i64| #[trigger] listed(due, id) implies self.wanted(
            from,
            to,
            entries,
            position + 1,
            none,
            0,
            id,
        ) by {
            assert(self.wanted(from, to, entries, position, members, all, id));
        }
    }

    /// The walk passes by a bucket that is not due.
    proof fn lemma_collected_bucket_skipped(
        &self,
        from: i64,
        to: i64,
        entries: Seq<(&i64, &HashSet<i64>)>,
        position: int,
        due: Seq<Arc<Item>>,
    )
        requires
            0 <= position < entries.len(),
            !is_due(*entries[position].0 as int, from as int, to as int),
            self.collected(from, to, entries, position, Seq::empty(), 0, due),
        ensures
            self.collected(from, to, entries, position + 1, Seq::empty(), 0, due),
    {
        let none = Seq::<&i64>::empty();
        assert forall|id: i64| #[trigger]
            self.wanted(from, to, entries, position, none, 0, id) implies self.wanted(
            from,
            to,
            entries,
            position + 1,
            none,
            0,
            id,
        ) by {
            assert(!among_ids(none, 0, id));
            let p = choose|p: int|
                0 <= p < position && *(#[trigger] entries[p]).0 == self@[id].interval();
            assert(0 <= p < position + 1 && *entries[p].0 == self@[id].interval());
        }
        assert forall|id: i64| #[trigger]
            self.wanted(from, to, entries, position + 1, none, 0, id) implies self.wanted(
            from,
            to,
            entries,
            position,
            none,
            0,
            id,
        ) by {
            assert(!among_ids(none, 0, id));
            let p = choose|p: int|
                0 <= p < position + 1 && *(#[trigger] entries[p]).0 == self@[id].interval();
            assert(p < position);
        }
        assert forall|id: i64| #[trigger] listed(due, id) implies self.wanted(
            from,
            to,
            entries,
            position + 1,
            none,
            0,
            id,
        ) by {
            assert(self.wanted(from, to, entries, position, none, 0, id));
        }
    }

    /// The walk enters a bucket: none of its members is collected yet.
    proof fn lemma_collected_bucket_entered(
        &self,
        from: i64,
        to: i64,
        entries: Seq<(&i64, &HashSet<i64>)>,
        position: int,
        members: Seq<&i64>,
        due: Seq<Arc<Item>>,
    )
        requires
            self.collected(from, to, entries, position, Seq::empty(), 0, due),
        ensures
            self.collected(from, to, entries, position, members, 0, due),
    {
        let none = Seq::<&i64>::empty();
        assert forall|id: i64| #[trigger]
            self.wanted(from, to, entries, position, members, 0, id) implies self.wanted(
            from,
            to,
            entries,
            position,
            none,
            0,
            id,
        ) by {
            assert(!among_ids(members, 0, id));
        }
        assert forall|id: i64| #[trigger] listed(due, id) implies self.wanted(
            from,
            to,
            entries,
            position,
            members,
            0,
            id,
        ) by {
            assert(self.wanted(from, to, entries, position, none, 0, id));
            assert(!among_ids(none, 0, id));
        }
    }

    /// A walk that is through with every bucket has collected the due
    /// items.
    proof fn lemma_collected_all(
        &self,
        from: i64,
        to: i64,
        entries: Seq<(&i64, &HashSet<i64>)>,
        due: Seq<Arc<Item>>,
    )
        requires
            self.well_formed(),
            entries == spec_hash_map_iter(&self.intervals).remaining(),
            self.collected(from, to, entries, entries.len() as int, Seq::empty(), 0, due),
        ensures
            lists_due(self@, from as int, to as int, due),
    {
        let none = Seq::<&i64>::empty();
        let all = entries.len() as int;
        axiom_spec_hash_map_iter(&self.intervals);
        assert forall|i: int| 0 <= i < due.len() implies is_due(
            (#[trigger] due[i]).interval() as int,
            from as int,
            to as int,
        ) by {
            assert(listed(due, due[i].id()));
            assert(self.wanted(from, to, entries, all, none, 0, due[i].id()));
        }
        assert forall|id: i64| #[trigger]
            self@.contains_key(id) && is_due(
                self@[id].interval() as int,
                from as int,
                to as int,
            ) implies exists|i: int| 0 <= i < due.len() && (#[trigger] due[i]).id() == id by {
            let interval = self@[id].interval();
            assert(self.intervals().contains_key(interval));
            assert(self.intervals@.contains_key(interval));
            let entry = (&interval, &self.intervals@[interval]);
            assert(entries.contains(entry));
            let p = choose|p: int| 0 <= p < entries.len() && entries[p] == entry;
            assert(0 <= p < all && *entries[p].0 == interval);
            assert(self.wanted(from, to, entries, all, none, 0, id));
            assert(listed(due, id));
        }
    }

    /// Gets the items that are due in the window from `from` to `to`, see
    /// [`is_due`], in no particular order.
    pub fn get_due(&self, from: i64, to: i64) -> (due: Vec<Arc<Item>>)
        requires
            self.well_formed(),
        ensures
            lists_due(self@, from as int, to as int, due@),
    {
        let mut due: Vec<Arc<Item>> = Vec::new();
        let buckets = self.intervals.iter();
        let ghost entries = buckets.remaining();
        proof {
            axiom_spec_hash_map_iter(&self.intervals);
        }
        for entry in it: buckets
            invariant
                self.well_formed(),
                it.seq() == entries,
                entries == spec_hash_map_iter(&self.intervals).remaining(),
                entries.no_duplicates(),
                self.collected(from, to, entries, it.index(), Seq::empty(), 0, due@),
        {
            let interval = *entry.0;
            let ids = entry.1;
            let ghost position = it.index();
            assert(entries[position] == entry);
            assert(self.intervals().contains_key(interval) && self.intervals()[interval] == ids@);
            if interval_is_due(interval, from, to) {
                let members = ids.iter();
                let ghost member_ids = members.remaining();
                proof {
                    axiom_spec_hash_keys_iter(ids);
                    self.lemma_collected_bucket_entered(
                        from,
                        to,
                        entries,
                        position,
                        member_ids,
                        due@,
                    );
                }
                for id in jt: members
                    invariant
                        self.well_formed(),
                        0 <= position < entries.len(),
                        entries.no_duplicates(),
                        entries == spec_hash_map_iter(&self.intervals).remaining(),
                        *entries[position].0 == interval,
                        self.intervals().contains_key(interval),
                        self.intervals()[interval] == ids@,
                        is_due(interval as int, from as int, to as int),
                        jt.seq() == member_ids,
                        member_ids == spec_hash_keys_iter(ids).remaining(),
                        member_ids.no_duplicates(),
                        member_ids.unref().to_set() == ids@,
                        self.collected(from, to, entries, position, member_ids, jt.index(), due@),
                {
                    let ghost before = due@;
                    assert(member_ids[jt.index()] == id);
                    assert(ids@.contains(*id)) by {
                        assert(member_ids.unref()[jt.index()] == *id);
                    }
                    match self.items.get(id) {
                        Some(item) => {
                            due.push(share(item));
                            proof {
                                self.lemma_collected_one_more(
                                    from,
                                    to,
                                    entries,
                                    position,
                                    member_ids,
                                    jt.index(),
                                    before,
                                    due@,
                                );
                            }
                        },
                        None => {
                            assert(self@.contains_key(*id));
                            assert(false);
                        },
                    }
                }
                proof {
                    self.lemma_collected_bucket_done(
                        from,
                        to,
                        entries,
                        position,
                        member_ids,
                        due@,
                    );
                }
            } else {
                proof {
                    self.lemma_collected_bucket_skipped(from, to, entries, position, due@);
                }
            }
        }
        proof {
            self.lemma_collected_all(from, to, entries, due@);
        }
        due
    }

    /// Removes an item by `id` from the schedule if it exists.
    pub fn remove(&mut self, id: i64)
        requires
            old(self).well_formed(),
        ensures
            final(self).well_formed(),
            final(self)@ == old(self)@.remove(id),
    {
        match self.items.remove(&id) {
            Some(item) => {
                let interval = item.get_interval();
                assert(old(self)@.contains_key(id) && old(self)@[id] == *item);
                assert(old(self).intervals().contains_key(interval));
                match self.intervals.remove(&interval) {
                    Some(ids) => {
                        let mut ids = ids;
                        assert(ids@ == old(self).intervals()[interval]);
                        ids.remove(&id);
                        let ghost rest = ids@;
                        if !ids.is_empty() {
                            self.intervals.insert(interval, ids);
                        }
                        proof {
                            assert(rest == old(self).intervals()[interval].remove(id));
                            assert(!rest.is_empty() ==> exists|other: i64| rest.contains(other)) by {
                                if !rest.is_empty() {
                                    vstd::set_lib::axiom_is_empty(rest);
                                }
                            }
                            assert(self.intervals().contains_key(interval) <==> !rest.is_empty());
                            assert(self.intervals().contains_key(interval)
                                ==> self.intervals()[interval] == rest);
                            assert forall|k: i64| k != interval implies (
                            self.intervals().contains_key(k) <==> old(self).intervals().contains_key(
                                k,
                            )) && (self.intervals().contains_key(k) ==> self.intervals()[k] == old(
                                self,
                            ).intervals()[k]) by {}
                            assert forall|other: i64| #[trigger]
                                self@.contains_key(other) implies other != id && old(
                                self,
                            )@.contains_key(other) && self@[other] == old(self)@[other] by {}
                            assert forall|other: i64| #[trigger]
                                self@.contains_key(other) implies self.intervals().contains_key(
                                self@[other].interval(),
                            ) && self.intervals()[self@[other].interval()].contains(other) by {
                                assert(old(self)@.contains_key(other));
                                if self@[other].interval() == interval {
                                    assert(rest.contains(other));
                                }
                            }
                            assert forall|k: i64, other: i64|
                                self.intervals().contains_key(k) && #[trigger] self.intervals()[k].contains(
                                    other,
                                ) implies self@.contains_key(other) && self@[other].interval()
                                == k by {
                                assert(old(self).intervals().contains_key(k));
                                assert(old(self).intervals()[k].contains(other));
                                assert(old(self)@.contains_key(other));
                                if other == id {
                                    assert(k == interval);
                                }
                            }
                            assert forall|k: i64| #[trigger]
                                self.intervals().contains_key(k) implies exists|other: i64|
                                self.intervals()[k].contains(other) by {
                                if k == interval {
                                    let other = choose|other: i64| rest.contains(other);
                                    assert(self.intervals()[k].contains(other));
                                } else {
                                    assert(old(self).intervals().contains_key(k));
                                    let other = choose|other: i64|
                                        old(self).intervals()[k].contains(other);
                                    assert(self.intervals()[k].contains(other));
                                }
                            }
                        }
                    },
                    None => {
                        assert(false);
                    },
                }
            },
            None => {
                assert(self.intervals() =~= old(self).intervals());
                assert(self@ =~= old(self)@);
            },
        }
        assert(self@ =~= old(self)@.remove(id));
    }

    /// Inserts an item into the schedule.
    ///
    /// An item that was registered under the same identifier is replaced,
    /// its interval with it.
    pub fn insert(&mut self, item: Item)
        requires
            old(self).well_formed(),
        ensures
            final(self).well_formed(),
            final(self)@ == old(self)@.insert(item.id(), item),
    {
        let id = item.get_id();
        let interval = item.get_interval();
        self.remove(id);
        let ghost before = *self;
        let mut ids = match self.intervals.remove(&interval) {
            Some(ids) => ids,
            None => HashSet::new(),
        };
        ids.insert(id);
        let ghost bucket = ids@;
        self.intervals.insert(interval, ids);
        let shared = Arc::new(item);
        self.items.insert(id, shared);
        proof {
            assert(bucket == if before.intervals().contains_key(interval) {
                before.intervals()[interval].insert(id)
            } else {
                Set::<i64>::empty().insert(id)
            });
            assert(self.intervals().contains_key(interval) && self.intervals()[interval]
                == bucket);
            assert forall|k: i64| k != interval implies (self.intervals().contains_key(k)
                <==> before.intervals().contains_key(k)) && (self.intervals().contains_key(k)
                ==> self.intervals()[k] == before.intervals()[k]) by {}
            assert(self@.contains_key(id) && self@[id] == item);
            assert forall|other: i64| other != id implies (self@.contains_key(other)
                <==> before@.contains_key(other)) && (self@.contains_key(other) ==> self@[other]
                == before@[other]) by {}
            assert(before@ == old(self)@.remove(id));
            assert forall|other: i64|
                #[trigger] self@.contains_key(other) == old(self)@.insert(
                    id,
                    item,
                ).contains_key(other) && (self@.contains_key(other) ==> self@[other] == old(
                    self,
                )@.insert(id, item)[other]) by {
                if other != id {
                    assert(before@.contains_key(other) == old(self)@.contains_key(other));
                }
            }
            assert(self@ =~= old(self)@.insert(item.id(), item));
            assert forall|other: i64| #[trigger] self@.contains_key(other) implies self@[other].id()
                == other by {
                if other != id {
                    assert(before@.contains_key(other));
                }
            }
            assert forall|other: i64| #[trigger]
                self@.contains_key(other) implies self.intervals().contains_key(
                self@[other].interval(),
            ) && self.intervals()[self@[other].interval()].contains(other) by {
                if other != id {
                    assert(before@.contains_key(other));
                    assert(before.intervals()[before@[other].interval()].contains(other));
                }
            }
            assert forall|k: i64, other: i64|
                self.intervals().contains_key(k) && #[trigger] self.intervals()[k].contains(
                    other,
                ) implies self@.contains_key(other) && self@[other].interval() == k by {
                if other == id {
                    if k != interval {
                        assert(before.intervals()[k].contains(id));
                        assert(before@.contains_key(id));
                    }
                } else {
                    assert(before.intervals().contains_key(k));
                    assert(before.intervals()[k].contains(other));
                }
            }
            assert forall|k: i64| #[trigger] self.intervals().contains_key(k) implies exists|
                other: i64,
            |
                self.intervals()[k].contains(other) by {
                if k == interval {
                    assert(self.intervals()[k].contains(id));
                } else {
                    let other = choose|other: i64| before.intervals()[k].contains(other);
                    assert(self.intervals()[k].contains(other));
                }
            }
        }
    }
}

} // verus!
