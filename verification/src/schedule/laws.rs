//! What holds of every well-formed schedule, and of a schedule before and
//! after an insertion or a removal.

use vstd::prelude::*;

use crate::schedule::registry::{group_by_interval, Schedulable, Schedule};

verus! {

/// In a well-formed schedule the buckets are a function of the items: the
/// identifiers grouped by the interval of their item.
pub proof fn lemma_buckets_follow_items<Item: Schedulable>(schedule: Schedule<Item>)
    requires
        schedule.well_formed(),
    ensures
        schedule.intervals() == group_by_interval(schedule@),
{
    let buckets = schedule.intervals();
    let grouped = group_by_interval(schedule@);
    assert forall|k: i64| buckets.contains_key(k) <==> grouped.contains_key(k) by {
        if buckets.contains_key(k) {
            let id = choose|id: i64| buckets[k].contains(id);
            assert(buckets[k].contains(id));
            assert(crate::schedule::registry::ids_with_interval(schedule@, k).contains(id));
        }
        if grouped.contains_key(k) {
            let id = choose|id: i64|
                #[trigger] crate::schedule::registry::ids_with_interval(schedule@, k).contains(id);
            assert(schedule@.contains_key(id));
        }
    }
    assert forall|k: i64| #[trigger] buckets.contains_key(k) implies buckets[k] =~= grouped[k] by {
        assert forall|id: i64| buckets[k].contains(id) <==> grouped[k].contains(id) by {
            if grouped[k].contains(id) {
                assert(schedule@.contains_key(id));
            }
        }
    }
    assert(buckets =~= grouped);
}

/// The identifiers of the items are those of all the buckets together, and
/// no identifier stands in two buckets.
pub proof fn lemma_identifiers_match_buckets<Item: Schedulable>(schedule: Schedule<Item>)
    requires
        schedule.well_formed(),
    ensures
        forall|id: i64|
            schedule@.contains_key(id) <==> exists|k: i64|
                schedule.intervals().contains_key(k) && #[trigger] schedule.intervals()[k].contains(
                    id,
                ),
        forall|id: i64, k1: i64, k2: i64|
            schedule.intervals().contains_key(k1) && schedule.intervals().contains_key(k2)
                && #[trigger] schedule.intervals()[k1].contains(id)
                && #[trigger] schedule.intervals()[k2].contains(id) ==> k1 == k2,
{
    assert forall|id: i64| schedule@.contains_key(id) implies exists|k: i64|
        schedule.intervals().contains_key(k) && #[trigger] schedule.intervals()[k].contains(
            id,
        ) by {
        let k = schedule@[id].interval();
        assert(schedule.intervals().contains_key(k) && schedule.intervals()[k].contains(id));
    }
}

/// Inserting an item under an identifier that is already present, with
/// another interval, moves the identifier from the bucket of the old interval
/// to that of the new one. The old bucket loses nothing else, and it is gone
/// if the identifier was its only member.
pub proof fn lemma_replace_moves_identifier<Item: Schedulable>(
    before: Schedule<Item>,
    after: Schedule<Item>,
    item: Item,
)
    requires
        before.well_formed(),
        after.well_formed(),
        after@ == before@.insert(item.id(), item),
        before@.contains_key(item.id()),
        before@[item.id()].interval() != item.interval(),
    ensures
        after.intervals().contains_key(item.interval()),
        after.intervals()[item.interval()].contains(item.id()),
        ({
            let old_interval = before@[item.id()].interval();
            let old_bucket = before.intervals()[old_interval];
            if old_bucket == Set::<i64>::empty().insert(item.id()) {
                !after.intervals().contains_key(old_interval)
            } else {
                after.intervals().contains_key(old_interval) && after.intervals()[old_interval]
                    == old_bucket.remove(item.id())
            }
        }),
{
    let id = item.id();
    let old_interval = before@[id].interval();
    let old_bucket = before.intervals()[old_interval];
    assert(after@.contains_key(id) && after@[id] == item);
    assert(before.intervals().contains_key(old_interval) && old_bucket.contains(id));
    if old_bucket == Set::<i64>::empty().insert(id) {
        if after.intervals().contains_key(old_interval) {
            let other = choose|other: i64| after.intervals()[old_interval].contains(other);
            assert(after.intervals()[old_interval].contains(other));
            assert(after@.contains_key(other) && after@[other].interval() == old_interval);
            assert(other != id);
            assert(before@.contains_key(other) && before@[other] == after@[other]);
            assert(old_bucket.contains(other));
        }
    } else {
        assert(exists|other: i64| other != id && old_bucket.contains(other)) by {
            if forall|other: i64| old_bucket.contains(other) ==> other == id {
                assert(old_bucket =~= Set::<i64>::empty().insert(id));
            }
        }
        let other = choose|other: i64| other != id && old_bucket.contains(other);
        assert(before@.contains_key(other) && before@[other].interval() == old_interval);
        assert(after@.contains_key(other) && after@[other] == before@[other]);
        assert(after.intervals().contains_key(old_interval));
        assert forall|member: i64|
            after.intervals()[old_interval].contains(member) <==> old_bucket.remove(id).contains(
                member,
            ) by {
            if after.intervals()[old_interval].contains(member) {
                assert(after@.contains_key(member) && after@[member].interval() == old_interval);
                assert(member != id);
                assert(before@.contains_key(member) && before@[member] == after@[member]);
                assert(old_bucket.contains(member));
            }
            if old_bucket.remove(id).contains(member) {
                assert(old_bucket.contains(member));
                assert(before@.contains_key(member) && before@[member].interval() == old_interval);
                assert(after@.contains_key(member) && after@[member] == before@[member]);
            }
        }
        assert(after.intervals()[old_interval] =~= old_bucket.remove(id));
    }
}

/// Removing the only identifier under an interval removes that interval
/// from the buckets.
pub proof fn lemma_remove_last_prunes_bucket<Item: Schedulable>(
    before: Schedule<Item>,
    after: Schedule<Item>,
    id: i64,
)
    requires
        before.well_formed(),
        after.well_formed(),
        after@ == before@.remove(id),
        before@.contains_key(id),
        before.intervals()[before@[id].interval()] == Set::<i64>::empty().insert(id),
    ensures
        !after.intervals().contains_key(before@[id].interval()),
{
    let interval = before@[id].interval();
    if after.intervals().contains_key(interval) {
        let other = choose|other: i64| after.intervals()[interval].contains(other);
        assert(after.intervals()[interval].contains(other));
        assert(after@.contains_key(other) && after@[other].interval() == interval);
        assert(before@.contains_key(other) && before@[other] == after@[other]);
        assert(before.intervals()[interval].contains(other));
    }
}

/// Inserting the same item twice leaves what inserting it once leaves: one
/// entry under its identifier and the identifier once under its interval.
/// Into an empty schedule, that is all there is.
pub proof fn lemma_insert_twice_is_insert_once<Item: Schedulable>(
    before: Schedule<Item>,
    once: Schedule<Item>,
    twice: Schedule<Item>,
    item: Item,
)
    requires
        before.well_formed(),
        once.well_formed(),
        twice.well_formed(),
        once@ == before@.insert(item.id(), item),
        twice@ == once@.insert(item.id(), item),
    ensures
        twice@ == once@,
        twice.intervals() == once.intervals(),
        before@ == Map::<i64, Item>::empty() ==> twice@ == Map::<i64, Item>::empty().insert(
            item.id(),
            item,
        ) && twice.intervals() == Map::<i64, Set<i64>>::empty().insert(
            item.interval(),
            Set::<i64>::empty().insert(item.id()),
        ),
{
    assert(twice@ =~= once@);
    lemma_buckets_follow_items(once);
    lemma_buckets_follow_items(twice);
    if before@ == Map::<i64, Item>::empty() {
        let single = Map::<i64, Set<i64>>::empty().insert(
            item.interval(),
            Set::<i64>::empty().insert(item.id()),
        );
        assert(once@.contains_key(item.id()) && once@[item.id()] == item);
        assert(once.intervals().contains_key(item.interval()));
        assert forall|k: i64| once.intervals().contains_key(k) implies k == item.interval() by {
            let id = choose|id: i64| once.intervals()[k].contains(id);
            assert(once.intervals()[k].contains(id));
            assert(once@.contains_key(id));
        }
        assert forall|id: i64|
            once.intervals()[item.interval()].contains(id) <==> id == item.id() by {
            if once.intervals()[item.interval()].contains(id) {
                assert(once@.contains_key(id));
            }
        }
        assert(once.intervals()[item.interval()] =~= Set::<i64>::empty().insert(item.id()));
        assert(once.intervals() =~= single);
    }
}

} // verus!
