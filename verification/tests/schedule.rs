use std::sync::Arc;

use limon_core::schedule::{interval_is_due, Schedulable, Schedule};

#[derive(Debug, PartialEq)]
struct Task {
    id: i64,
    interval: i64,
    updated: bool,
}

impl From<(i64, i64)> for Task {
    fn from(args: (i64, i64)) -> Self {
        Task {
            id: args.0,
            interval: args.1,
            updated: false,
        }
    }
}

impl Schedulable for Task {
    fn id(&self) -> i64 {
        self.id
    }

    fn interval(&self) -> i64 {
        self.interval
    }

    fn get_id(&self) -> i64 {
        self.id
    }

    fn get_interval(&self) -> i64 {
        self.interval
    }
}

fn due_ids(schedule: &Schedule<Task>, from: i64, to: i64) -> Vec<i64> {
    let mut ids: Vec<i64> = schedule.get_due(from, to).iter().map(|t| t.id).collect();
    ids.sort();
    ids
}

#[test]
fn empty_schedule() {
    let schedule: Schedule<Task> = Schedule::new();

    assert!(
        schedule.items_ref().is_empty(),
        "schedule items shouldn't be empty"
    );
    assert!(
        schedule.intervals_ref().is_empty(),
        "schedule intervals shouldn't be empty"
    );
}

#[test]
fn test_empty_schedule() {
    let schedule: Schedule<Task> = Schedule::new();

    assert!(
        schedule.get_due(1, 100).is_empty(),
        "empty schedule shouldn't return due items"
    );
}

#[test]
fn get_due_on_boundary() {
    let mut schedule: Schedule<Task> = Schedule::new();

    schedule.insert(Task::from((1, 10)));

    assert_eq!(
        schedule.get_due(1, 10).len(),
        1,
        "schedule should return item on boundary"
    );
    assert_eq!(
        schedule.get_due(10, 10).len(),
        1,
        "schedule should return item on boundary equals"
    );
}

#[test]
fn get_due_before_boundary() {
    let mut schedule: Schedule<Task> = Schedule::new();

    schedule.insert(Task::from((1, 10)));

    assert!(
        schedule.get_due(1, 9).is_empty(),
        "schedule shouldn't return due items before boundary"
    );
}

#[test]
fn test_multiple_intervals() {
    let mut schedule: Schedule<Task> = Schedule::new();

    schedule.insert(Task::from((1, 5)));
    schedule.insert(Task::from((2, 10)));

    let ids: Vec<i64> = schedule.get_due(1, 10).iter().map(|t| t.id).collect();

    assert!(
        ids.contains(&1),
        "schedule should return item with interval 5"
    );
    assert!(
        ids.contains(&2),
        "schedule should return item with interval 10"
    );
}

#[test]
fn test_skip_multiple_intervals() {
    let mut schedule: Schedule<Task> = Schedule::new();

    schedule.insert(Task::from((1, 10)));

    assert_eq!(
        schedule.get_due(1, 35).len(),
        1,
        "schedule should return due item even if multiple intervals were passed"
    );
}

#[test]
fn insert_single_item_into_schedule() {
    let mut schedule: Schedule<Task> = Schedule::new();

    schedule.insert(Task::from((1, 30)));

    assert!(
        schedule.items_ref().contains_key(&1),
        "schedule items should contain entry"
    );
    assert!(
        schedule.intervals_ref().contains_key(&30),
        "schedule intervals should contain entry"
    );
    assert_eq!(
        schedule.get(1),
        Some(Arc::new(Task::from((1, 30)))),
        "schedule should return entry by id"
    );
}

#[test]
fn insert_multiple_items_into_schedule() {
    let mut schedule: Schedule<Task> = Schedule::new();

    schedule.insert(Task::from((1, 30)));
    schedule.insert(Task::from((2, 30)));

    assert!(
        schedule.items_ref().contains_key(&1),
        "schedule items should contain entry"
    );
    assert!(
        schedule.items_ref().contains_key(&2),
        "schedule items should contain entry"
    );
    assert!(
        schedule.intervals_ref().contains_key(&30),
        "schedule intervals should contain entry"
    );
    assert_eq!(
        schedule.get(1),
        Some(Arc::new(Task::from((1, 30)))),
        "schedule should return entry by id"
    );
    assert_eq!(
        schedule.get(2),
        Some(Arc::new(Task::from((2, 30)))),
        "schedule should return entry by id"
    );
}

#[test]
fn insert_the_sane_item_twice() {
    let mut schedule: Schedule<Task> = Schedule::new();

    schedule.insert(Task::from((1, 30)));
    schedule.insert(Task::from((1, 30)));

    assert_eq!(
        schedule.items_ref().len(),
        1,
        "schedule items shouldn't be empty"
    );
    assert_eq!(
        schedule.intervals_ref().len(),
        1,
        "schedule intervals shouldn't be empty"
    );
}

#[test]
fn remove_item_from_schedule() {
    let mut schedule: Schedule<Task> = Schedule::new();

    schedule.insert(Task::from((1, 30)));
    schedule.remove(1);

    assert!(
        schedule.items_ref().is_empty(),
        "schedule items should be empty"
    );
    assert!(
        schedule.intervals_ref().is_empty(),
        "schedule intervals should be empty"
    );
}

#[test]
fn get_of_absent_id_is_none() {
    let mut schedule: Schedule<Task> = Schedule::new();

    schedule.insert(Task::from((1, 30)));

    assert_eq!(schedule.get(2), None);
}

#[test]
fn remove_of_absent_id_changes_nothing() {
    let mut schedule: Schedule<Task> = Schedule::new();

    schedule.insert(Task::from((1, 30)));
    schedule.remove(2);

    assert_eq!(schedule.items_ref().len(), 1);
    assert_eq!(schedule.intervals_ref().len(), 1);
    assert_eq!(schedule.get(1), Some(Arc::new(Task::from((1, 30)))));
}

#[test]
fn due_windows_of_one_interval() {
    let mut schedule: Schedule<Task> = Schedule::new();

    schedule.insert(Task::from((1, 10)));

    assert_eq!(due_ids(&schedule, 0, 10), vec![1]);
    assert_eq!(due_ids(&schedule, 0, 9), Vec::<i64>::new());
    assert_eq!(due_ids(&schedule, 10, 10), vec![1]);
    assert_eq!(due_ids(&schedule, 0, 35), vec![1]);
}

#[test]
fn due_window_is_open_at_its_start() {
    let mut schedule: Schedule<Task> = Schedule::new();

    schedule.insert(Task::from((1, 10)));

    assert_eq!(due_ids(&schedule, 10, 19), Vec::<i64>::new());
    assert_eq!(due_ids(&schedule, 10, 20), vec![1]);
    assert_eq!(due_ids(&schedule, 9, 10), vec![1]);
    assert_eq!(due_ids(&schedule, 9, 9), Vec::<i64>::new());
    assert_eq!(due_ids(&schedule, 0, 0), vec![1]);
}

#[test]
fn narrow_window_that_straddles_a_multiple_is_due() {
    assert!(interval_is_due(60, 59, 61));
    assert!(!interval_is_due(60, 61, 119));
    assert!(interval_is_due(60, 61, 120));
    assert!(interval_is_due(1, 4, 5));
    assert!(interval_is_due(7, i64::MAX - 7, i64::MAX));
}

#[test]
fn windows_before_zero_and_empty_windows() {
    assert!(interval_is_due(10, -10, 0));
    assert!(interval_is_due(10, -1, 0));
    assert!(!interval_is_due(10, -5, -1));
    assert!(interval_is_due(10, -11, -10));
    assert!(!interval_is_due(10, -10, -1));
    assert!(interval_is_due(10, -10, -10));
    assert!(!interval_is_due(10, -7, -7));
    assert!(!interval_is_due(10, 20, 5));
    assert!(!interval_is_due(10, 20, 10));
    assert!(interval_is_due(3, i64::MIN, i64::MAX));
    assert!(!interval_is_due(i64::MAX, i64::MIN, -i64::MAX - 1));
    assert!(interval_is_due(i64::MAX, i64::MIN, -i64::MAX));
}

#[test]
fn intervals_that_are_not_positive() {
    assert!(interval_is_due(0, -1, 0));
    assert!(interval_is_due(0, -5, 5));
    assert!(interval_is_due(0, 0, 0));
    assert!(!interval_is_due(0, 0, 5));
    assert!(!interval_is_due(0, 1, 5));
    assert!(!interval_is_due(0, 3, 3));
    assert!(!interval_is_due(0, -5, -1));

    assert!(interval_is_due(-10, 0, 10));
    assert!(!interval_is_due(-10, 0, 9));
    assert!(interval_is_due(-10, 10, 10));
    assert!(!interval_is_due(-10, 10, 19));
    assert!(interval_is_due(-10, -11, -10));

    assert!(interval_is_due(i64::MIN, -1, 0));
    assert!(interval_is_due(i64::MIN, i64::MIN, i64::MIN));
    assert!(!interval_is_due(i64::MIN, 0, i64::MAX));
    assert!(!interval_is_due(i64::MIN, i64::MIN, -1));
}

#[test]
fn items_with_any_interval_are_kept() {
    let mut schedule: Schedule<Task> = Schedule::new();

    schedule.insert(Task::from((1, 0)));
    schedule.insert(Task::from((2, -10)));
    schedule.insert(Task::from((3, 10)));

    assert_eq!(schedule.items_ref().len(), 3);
    assert_eq!(schedule.intervals_ref().len(), 3);
    assert_eq!(due_ids(&schedule, 0, 10), vec![2, 3]);
    assert_eq!(due_ids(&schedule, -1, 0), vec![1, 2, 3]);
    assert_eq!(due_ids(&schedule, 1, 9), Vec::<i64>::new());

    schedule.insert(Task::from((1, 10)));

    assert!(!schedule.intervals_ref().contains_key(&0));
    assert_eq!(due_ids(&schedule, 0, 10), vec![1, 2, 3]);
}

#[test]
fn due_items_of_a_bucket_all_come_once() {
    let mut schedule: Schedule<Task> = Schedule::new();

    schedule.insert(Task::from((1, 10)));
    schedule.insert(Task::from((2, 10)));
    schedule.insert(Task::from((3, 10)));
    schedule.insert(Task::from((4, 7)));
    schedule.insert(Task::from((5, 100)));

    assert_eq!(due_ids(&schedule, 7, 10), vec![1, 2, 3]);
    assert_eq!(due_ids(&schedule, 0, 20), vec![1, 2, 3, 4]);
    assert_eq!(due_ids(&schedule, 95, 100), vec![1, 2, 3, 4, 5]);
}

#[test]
fn insert_with_another_interval_moves_the_identifier() {
    let mut schedule: Schedule<Task> = Schedule::new();

    schedule.insert(Task::from((1, 30)));
    schedule.insert(Task::from((2, 30)));
    schedule.insert(Task::from((1, 60)));

    assert_eq!(schedule.items_ref().len(), 2);
    assert_eq!(schedule.get(1), Some(Arc::new(Task::from((1, 60)))));
    assert_eq!(schedule.intervals_ref().len(), 2);
    assert!(!schedule.intervals_ref()[&30].contains(&1));
    assert!(schedule.intervals_ref()[&30].contains(&2));
    assert!(schedule.intervals_ref()[&60].contains(&1));
    assert_eq!(due_ids(&schedule, 0, 30), vec![2]);

    schedule.insert(Task::from((2, 60)));

    assert!(
        !schedule.intervals_ref().contains_key(&30),
        "a bucket that lost its last identifier is gone"
    );
    assert_eq!(schedule.intervals_ref()[&60].len(), 2);
}

#[test]
fn insert_replaces_the_item() {
    let mut schedule: Schedule<Task> = Schedule::new();

    schedule.insert(Task::from((1, 30)));
    schedule.insert(Task {
        id: 1,
        interval: 30,
        updated: true,
    });

    assert_eq!(schedule.items_ref().len(), 1);
    assert_eq!(schedule.intervals_ref()[&30].len(), 1);
    assert!(schedule.get(1).unwrap().updated);
}

#[test]
fn remove_prunes_only_an_emptied_bucket() {
    let mut schedule: Schedule<Task> = Schedule::new();

    schedule.insert(Task::from((1, 30)));
    schedule.insert(Task::from((2, 30)));
    schedule.insert(Task::from((3, 60)));
    schedule.remove(1);

    assert!(schedule.intervals_ref().contains_key(&30));
    assert_eq!(schedule.intervals_ref()[&30].len(), 1);

    schedule.remove(2);

    assert!(!schedule.intervals_ref().contains_key(&30));
    assert!(schedule.intervals_ref().contains_key(&60));
    assert_eq!(schedule.items_ref().len(), 1);
}

#[test]
fn identifiers_and_buckets_agree_after_many_operations() {
    let mut schedule: Schedule<Task> = Schedule::new();

    for step in 0..200i64 {
        let id = (step * 7) % 23;
        if step % 3 == 2 {
            schedule.remove(id);
        } else {
            schedule.insert(Task::from((id, 1 + (step % 5))));
        }

        let mut in_buckets: Vec<i64> = Vec::new();
        for (interval, ids) in schedule.intervals_ref().iter() {
            assert!(!ids.is_empty());
            for id in ids.iter() {
                assert_eq!(schedule.get(*id).unwrap().interval, *interval);
                in_buckets.push(*id);
            }
        }
        in_buckets.sort();
        let mut in_items: Vec<i64> = schedule.items_ref().keys().copied().collect();
        in_items.sort();
        assert_eq!(in_buckets, in_items);
    }
}

#[test]
fn held_item_outlives_its_removal() {
    let mut schedule: Schedule<Task> = Schedule::new();

    schedule.insert(Task::from((1, 30)));
    let held = schedule.get(1).unwrap();
    schedule.remove(1);

    assert_eq!(*held, Task::from((1, 30)));
}
