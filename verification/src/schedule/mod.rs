//! A registry of items that are polled at regular intervals.
//!
//! Every item has an identifier and an interval, see [`Schedulable`]. A
//! [`Schedule`] keeps the items by identifier and, beside them, the
//! identifiers grouped by interval, so that the question which items are due
//! within a window of time is answered per interval and not per item.

mod due;
mod laws;
mod registry;

pub use due::{
    fires_at, fires_within, firing_point, interval_is_due, is_due, lemma_due_iff_multiple_in_window,
    lemma_fires_at_by_remainder, lemma_fires_within_by_quotients, lemma_negated_interval,
    lemma_zero_interval,
};
pub use laws::{
    lemma_buckets_follow_items, lemma_identifiers_match_buckets, lemma_insert_twice_is_insert_once,
    lemma_remove_last_prunes_bucket, lemma_replace_moves_identifier,
};
pub use registry::{group_by_interval, ids_with_interval, lists_due, Schedulable, Schedule};
