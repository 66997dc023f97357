//! When an interval is due.

use vstd::prelude::*;

verus! {

/// The `n`-th firing point of an item polled every `interval` seconds.
pub open spec fn firing_point(interval: int, n: int) -> int {
    n * interval
}

/// Whether some firing point of `interval` lies in the window `(from, to]`.
pub open spec fn fires_within(interval: int, from: int, to: int) -> bool {
    exists|n: int| from < #[trigger] firing_point(interval, n) <= to
}

/// Whether `at` is itself a firing point of `interval`.
pub open spec fn fires_at(interval: int, at: int) -> bool {
    exists|n: int| #[trigger] firing_point(interval, n) == at
}

/// Whether an item polled every `interval` seconds is due in the window
/// from `from` to `to`.
///
/// The window is half-open, `(from, to]`, and empty where `to` lies before
/// `from`. A window that has shrunk to a single instant, `from == to`, asks
/// whether that instant itself is a firing point.
pub open spec fn is_due(interval: int, from: int, to: int) -> bool {
    if from == to {
        fires_at(interval, to)
    } else {
        fires_within(interval, from, to)
    }
}

/// A multiple of `interval` lies in `(from, to]` exactly if `to` holds more
/// whole intervals than `from` does.
pub proof fn lemma_fires_within_by_quotients(interval: int, from: int, to: int)
    requires
        interval > 0,
    ensures
        fires_within(interval, from, to) <==> from / interval < to / interval,
{
    let low = from / interval;
    let high = to / interval;
    assert(from == interval * low + from % interval && 0 <= from % interval < interval) by {
        vstd::arithmetic::div_mod::lemma_fundamental_div_mod(from, interval);
        vstd::arithmetic::div_mod::lemma_mod_bound(from, interval);
    }
    assert(to == interval * high + to % interval && 0 <= to % interval < interval) by {
        vstd::arithmetic::div_mod::lemma_fundamental_div_mod(to, interval);
        vstd::arithmetic::div_mod::lemma_mod_bound(to, interval);
    }
    if fires_within(interval, from, to) {
        let n = choose|n: int| from < #[trigger] firing_point(interval, n) <= to;
        assert(low < high) by (nonlinear_arith)
            requires
                interval > 0,
                from < n * interval <= to,
                from == interval * low + from % interval,
                to == interval * high + to % interval,
                0 <= from % interval < interval,
                0 <= to % interval < interval,
        {
            if low >= n {
                assert(interval * low >= interval * n);
            }
            if high < n {
                assert(interval * (high + 1) <= interval * n);
            }
        }
    }
    if low < high {
        assert(from < firing_point(interval, high) <= to) by (nonlinear_arith)
            requires
                interval > 0,
                low < high,
                from == interval * low + from % interval,
                to == interval * high + to % interval,
                0 <= from % interval < interval,
                0 <= to % interval < interval,
                firing_point(interval, high) == high * interval,
        {
            assert(interval * (low + 1) <= interval * high);
        }
    }
}

/// An instant is a firing point exactly if the interval divides it.
pub proof fn lemma_fires_at_by_remainder(interval: int, at: int)
    requires
        interval > 0,
    ensures
        fires_at(interval, at) <==> at % interval == 0,
{
    if fires_at(interval, at) {
        let n = choose|n: int| #[trigger] firing_point(interval, n) == at;
        assert(at % interval == 0) by {
            vstd::arithmetic::div_mod::lemma_mod_multiples_basic(n, interval);
        }
    }
    if at % interval == 0 {
        assert(firing_point(interval, at / interval) == at) by {
            vstd::arithmetic::div_mod::lemma_fundamental_div_mod(at, interval);
            assert(interval * (at / interval) == (at / interval) * interval) by (nonlinear_arith);
        }
    }
}

/// The firing points of an interval of zero seconds are the instant zero
/// alone.
pub proof fn lemma_zero_interval(from: int, to: int)
    ensures
        fires_within(0, from, to) <==> from < 0 <= to,
        fires_at(0, to) <==> to == 0,
{
    assert(forall|n: int| #[trigger] firing_point(0, n) == 0);
    if from < 0 <= to {
        assert(from < firing_point(0, 0) <= to);
    }
    if to == 0 {
        assert(firing_point(0, 0) == to);
    }
}

/// An interval counted backwards has the firing points of the same interval
/// counted forwards.
pub proof fn lemma_negated_interval(interval: int, from: int, to: int)
    ensures
        fires_within(-interval, from, to) <==> fires_within(interval, from, to),
        fires_at(-interval, to) <==> fires_at(interval, to),
{
    assert forall|n: int| firing_point(-interval, -n) == #[trigger] firing_point(interval, n) by {
        assert((-n) * (-interval) == n * interval) by (nonlinear_arith);
    }
    assert forall|n: int| firing_point(interval, -n) == #[trigger] firing_point(-interval, n) by {
        assert((-n) * interval == n * (-interval)) by (nonlinear_arith);
    }
    if fires_within(interval, from, to) {
        let n = choose|n: int| from < #[trigger] firing_point(interval, n) <= to;
        assert(from < firing_point(-interval, -n) <= to);
    }
    if fires_within(-interval, from, to) {
        let n = choose|n: int| from < #[trigger] firing_point(-interval, n) <= to;
        assert(from < firing_point(interval, -n) <= to);
    }
    if fires_at(interval, to) {
        let n = choose|n: int| #[trigger] firing_point(interval, n) == to;
        assert(firing_point(-interval, -n) == to);
    }
    if fires_at(-interval, to) {
        let n = choose|n: int| #[trigger] firing_point(-interval, n) == to;
        assert(firing_point(interval, -n) == to);
    }
}

/// Away from the one-instant window on a firing point, an item is due
/// exactly if some multiple of its interval is greater than `from` and at
/// most `to`.
///
/// On a one-instant window the two sides differ when the instant is a
/// firing point: the item is due although `(from, to]` is empty.
pub proof fn lemma_due_iff_multiple_in_window(interval: int, from: int, to: int)
    requires
        !(from == to && fires_at(interval, to)),
    ensures
        is_due(interval, from, to) <==> exists|n: int|
            #[trigger] firing_point(interval, n) > from && firing_point(interval, n) <= to,
{
    if from != to && is_due(interval, from, to) {
        let n = choose|n: int| from < #[trigger] firing_point(interval, n) <= to;
        assert(firing_point(interval, n) > from && firing_point(interval, n) <= to);
    }
}

/// The number of whole intervals up to `at`: the quotient rounded down.
fn whole_intervals(interval: i128, at: i128) -> (count: i128)
    requires
        0 < interval <= 0x8000_0000_0000_0000,
        -0x8000_0000_0000_0000 <= at < 0x8000_0000_0000_0000,
    ensures
        count == at as int / interval as int,
{
    if at >= 0 {
        at / interval
    } else {
        let below: i128 = -(at + 1);
        let count: i128 = -(below / interval) - 1;
        assert(count == at as int / interval as int) by (nonlinear_arith)
            requires
                interval > 0,
                at < 0,
                below == -(at + 1),
                count == -(below as int / interval as int) - 1,
        {
            let q = below as int / interval as int;
            let r = below as int % interval as int;
            assert(below == interval * q + r && 0 <= r < interval);
            assert(at == interval * (-q - 1) + (interval - 1 - r));
            assert(0 <= interval - 1 - r < interval);
            let p = at as int / interval as int;
            let s = at as int % interval as int;
            assert(at == interval * p + s && 0 <= s < interval);
            assert(interval * (p - (-q - 1)) == (interval - 1 - r) - s);
            if p > -q - 1 {
                assert(interval * (p - (-q - 1)) >= interval);
            }
            if p < -q - 1 {
                assert(interval * (p - (-q - 1)) <= -interval);
            }
        }
        count
    }
}

/// Whether `interval` divides `at`.
fn divides(interval: i128, at: i128) -> (exact: bool)
    requires
        0 < interval <= 0x8000_0000_0000_0000,
        -0x8000_0000_0000_0000 <= at < 0x8000_0000_0000_0000,
    ensures
        exact == (at as int % interval as int == 0),
{
    if at >= 0 {
        at % interval == 0
    } else {
        let below: i128 = -(at + 1);
        let rest: i128 = below % interval;
        assert((rest == interval - 1) == (at as int % interval as int == 0)) by (nonlinear_arith)
            requires
                interval > 0,
                at < 0,
                below == -(at + 1),
                rest == below as int % interval as int,
        {
            let q = below as int / interval as int;
            assert(below == interval * q + rest && 0 <= rest < interval);
            let p = at as int / interval as int;
            let s = at as int % interval as int;
            assert(at == interval * p + s && 0 <= s < interval);
            assert(interval * (p + q + 1) == (interval - 1 - rest) - s);
            if p + q + 1 > 0 {
                assert(interval * (p + q + 1) >= interval);
            }
            if p + q + 1 < 0 {
                assert(interval * (p + q + 1) <= -interval);
            }
        }
        rest == interval - 1
    }
}

/// Decides whether an item polled every `interval` seconds is due in the
/// window from `from` to `to`.
///
/// Every interval has an answer: one of zero seconds fires at the instant
/// zero alone, a negative one where its positive counterpart does.
pub fn interval_is_due(interval: i64, from: i64, to: i64) -> (due: bool)
    ensures
        due == is_due(interval as int, from as int, to as int),
{
    if interval == 0 {
        proof {
            lemma_zero_interval(from as int, to as int);
        }
        if from == to {
            to == 0
        } else {
            from < 0 && 0 <= to
        }
    } else {
        let span: i128 = if interval < 0 {
            -(interval as i128)
        } else {
            interval as i128
        };
        proof {
            if interval < 0 {
                lemma_negated_interval(interval as int, from as int, to as int);
            }
            lemma_fires_within_by_quotients(span as int, from as int, to as int);
            lemma_fires_at_by_remainder(span as int, to as int);
        }
        if from == to {
            divides(span, to as i128)
        } else {
            whole_intervals(span, from as i128) < whole_intervals(span, to as i128)
        }
    }
}

} // verus!
