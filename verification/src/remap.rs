//! Linear remapping of a batch's timestamps onto the target window.

use vstd::prelude::*;
use vstd::arithmetic::div_mod::{lemma_div_is_ordered, lemma_div_multiples_vanish};
use crate::instant::{lemma_nanos_since_ordered, Instant};

verus! {

/// Length of the target window: fifteen days, in seconds.
pub const WINDOW_SECONDS: i64 = 1_296_000;

/// Distance from the reference time back to the start of the window: twenty
/// days, in seconds.
pub const LOOKBACK_SECONDS: i64 = 1_728_000;

/// `m` occurs in `dates` and no instant of `dates` is earlier.
pub open spec fn is_earliest(dates: Seq<Instant>, m: Instant) -> bool {
    &&& exists|k: int| 0 <= k < dates.len() && dates[k] == m
    &&& forall|k: int| 0 <= k < dates.len() ==> m.at_or_before(#[trigger] dates[k])
}

/// `m` occurs in `dates` and no instant of `dates` is later.
pub open spec fn is_latest(dates: Seq<Instant>, m: Instant) -> bool {
    &&& exists|k: int| 0 <= k < dates.len() && dates[k] == m
    &&& forall|k: int| 0 <= k < dates.len() ==> (#[trigger] dates[k]).at_or_before(m)
}

/// The earliest instant of a non-empty batch.
pub open spec fn earliest(dates: Seq<Instant>) -> Instant {
    choose|m: Instant| is_earliest(dates, m)
}

/// The latest instant of a non-empty batch.
pub open spec fn latest(dates: Seq<Instant>) -> Instant {
    choose|m: Instant| is_latest(dates, m)
}

/// Nanoseconds from the earliest to the latest instant of a batch.
pub open spec fn span_nanos(dates: Seq<Instant>) -> int {
    latest(dates).nanos_since(earliest(dates))
}

/// No instant of the batch lies within a leap second.
pub open spec fn no_leap_second(dates: Seq<Instant>) -> bool {
    forall|k: int| 0 <= k < dates.len() ==> !(#[trigger] dates[k]).in_leap_second()
}

/// Seconds since the epoch at which the target window starts.
pub open spec fn window_start(now: Instant) -> int {
    now.secs - LOOKBACK_SECONDS
}

/// Where an offset of `offset` nanoseconds into a span of `span` nanoseconds
/// falls in the window, in seconds from the window's start: the exact ratio
/// times the window's length, cut to whole seconds towards zero.
pub open spec fn scaled_offset(offset: int, span: int) -> int {
    if offset >= 0 {
        (WINDOW_SECONDS * offset) / span
    } else {
        -((WINDOW_SECONDS * (-offset)) / span)
    }
}

/// Seconds since the epoch of the instant that `t` is mapped to, in a batch
/// that reaches from `lo` to `hi`.
pub open spec fn target_seconds(t: Instant, lo: Instant, hi: Instant, now: Instant) -> int {
    if hi.nanos_since(lo) > 0 {
        window_start(now) + scaled_offset(t.nanos_since(lo), hi.nanos_since(lo))
    } else {
        t.secs as int
    }
}

/// Nanoseconds of the instant that `t` is mapped to.
pub open spec fn target_nanos(t: Instant, lo: Instant, hi: Instant, now: Instant) -> u32 {
    if hi.nanos_since(lo) > 0 {
        now.nanos
    } else {
        t.nanos
    }
}

/// Seconds since the epoch of the new timestamp of record `i` of a batch.
pub open spec fn new_seconds(dates: Seq<Instant>, now: Instant, i: int) -> int {
    target_seconds(dates[i], earliest(dates), latest(dates), now)
}

/// Nanoseconds of the new timestamp of record `i` of a batch.
pub open spec fn new_nanos(dates: Seq<Instant>, now: Instant, i: int) -> u32 {
    target_nanos(dates[i], earliest(dates), latest(dates), now)
}

/// The new timestamp of record `i` can be held in an `Instant`.
pub open spec fn representable(dates: Seq<Instant>, now: Instant, i: int) -> bool {
    i64::MIN <= new_seconds(dates, now, i) <= i64::MAX
}

/// A batch has one earliest and one latest instant.
pub proof fn lemma_bounds_unique(dates: Seq<Instant>, lo: Instant, hi: Instant)
    requires
        is_earliest(dates, lo),
        is_latest(dates, hi),
    ensures
        earliest(dates) == lo,
        latest(dates) == hi,
        lo.at_or_before(hi),
{
    let a = earliest(dates);
    let b = latest(dates);
    assert(is_earliest(dates, a));
    assert(is_latest(dates, b));
    let ka = choose|k: int| 0 <= k < dates.len() && dates[k] == a;
    let kl = choose|k: int| 0 <= k < dates.len() && dates[k] == lo;
    assert(lo.at_or_before(dates[ka]));
    assert(a.at_or_before(dates[kl]));
    let kb = choose|k: int| 0 <= k < dates.len() && dates[k] == b;
    let kh = choose|k: int| 0 <= k < dates.len() && dates[k] == hi;
    assert(dates[kb].at_or_before(hi));
    assert(dates[kh].at_or_before(b));
    assert(lo.at_or_before(dates[kh]));
}

/// Scans a non-empty batch for its earliest and latest instant.
pub fn batch_bounds(dates: &Vec<Instant>) -> (r: (Instant, Instant))
    requires
        dates@.len() > 0,
    ensures
        r.0 == earliest(dates@),
        r.1 == latest(dates@),
        is_earliest(dates@, r.0),
        is_latest(dates@, r.1),
{
    let mut lo: Instant = dates[0];
    let mut hi: Instant = dates[0];
    let mut i: usize = 1;
    proof {
        assert(dates@.take(1)[0] == lo);
    }
    while i < dates.len()
        invariant
            1 <= i <= dates@.len(),
            is_earliest(dates@.take(i as int), lo),
            is_latest(dates@.take(i as int), hi),
        decreases dates@.len() - i,
    {
        let d: Instant = dates[i];
        proof {
            let prev = dates@.take(i as int);
            let next = dates@.take(i + 1);
            let kl = choose|k: int| 0 <= k < prev.len() && prev[k] == lo;
            let kh = choose|k: int| 0 <= k < prev.len() && prev[k] == hi;
            assert(next[kl] == lo);
            assert(next[kh] == hi);
            assert(next[i as int] == d);
            assert forall|k: int| 0 <= k < next.len() implies (if d.precedes(lo) {
                d
            } else {
                lo
            }).at_or_before(#[trigger] next[k]) by {
                if k < i {
                    assert(lo.at_or_before(prev[k]));
                }
            }
            assert forall|k: int| 0 <= k < next.len() implies (#[trigger] next[k]).at_or_before(
                if hi.precedes(d) {
                    d
                } else {
                    hi
                },
            ) by {
                if k < i {
                    assert(prev[k].at_or_before(hi));
                }
            }
        }
        if d.is_before(&lo) {
            lo = d;
        }
        if hi.is_before(&d) {
            hi = d;
        }
        i += 1;
    }
    proof {
        assert(dates@.take(i as int) =~= dates@);
        lemma_bounds_unique(dates@, lo, hi);
    }
    (lo, hi)
}

/// What `scaled_offset` yields lies in the window and grows with the offset.
pub proof fn lemma_scaled_offset(a: int, b: int, span: int)
    requires
        0 <= a <= b <= span,
        span > 0,
    ensures
        0 <= scaled_offset(a, span) <= scaled_offset(b, span) <= WINDOW_SECONDS,
        scaled_offset(0, span) == 0,
        scaled_offset(span, span) == WINDOW_SECONDS,
{
    let w = WINDOW_SECONDS as int;
    assert(0 <= w * a <= w * b <= w * span) by (nonlinear_arith)
        requires
            0 <= a <= b <= span,
            w == 1_296_000,
    ;
    lemma_div_is_ordered(0, w * a, span);
    lemma_div_is_ordered(w * a, w * b, span);
    lemma_div_is_ordered(w * b, w * span, span);
    lemma_div_multiples_vanish(w, span);
    assert(w * span == span * w) by (nonlinear_arith);
    assert(w * 0 == 0);
    assert(0int / span == 0) by (nonlinear_arith)
        requires
            span > 0,
    ;
}

/// Maps one instant of a batch that reaches from `lo` to `hi`: linearly into
/// the window where the batch has a span, onto itself where it has none.
/// `None` when the new instant's seconds do not fit in 64 bits.
pub fn remap_instant(t: Instant, lo: Instant, hi: Instant, now: Instant) -> (r: Option<Instant>)
    requires
        lo.at_or_before(t),
        t.at_or_before(hi),
    ensures
        r.is_some() == (i64::MIN <= target_seconds(t, lo, hi, now) <= i64::MAX),
        r matches Some(n) ==> n.secs == target_seconds(t, lo, hi, now) && n.nanos == target_nanos(
            t,
            lo,
            hi,
            now,
        ),
{
    let span: i128 = hi.nanoseconds_since(&lo);
    if span > 0 {
        let offset: i128 = t.nanoseconds_since(&lo);
        let size: u128 = if offset >= 0 {
            offset as u128
        } else {
            (-offset) as u128
        };
        let wide: u128 = 1_296_000u128 * size;
        let cut: u128 = wide / (span as u128);
        assert(cut <= wide) by (nonlinear_arith)
            requires
                cut == wide / (span as u128),
                span >= 1,
        ;
        let scaled: i128 = if offset >= 0 {
            cut as i128
        } else {
            -(cut as i128)
        };
        assert(scaled == scaled_offset(offset as int, span as int));
        let secs: i128 = now.secs as i128 - 1_728_000i128 + scaled;
        if secs < i64::MIN as i128 || secs > i64::MAX as i128 {
            None
        } else {
            Some(Instant { secs: secs as i64, nanos: now.nanos })
        }
    } else {
        Some(t)
    }
}

/// Remaps every instant of a batch, in order. `Err(i)` names the first
/// record whose new instant cannot be held in an `Instant`.
pub fn remap_batch(dates: &Vec<Instant>, now: Instant) -> (r: Result<Vec<Instant>, usize>)
    ensures
        match r {
            Ok(out) => {
                &&& out@.len() == dates@.len()
                &&& forall|i: int| 0 <= i < dates@.len() ==> #[trigger] representable(dates@, now, i)
                &&& forall|i: int|
                    0 <= i < dates@.len() ==> {
                        &&& (#[trigger] out@[i]).secs == new_seconds(dates@, now, i)
                        &&& out@[i].nanos == new_nanos(dates@, now, i)
                    }
            },
            Err(i) => {
                &&& i < dates@.len()
                &&& !representable(dates@, now, i as int)
                &&& forall|j: int| 0 <= j < i ==> #[trigger] representable(dates@, now, j)
            },
        },
{
    let mut out: Vec<Instant> = Vec::new();
    if dates.len() == 0 {
        return Ok(out);
    }
    let (lo, hi) = batch_bounds(dates);
    let mut i: usize = 0;
    while i < dates.len()
        invariant
            i <= dates@.len(),
            out@.len() == i,
            lo == earliest(dates@),
            hi == latest(dates@),
            is_earliest(dates@, lo),
            is_latest(dates@, hi),
            forall|j: int| 0 <= j < i ==> #[trigger] representable(dates@, now, j),
            forall|j: int|
                0 <= j < i ==> {
                    &&& (#[trigger] out@[j]).secs == new_seconds(dates@, now, j)
                    &&& out@[j].nanos == new_nanos(dates@, now, j)
                },
        decreases dates@.len() - i,
    {
        let t: Instant = dates[i];
        assert(lo.at_or_before(dates@[i as int]));
        assert(dates@[i as int].at_or_before(hi));
        match remap_instant(t, lo, hi, now) {
            Some(n) => {
                out.push(n);
            },
            None => {
                return Err(i);
            },
        }
        i += 1;
    }
    Ok(out)
}

/// Every non-empty batch has an earliest and a latest instant.
pub proof fn lemma_bounds_exist(dates: Seq<Instant>)
    requires
        dates.len() > 0,
    ensures
        is_earliest(dates, earliest(dates)),
        is_latest(dates, latest(dates)),
        earliest(dates).at_or_before(latest(dates)),
    decreases dates.len(),
{
    let last = dates[dates.len() - 1];
    if dates.len() == 1 {
        assert(dates[0] == last);
        assert(is_earliest(dates, last));
        assert(is_latest(dates, last));
    } else {
        let front = dates.drop_last();
        lemma_bounds_exist(front);
        let lo = earliest(front);
        let hi = latest(front);
        let kl = choose|k: int| 0 <= k < front.len() && front[k] == lo;
        let kh = choose|k: int| 0 <= k < front.len() && front[k] == hi;
        assert(dates[kl] == lo);
        assert(dates[kh] == hi);
        let lo2 = if last.precedes(lo) {
            last
        } else {
            lo
        };
        let hi2 = if hi.precedes(last) {
            last
        } else {
            hi
        };
        assert forall|k: int| 0 <= k < dates.len() implies lo2.at_or_before(
            #[trigger] dates[k],
        ) by {
            if k < front.len() {
                assert(lo.at_or_before(front[k]));
            }
        }
        assert forall|k: int| 0 <= k < dates.len() implies (#[trigger] dates[k]).at_or_before(
            hi2,
        ) by {
            if k < front.len() {
                assert(front[k].at_or_before(hi));
            }
        }
        assert(is_earliest(dates, lo2));
        assert(is_latest(dates, hi2));
    }
    let lo = choose|m: Instant| is_earliest(dates, m);
    let hi = choose|m: Instant| is_latest(dates, m);
    lemma_bounds_unique(dates, lo, hi);
}

/// A batch without leap seconds has a span exactly when its earliest and
/// latest instant differ: it is passed through only where all its
/// timestamps are one.
pub proof fn lemma_span_positive(dates: Seq<Instant>)
    requires
        dates.len() > 0,
        no_leap_second(dates),
    ensures
        earliest(dates).precedes(latest(dates)) <==> span_nanos(dates) > 0,
        earliest(dates) == latest(dates) <==> span_nanos(dates) == 0,
        span_nanos(dates) >= 0,
{
    lemma_bounds_exist(dates);
    let lo = earliest(dates);
    let hi = latest(dates);
    let kl = choose|k: int| 0 <= k < dates.len() && dates[k] == lo;
    let kh = choose|k: int| 0 <= k < dates.len() && dates[k] == hi;
    assert(!dates[kl].in_leap_second());
    assert(!dates[kh].in_leap_second());
    lemma_nanos_since_ordered(lo, hi, lo);
}

/// In a batch without leap seconds whose earliest and latest instant differ,
/// every new timestamp lies in the window: not before its start, not after
/// its end fifteen days later. The earliest instant of the batch lands on the
/// start, the latest on the end.
pub proof fn lemma_remap_within_window(dates: Seq<Instant>, now: Instant, i: int)
    requires
        0 <= i < dates.len(),
        no_leap_second(dates),
        earliest(dates).precedes(latest(dates)),
    ensures
        window_start(now) <= new_seconds(dates, now, i) <= window_start(now) + WINDOW_SECONDS,
        new_nanos(dates, now, i) == now.nanos,
        dates[i] == earliest(dates) ==> new_seconds(dates, now, i) == window_start(now),
        dates[i] == latest(dates) ==> new_seconds(dates, now, i) == window_start(now)
            + WINDOW_SECONDS,
{
    lemma_span_positive(dates);
    lemma_bounds_exist(dates);
    let lo = earliest(dates);
    let hi = latest(dates);
    let kl = choose|k: int| 0 <= k < dates.len() && dates[k] == lo;
    let kh = choose|k: int| 0 <= k < dates.len() && dates[k] == hi;
    assert(!dates[kl].in_leap_second() && !dates[kh].in_leap_second() && !dates[i].in_leap_second());
    assert(lo.at_or_before(dates[i]));
    assert(dates[i].at_or_before(hi));
    lemma_nanos_since_ordered(dates[i], hi, lo);
    lemma_nanos_since_ordered(lo, dates[i], lo);
    lemma_scaled_offset(dates[i].nanos_since(lo), dates[i].nanos_since(lo), hi.nanos_since(lo));
}

/// In a batch without leap seconds whose earliest and latest instant differ,
/// the remapping keeps the order of the records, whatever their order in the
/// batch: where one record's timestamp is earlier than another's, its new
/// timestamp is not later than the other's.
pub proof fn lemma_remap_monotonic(dates: Seq<Instant>, now: Instant, i: int, j: int)
    requires
        0 <= i < dates.len(),
        0 <= j < dates.len(),
        no_leap_second(dates),
        dates[i].precedes(dates[j]),
        earliest(dates).precedes(latest(dates)),
    ensures
        new_seconds(dates, now, i) <= new_seconds(dates, now, j),
        new_nanos(dates, now, i) == new_nanos(dates, now, j),
{
    lemma_span_positive(dates);
    lemma_bounds_exist(dates);
    let lo = earliest(dates);
    let hi = latest(dates);
    let kl = choose|k: int| 0 <= k < dates.len() && dates[k] == lo;
    let kh = choose|k: int| 0 <= k < dates.len() && dates[k] == hi;
    assert(!dates[kl].in_leap_second() && !dates[kh].in_leap_second());
    assert(!dates[i].in_leap_second() && !dates[j].in_leap_second());
    assert(lo.at_or_before(dates[i]));
    assert(dates[j].at_or_before(hi));
    lemma_nanos_since_ordered(dates[i], dates[j], lo);
    lemma_nanos_since_ordered(dates[j], hi, lo);
    lemma_nanos_since_ordered(lo, dates[i], lo);
    lemma_scaled_offset(dates[i].nanos_since(lo), dates[j].nanos_since(lo), hi.nanos_since(lo));
}

/// In a batch whose records all share one timestamp nothing is remapped:
/// every new timestamp is the record's own.
pub proof fn lemma_degenerate_passthrough(dates: Seq<Instant>, now: Instant, i: int)
    requires
        0 <= i < dates.len(),
        forall|j: int, k: int|
            0 <= j < dates.len() && 0 <= k < dates.len() ==> #[trigger] dates[j] == #[trigger] dates[k],
    ensures
        new_seconds(dates, now, i) == dates[i].secs,
        new_nanos(dates, now, i) == dates[i].nanos,
        representable(dates, now, i),
{
    assert(is_earliest(dates, dates[0]));
    assert(is_latest(dates, dates[0]));
    lemma_bounds_unique(dates, dates[0], dates[0]);
}

} // verus!
