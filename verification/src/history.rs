//! The history of one metric: samples in time order inside a rolling window,
//! with one anchor sample kept from before the window.

use crate::time::Timestamp;
use vstd::prelude::*;

verus! {

/// Length of the rolling window that a per-device history keeps, in seconds.
pub const HISTORY_WINDOW_SECS: i64 = 900;

/// Length of the window that compact charts show, in seconds.
pub const CHART_WINDOW_SECS: i64 = 600;

/// Whether some sample of `h` was taken at `t`.
pub open spec fn has_sample_at<T>(h: Seq<(Timestamp, T)>, t: Timestamp) -> bool {
    exists|i: int| 0 <= i < h.len() && (#[trigger] h[i]).0 == t
}

/// `h` with the sample `(t, v)` appended, unless a sample at `t` is there.
pub open spec fn recorded<T>(h: Seq<(Timestamp, T)>, t: Timestamp, v: T) -> Seq<(Timestamp, T)> {
    if has_sample_at(h, t) {
        h
    } else {
        h.push((t, v))
    }
}

/// `s` with `x` put behind the last sample that is not later than `x`.
pub open spec fn placed<T>(s: Seq<(Timestamp, T)>, x: (Timestamp, T)) -> Seq<(Timestamp, T)>
    decreases s.len(),
{
    if s.len() == 0 {
        seq![x]
    } else if s.last().0.instant() <= x.0.instant() {
        s.push(x)
    } else {
        placed(s.drop_last(), x).push(s.last())
    }
}

/// The samples of `h` in ascending time order; samples of equal time keep the
/// order they have in `h`.
pub open spec fn in_time_order<T>(h: Seq<(Timestamp, T)>) -> Seq<(Timestamp, T)>
    decreases h.len(),
{
    if h.len() == 0 {
        h
    } else {
        placed(in_time_order(h.drop_last()), h.last())
    }
}

/// The number of samples at the front of `h` that lie before `cutoff`.
pub open spec fn lead_before<T>(h: Seq<(Timestamp, T)>, cutoff: int) -> int
    decreases h.len(),
{
    if h.len() == 0 || h[0].0.instant() >= cutoff {
        0
    } else {
        1 + lead_before(h.drop_first(), cutoff)
    }
}

/// The index from which `h` is kept when everything before `cutoff` but the
/// last such sample is dropped.
pub open spec fn keep_from<T>(h: Seq<(Timestamp, T)>, cutoff: int) -> int {
    if lead_before(h, cutoff) == 0 {
        0
    } else {
        lead_before(h, cutoff) - 1
    }
}

/// `h` without the samples at its front that lie before `cutoff`, except the
/// last of them, which stays as the anchor.
pub open spec fn pruned<T>(h: Seq<(Timestamp, T)>, cutoff: int) -> Seq<(Timestamp, T)> {
    h.subrange(keep_from(h, cutoff), h.len() as int)
}

/// The history that follows `h` once a sample `(t, v)` has arrived and the
/// window that ends at `now` has been applied.
pub open spec fn updated<T>(h: Seq<(Timestamp, T)>, t: Timestamp, v: T, now: Timestamp) -> Seq<
    (Timestamp, T),
> {
    pruned(in_time_order(recorded(h, t, v)), now.instant_back(HISTORY_WINDOW_SECS as int))
}

/// Samples stand in ascending time order.
pub open spec fn is_time_ordered<T>(h: Seq<(Timestamp, T)>) -> bool {
    forall|i: int, j: int| 0 <= i < j < h.len() ==> h[i].0.instant() <= h[j].0.instant()
}

/// No two samples were taken at the same time.
pub open spec fn has_distinct_times<T>(h: Seq<(Timestamp, T)>) -> bool {
    forall|i: int, j: int| 0 <= i < j < h.len() ==> h[i].0 != h[j].0
}

/// Every sample but the first lies at or after `cutoff`.
pub open spec fn fits_window<T>(h: Seq<(Timestamp, T)>, cutoff: int) -> bool {
    forall|i: int| 1 <= i < h.len() ==> (#[trigger] h[i]).0.instant() >= cutoff
}

/// Where `x` goes: `j` is the place behind the last sample not later than `x`.
pub proof fn lemma_placed_at<T>(s: Seq<(Timestamp, T)>, x: (Timestamp, T), j: int)
    requires
        0 <= j <= s.len(),
        forall|k: int| j <= k < s.len() ==> (#[trigger] s[k]).0.instant() > x.0.instant(),
        j > 0 ==> s[j - 1].0.instant() <= x.0.instant(),
    ensures
        placed(s, x) == s.insert(j, x),
    decreases s.len(),
{
    if s.len() == 0 {
        assert(s.insert(j, x) =~= seq![x]);
    } else if j == s.len() {
        assert(s.insert(j, x) =~= s.push(x));
    } else {
        assert(s.last() == s[s.len() - 1]);
        lemma_placed_at(s.drop_last(), x, j);
        assert(s.drop_last().insert(j, x).push(s.last()) =~= s.insert(j, x));
    }
}

/// The place where [`placed`] puts `x`.
pub open spec fn place_of<T>(s: Seq<(Timestamp, T)>, x: (Timestamp, T)) -> int
    decreases s.len(),
{
    if s.len() == 0 {
        0
    } else if s.last().0.instant() <= x.0.instant() {
        s.len() as int
    } else {
        place_of(s.drop_last(), x)
    }
}

/// The place of `x` lies behind every sample not later than `x` that has only
/// later samples behind it.
pub proof fn lemma_place_of<T>(s: Seq<(Timestamp, T)>, x: (Timestamp, T))
    ensures
        0 <= place_of(s, x) <= s.len(),
        forall|k: int|
            place_of(s, x) <= k < s.len() ==> (#[trigger] s[k]).0.instant() > x.0.instant(),
        place_of(s, x) > 0 ==> s[place_of(s, x) - 1].0.instant() <= x.0.instant(),
        placed(s, x) == s.insert(place_of(s, x), x),
    decreases s.len(),
{
    if s.len() > 0 && s.last().0.instant() > x.0.instant() {
        let front = s.drop_last();
        lemma_place_of(front, x);
        let j = place_of(front, x);
        assert forall|k: int| j <= k < s.len() implies (#[trigger] s[k]).0.instant()
            > x.0.instant() by {
            if k < front.len() {
                assert(front[k] == s[k]);
            }
        }
        assert(j > 0 ==> front[j - 1] == s[j - 1]);
    }
    lemma_placed_at(s, x, place_of(s, x));
}

/// Placing a sample into an ordered history leaves it ordered.
pub proof fn lemma_placed_ordered<T>(s: Seq<(Timestamp, T)>, x: (Timestamp, T))
    requires
        is_time_ordered(s),
    ensures
        is_time_ordered(placed(s, x)),
        s.len() == 0 || s.last().0.instant() <= x.0.instant() ==> placed(s, x) == s.push(x),
{
    lemma_place_of(s, x);
    let j = place_of(s, x);
    let p = s.insert(j, x);
    assert forall|a: int, b: int| 0 <= a < b < p.len() implies p[a].0.instant()
        <= p[b].0.instant() by {
        if b < j {
            assert(p[a] == s[a] && p[b] == s[b]);
        } else if b == j {
            assert(p[a] == s[a]);
            assert(s[a].0.instant() <= s[j - 1].0.instant());
        } else if a < j {
            assert(p[a] == s[a] && p[b] == s[b - 1]);
        } else if a == j {
            assert(p[b] == s[b - 1]);
        } else {
            assert(p[a] == s[a - 1] && p[b] == s[b - 1]);
        }
    }
}

/// Placing a sample adds it and keeps every other sample.
pub proof fn lemma_placed_samples<T>(s: Seq<(Timestamp, T)>, x: (Timestamp, T))
    ensures
        placed(s, x).len() == s.len() + 1,
        forall|e: (Timestamp, T)| placed(s, x).contains(e) <==> (s.contains(e) || e == x),
        forall|t: Timestamp| has_sample_at(placed(s, x), t) <==> (has_sample_at(s, t) || t == x.0),
{
    lemma_place_of(s, x);
    let j = place_of(s, x);
    let p = s.insert(j, x);
    assert forall|e: (Timestamp, T)| p.contains(e) <==> (s.contains(e) || e == x) by {
        if s.contains(e) {
            let i = choose|i: int| 0 <= i < s.len() && s[i] == e;
            if i < j {
                assert(p[i] == e);
            } else {
                assert(p[i + 1] == e);
            }
        }
        if e == x {
            assert(p[j] == e);
        }
        if p.contains(e) {
            let i = choose|i: int| 0 <= i < p.len() && p[i] == e;
            if i < j {
                assert(s[i] == e);
            } else if i > j {
                assert(s[i - 1] == e);
            }
        }
    }
    assert forall|t: Timestamp| has_sample_at(p, t) <==> (has_sample_at(s, t) || t == x.0) by {
        if has_sample_at(s, t) {
            let i = choose|i: int| 0 <= i < s.len() && (#[trigger] s[i]).0 == t;
            if i < j {
                assert(p[i].0 == t);
            } else {
                assert(p[i + 1].0 == t);
            }
        }
        if t == x.0 {
            assert(p[j].0 == t);
        }
        if has_sample_at(p, t) {
            let i = choose|i: int| 0 <= i < p.len() && (#[trigger] p[i]).0 == t;
            if i < j {
                assert(s[i].0 == t);
            } else if i > j {
                assert(s[i - 1].0 == t);
            }
        }
    }
}

/// Placing a sample whose time is new keeps the times distinct.
pub proof fn lemma_placed_distinct<T>(s: Seq<(Timestamp, T)>, x: (Timestamp, T))
    requires
        has_distinct_times(s),
        !has_sample_at(s, x.0),
    ensures
        has_distinct_times(placed(s, x)),
{
    lemma_place_of(s, x);
    let j = place_of(s, x);
    let p = s.insert(j, x);
    assert forall|a: int, b: int| 0 <= a < b < p.len() implies p[a].0 != p[b].0 by {
        if b < j {
            assert(p[a] == s[a] && p[b] == s[b]);
        } else if b == j {
            assert(p[a] == s[a]);
            assert(s[a].0 != x.0);
        } else if a < j {
            assert(p[a] == s[a] && p[b] == s[b - 1]);
        } else if a == j {
            assert(p[b] == s[b - 1]);
            assert(s[b - 1].0 != x.0);
        } else {
            assert(p[a] == s[a - 1] && p[b] == s[b - 1]);
        }
    }
}

/// Ordering a history keeps its samples and their number.
pub proof fn lemma_order_keeps_samples<T>(h: Seq<(Timestamp, T)>)
    ensures
        in_time_order(h).len() == h.len(),
        forall|e: (Timestamp, T)| in_time_order(h).contains(e) <==> h.contains(e),
        forall|t: Timestamp| has_sample_at(in_time_order(h), t) <==> has_sample_at(h, t),
    decreases h.len(),
{
    if h.len() > 0 {
        let front = h.drop_last();
        let x = h.last();
        let s = in_time_order(front);
        lemma_order_keeps_samples(front);
        lemma_placed_samples(s, x);
        assert forall|e: (Timestamp, T)| h.contains(e) <==> (front.contains(e) || e == x) by {
            if h.contains(e) {
                let i = choose|i: int| 0 <= i < h.len() && h[i] == e;
                if i < front.len() {
                    assert(front[i] == e);
                }
            }
            if front.contains(e) {
                let i = choose|i: int| 0 <= i < front.len() && front[i] == e;
                assert(h[i] == e);
            }
            if e == x {
                assert(h[h.len() - 1] == e);
            }
        }
        assert forall|t: Timestamp| has_sample_at(h, t) <==> (has_sample_at(front, t) || t
            == x.0) by {
            if has_sample_at(h, t) {
                let i = choose|i: int| 0 <= i < h.len() && (#[trigger] h[i]).0 == t;
                if i < front.len() {
                    assert(front[i].0 == t);
                }
            }
            if has_sample_at(front, t) {
                let i = choose|i: int| 0 <= i < front.len() && (#[trigger] front[i]).0 == t;
                assert(h[i].0 == t);
            }
            if t == x.0 {
                assert(h[h.len() - 1].0 == t);
            }
        }
    }
}

/// Ordering a history gives an ordered history.
pub proof fn lemma_order_is_ordered<T>(h: Seq<(Timestamp, T)>)
    ensures
        is_time_ordered(in_time_order(h)),
    decreases h.len(),
{
    if h.len() > 0 {
        lemma_order_is_ordered(h.drop_last());
        lemma_placed_ordered(in_time_order(h.drop_last()), h.last());
    }
}

/// Ordering a history whose times are distinct keeps them distinct.
pub proof fn lemma_order_keeps_distinct<T>(h: Seq<(Timestamp, T)>)
    requires
        has_distinct_times(h),
    ensures
        has_distinct_times(in_time_order(h)),
    decreases h.len(),
{
    if h.len() > 0 {
        let front = h.drop_last();
        let x = h.last();
        assert(has_distinct_times(front)) by {
            assert forall|i: int, j: int| 0 <= i < j < front.len() implies front[i].0
                != front[j].0 by {
                assert(front[i] == h[i] && front[j] == h[j]);
            }
        }
        lemma_order_keeps_distinct(front);
        lemma_order_keeps_samples(front);
        if has_sample_at(front, x.0) {
            let i = choose|i: int| 0 <= i < front.len() && (#[trigger] front[i]).0 == x.0;
            assert(h[i].0 == h[h.len() - 1].0);
        }
        lemma_placed_distinct(in_time_order(front), x);
    }
}

/// Ordering an ordered history changes nothing.
pub proof fn lemma_order_of_ordered<T>(h: Seq<(Timestamp, T)>)
    requires
        is_time_ordered(h),
    ensures
        in_time_order(h) == h,
    decreases h.len(),
{
    if h.len() > 0 {
        let front = h.drop_last();
        assert(is_time_ordered(front)) by {
            assert forall|i: int, j: int| 0 <= i < j < front.len() implies front[i].0.instant()
                <= front[j].0.instant() by {
                assert(front[i] == h[i] && front[j] == h[j]);
            }
        }
        lemma_order_of_ordered(front);
        if front.len() > 0 {
            assert(front.last() == h[h.len() - 2]);
        }
        lemma_placed_ordered(front, h.last());
        assert(front.push(h.last()) =~= h);
    }
}

/// `k` is the lead of `h` before `cutoff` when the first `k` samples lie
/// before it and the next one does not.
pub proof fn lemma_lead_is<T>(h: Seq<(Timestamp, T)>, cutoff: int, k: int)
    requires
        0 <= k <= h.len(),
        forall|i: int| 0 <= i < k ==> (#[trigger] h[i]).0.instant() < cutoff,
        k < h.len() ==> h[k].0.instant() >= cutoff,
    ensures
        lead_before(h, cutoff) == k,
    decreases k,
{
    if k > 0 {
        let rest = h.drop_first();
        assert(h[0].0.instant() < cutoff);
        assert forall|i: int| 0 <= i < k - 1 implies (#[trigger] rest[i]).0.instant() < cutoff by {
            assert(rest[i] == h[i + 1]);
        }
        if k < h.len() {
            assert(rest[k - 1] == h[k]);
        }
        lemma_lead_is(rest, cutoff, k - 1);
    }
}

/// The lead of `h` before `cutoff` covers samples before it and stops at the
/// first sample that is not.
pub proof fn lemma_lead<T>(h: Seq<(Timestamp, T)>, cutoff: int)
    ensures
        0 <= lead_before(h, cutoff) <= h.len(),
        forall|i: int| 0 <= i < lead_before(h, cutoff) ==> (#[trigger] h[i]).0.instant() < cutoff,
        lead_before(h, cutoff) < h.len() ==> h[lead_before(h, cutoff)].0.instant() >= cutoff,
    decreases h.len(),
{
    if !(h.len() == 0 || h[0].0.instant() >= cutoff) {
        let rest = h.drop_first();
        lemma_lead(rest, cutoff);
        let k = lead_before(rest, cutoff);
        assert forall|i: int| 0 <= i < k + 1 implies (#[trigger] h[i]).0.instant() < cutoff by {
            if i > 0 {
                assert(rest[i - 1] == h[i]);
            }
        }
        if k + 1 < h.len() {
            assert(rest[k] == h[k + 1]);
        }
    }
}

/// What pruning keeps of an ordered history: a stretch at its end.
pub proof fn lemma_pruned<T>(s: Seq<(Timestamp, T)>, cutoff: int)
    requires
        is_time_ordered(s),
    ensures
        0 <= keep_from(s, cutoff) <= s.len(),
        s.len() > 0 ==> keep_from(s, cutoff) < s.len(),
        forall|i: int| keep_from(s, cutoff) < i < s.len() ==> (#[trigger] s[i]).0.instant() >= cutoff,
        forall|i: int| 0 <= i < keep_from(s, cutoff) ==> (#[trigger] s[i]).0.instant() < cutoff,
        is_time_ordered(pruned(s, cutoff)),
        fits_window(pruned(s, cutoff), cutoff),
        has_distinct_times(s) ==> has_distinct_times(pruned(s, cutoff)),
        pruned(pruned(s, cutoff), cutoff) == pruned(s, cutoff),
{
    lemma_lead(s, cutoff);
    let k = lead_before(s, cutoff);
    let from = keep_from(s, cutoff);
    let r = pruned(s, cutoff);
    assert forall|i: int| from < i < s.len() implies (#[trigger] s[i]).0.instant() >= cutoff by {
        assert(k < s.len());
        assert(s[k].0.instant() <= s[i].0.instant() || i == k);
    }
    assert forall|i: int, j: int| 0 <= i < j < r.len() implies r[i].0.instant()
        <= r[j].0.instant() by {
        assert(r[i] == s[from + i] && r[j] == s[from + j]);
    }
    assert forall|i: int| 1 <= i < r.len() implies (#[trigger] r[i]).0.instant() >= cutoff by {
        assert(r[i] == s[from + i]);
    }
    if has_distinct_times(s) {
        assert forall|i: int, j: int| 0 <= i < j < r.len() implies r[i].0 != r[j].0 by {
            assert(r[i] == s[from + i] && r[j] == s[from + j]);
        }
    }
    if r.len() > 0 && r[0].0.instant() < cutoff {
        if r.len() > 1 {
            assert(r[1].0.instant() >= cutoff);
        }
        lemma_lead_is(r, cutoff, 1);
    } else {
        lemma_lead_is(r, cutoff, 0);
    }
    assert(pruned(r, cutoff) =~= r);
}

/// After a sample has arrived the history is in time order, all its samples
/// but the first lie inside the window, and the first is the latest of the
/// samples from before the window if it lies before it. Every sample inside
/// the window is kept, and so is the latest sample of all.
pub proof fn lemma_update_keeps_window<T>(h: Seq<(Timestamp, T)>, t: Timestamp, v: T, now: Timestamp)
    ensures
        updated(h, t, v, now).len() >= 1,
        is_time_ordered(updated(h, t, v, now)),
        fits_window(updated(h, t, v, now), now.instant_back(HISTORY_WINDOW_SECS as int)),
        forall|e: (Timestamp, T)|
            recorded(h, t, v).contains(e) ==> e.0.instant() <= updated(
                h,
                t,
                v,
                now,
            ).last().0.instant(),
        forall|e: (Timestamp, T)|
            recorded(h, t, v).contains(e) && e.0.instant() >= now.instant_back(
                HISTORY_WINDOW_SECS as int,
            ) ==> updated(h, t, v, now).contains(e),
        forall|e: (Timestamp, T)|
            recorded(h, t, v).contains(e) && e.0.instant() < now.instant_back(
                HISTORY_WINDOW_SECS as int,
            ) ==> e.0.instant() <= updated(h, t, v, now)[0].0.instant(),
        forall|e: (Timestamp, T)|
            updated(h, t, v, now).contains(e) ==> recorded(h, t, v).contains(e),
{
    let cutoff = now.instant_back(HISTORY_WINDOW_SECS as int);
    let rec = recorded(h, t, v);
    let s = in_time_order(rec);
    let r = updated(h, t, v, now);
    let from = keep_from(s, cutoff);
    assert(rec.len() >= 1) by {
        if has_sample_at(h, t) {
        }
    }
    lemma_order_keeps_samples(rec);
    lemma_order_is_ordered(rec);
    lemma_pruned(s, cutoff);
    assert forall|e: (Timestamp, T)| rec.contains(e) implies e.0.instant()
        <= r.last().0.instant() by {
        assert(s.contains(e));
        let i = choose|i: int| 0 <= i < s.len() && s[i] == e;
        assert(r.last() == s[s.len() - 1]);
    }
    assert forall|e: (Timestamp, T)| rec.contains(e) && e.0.instant() >= cutoff implies r.contains(
        e,
    ) by {
        assert(s.contains(e));
        let i = choose|i: int| 0 <= i < s.len() && s[i] == e;
        assert(i >= from);
        assert(r[i - from] == e);
    }
    assert forall|e: (Timestamp, T)| rec.contains(e) && e.0.instant() < cutoff implies e.0.instant()
        <= r[0].0.instant() by {
        assert(s.contains(e));
        let i = choose|i: int| 0 <= i < s.len() && s[i] == e;
        assert(i <= from);
        assert(r[0] == s[from]);
    }
    assert forall|e: (Timestamp, T)| r.contains(e) implies rec.contains(e) by {
        let i = choose|i: int| 0 <= i < r.len() && r[i] == e;
        assert(s[from + i] == e);
        assert(s.contains(e));
    }
}

/// A history without two samples of one time has none after a sample has
/// arrived.
pub proof fn lemma_update_keeps_distinct<T>(
    h: Seq<(Timestamp, T)>,
    t: Timestamp,
    v: T,
    now: Timestamp,
)
    requires
        has_distinct_times(h),
    ensures
        has_distinct_times(updated(h, t, v, now)),
{
    let rec = recorded(h, t, v);
    if !has_sample_at(h, t) {
        assert forall|i: int, j: int| 0 <= i < j < rec.len() implies rec[i].0 != rec[j].0 by {
            if j == h.len() {
                assert(h[i].0 != t);
            }
        }
    }
    lemma_order_keeps_distinct(rec);
    lemma_order_is_ordered(rec);
    lemma_pruned(in_time_order(rec), now.instant_back(HISTORY_WINDOW_SECS as int));
}

/// Whether a replay at `again` of the sample taken at `t` finds it settled
/// in `h`: the sample is still in `h`, or the first sample of `h` lies before
/// the window that ends at `again`.
pub open spec fn is_settled<T>(h: Seq<(Timestamp, T)>, t: Timestamp, again: Timestamp) -> bool {
    has_sample_at(h, t) || (h.len() > 0 && h[0].0.instant() < again.instant_back(
        HISTORY_WINDOW_SECS as int,
    ))
}

/// A sample that the window dropped when it arrived is older than the anchor
/// that the window kept, and the anchor lies before the window.
pub proof fn lemma_dropped_sample_is_older<T>(
    h: Seq<(Timestamp, T)>,
    t: Timestamp,
    v: T,
    now: Timestamp,
)
    requires
        !has_sample_at(updated(h, t, v, now), t),
    ensures
        updated(h, t, v, now).len() > 0,
        t.instant() < updated(h, t, v, now)[0].0.instant(),
        updated(h, t, v, now)[0].0.instant() < now.instant_back(HISTORY_WINDOW_SECS as int),
{
    let cutoff = now.instant_back(HISTORY_WINDOW_SECS as int);
    let rec = recorded(h, t, v);
    let s = in_time_order(rec);
    let r = updated(h, t, v, now);
    let from = keep_from(s, cutoff);
    lemma_update_keeps_window(h, t, v, now);
    lemma_order_keeps_samples(rec);
    lemma_order_is_ordered(rec);
    lemma_pruned(s, cutoff);
    lemma_lead(s, cutoff);
    assert(has_sample_at(rec, t)) by {
        if !has_sample_at(h, t) {
            assert(rec[h.len() as int].0 == t);
        }
    }
    assert(has_sample_at(s, t));
    let i = choose|i: int| 0 <= i < s.len() && (#[trigger] s[i]).0 == t;
    if i >= from {
        assert(r[i - from].0 == t);
    }
    assert(i < from);
    assert(r[0] == s[from]);
    assert(s[i].0 != s[from].0);
    crate::time::lemma_instant_injective(s[i].0, s[from].0);
    assert(s[from].0.instant() < cutoff);
}

/// A replay adds nothing: when a sample arrives again and is settled, the
/// history that follows is the history that its first arrival left, with the
/// window of the replay applied. It is therefore no longer, whatever value
/// the replay carries.
pub proof fn lemma_replay_adds_nothing<T>(
    h: Seq<(Timestamp, T)>,
    t: Timestamp,
    v: T,
    w: T,
    first: Timestamp,
    again: Timestamp,
)
    requires
        is_settled(updated(h, t, v, first), t, again),
    ensures
        updated(updated(h, t, v, first), t, w, again) == pruned(
            updated(h, t, v, first),
            again.instant_back(HISTORY_WINDOW_SECS as int),
        ),
        updated(updated(h, t, v, first), t, w, again).len() <= updated(h, t, v, first).len(),
{
    let earlier = first.instant_back(HISTORY_WINDOW_SECS as int);
    let cutoff = again.instant_back(HISTORY_WINDOW_SECS as int);
    let r = updated(h, t, v, first);
    lemma_order_is_ordered(recorded(h, t, v));
    lemma_pruned(in_time_order(recorded(h, t, v)), earlier);
    lemma_order_of_ordered(r);
    lemma_pruned(r, cutoff);
    lemma_lead(r, cutoff);
    if !has_sample_at(r, t) {
        let x = (t, w);
        lemma_dropped_sample_is_older(h, t, v, first);
        assert forall|k: int| 0 <= k < r.len() implies (#[trigger] r[k]).0.instant()
            > x.0.instant() by {
            assert(r[0].0.instant() <= r[k].0.instant() || k == 0);
        }
        let appended = r.push(x);
        assert(appended.drop_last() =~= r);
        assert(appended.last() == x);
        lemma_placed_at(r, x, 0);
        let q = r.insert(0, x);
        assert(in_time_order(appended) == q);
        assert(q[0] == x);
        assert(q.drop_first() =~= r);
        assert(lead_before(q, cutoff) == 1 + lead_before(r, cutoff));
        assert(lead_before(r, cutoff) >= 1);
        assert(pruned(q, cutoff) =~= pruned(r, cutoff));
    }
}

/// A sample that arrives again when the clock has not stepped back is
/// settled, so its replay adds nothing.
pub proof fn lemma_replay_later_adds_nothing<T>(
    h: Seq<(Timestamp, T)>,
    t: Timestamp,
    v: T,
    w: T,
    first: Timestamp,
    again: Timestamp,
)
    requires
        first.instant() <= again.instant(),
    ensures
        is_settled(updated(h, t, v, first), t, again),
        updated(updated(h, t, v, first), t, w, again) == pruned(
            updated(h, t, v, first),
            again.instant_back(HISTORY_WINDOW_SECS as int),
        ),
        updated(updated(h, t, v, first), t, w, again).len() <= updated(h, t, v, first).len(),
{
    if !has_sample_at(updated(h, t, v, first), t) {
        lemma_dropped_sample_is_older(h, t, v, first);
    }
    lemma_replay_adds_nothing(h, t, v, w, first, again);
}

/// A sample that arrives a second time, under the same clock reading, leaves
/// the history as the first arrival left it, whatever value it carries.
pub proof fn lemma_update_twice<T>(h: Seq<(Timestamp, T)>, t: Timestamp, v: T, w: T, now: Timestamp)
    ensures
        updated(updated(h, t, v, now), t, w, now) == updated(h, t, v, now),
{
    lemma_replay_later_adds_nothing(h, t, v, w, now, now);
    lemma_order_is_ordered(recorded(h, t, v));
    lemma_pruned(in_time_order(recorded(h, t, v)), now.instant_back(HISTORY_WINDOW_SECS as int));
}

/// A sample that arrives again, at whatever reading of the clock, does not
/// stand twice in a history that had no two samples of one time.
pub proof fn lemma_replay_keeps_distinct<T>(
    h: Seq<(Timestamp, T)>,
    t: Timestamp,
    v: T,
    first: Timestamp,
    again: Timestamp,
)
    requires
        has_distinct_times(h),
    ensures
        has_distinct_times(updated(updated(h, t, v, first), t, v, again)),
{
    lemma_update_keeps_distinct(h, t, v, first);
    lemma_update_keeps_distinct(updated(h, t, v, first), t, v, again);
}

/// Whether a sample of `history` was taken at `time`.
pub fn has_time<T>(history: &Vec<(Timestamp, T)>, time: Timestamp) -> (found: bool)
    ensures
        found == has_sample_at(history@, time),
{
    let mut i: usize = 0;
    while i < history.len()
        invariant
            i <= history.len(),
            forall|k: int| 0 <= k < i ==> (#[trigger] history@[k]).0 != time,
        decreases history.len() - i,
    {
        if history[i].0 == time {
            return true;
        }
        i += 1;
    }
    false
}

/// Puts the samples in ascending time order; samples of equal time keep their
/// order.
pub fn sort_by_time<T>(history: &mut Vec<(Timestamp, T)>)
    ensures
        final(history)@ == in_time_order(old(history)@),
{
    let n = history.len();
    let ghost orig = history@;
    let mut i: usize = 0;
    while i < n
        invariant
            i <= n,
            history@.len() == n,
            orig.len() == n,
            history@.subrange(0, i as int) == in_time_order(orig.subrange(0, i as int)),
            history@.subrange(i as int, n as int) == orig.subrange(i as int, n as int),
        decreases n - i,
    {
        let ghost before = history@;
        let ghost sorted = before.subrange(0, i as int);
        let x = history.remove(i);
        assert(x == orig[i as int]) by {
            assert(before.subrange(i as int, n as int)[0] == orig.subrange(i as int, n as int)[0]);
        }
        let mut j: usize = i;
        while j > 0 && x.0.is_before(&history[j - 1].0)
            invariant
                j <= i,
                i < n,
                history@.len() == n - 1,
                forall|k: int| j <= k < i ==> (#[trigger] history@[k]).0.instant() > x.0.instant(),
            decreases j,
        {
            j -= 1;
        }
        let ghost removed = history@;
        history.insert(j, x);
        proof {
            assert(removed.subrange(0, i as int) =~= sorted);
            assert forall|k: int| j <= k < sorted.len() implies (#[trigger] sorted[k]).0.instant()
                > x.0.instant() by {
                assert(sorted[k] == removed[k]);
            }
            if j > 0 {
                assert(sorted[j - 1] == removed[j - 1]);
            }
            lemma_placed_at(sorted, x, j as int);
            let upto = orig.subrange(0, i + 1);
            assert(upto.drop_last() =~= orig.subrange(0, i as int));
            assert(upto.last() == x);
            assert(history@.subrange(0, i + 1) =~= sorted.insert(j as int, x));
            let tail = history@.subrange(i + 1, n as int);
            let goal = orig.subrange(i + 1, n as int);
            assert forall|k: int| 0 <= k < tail.len() implies #[trigger] tail[k] == goal[k] by {
                assert(history@[i + 1 + k] == removed[i + k]);
                assert(removed[i + k] == before[i + k + 1]);
                assert(before.subrange(i as int, n as int)[k + 1] == orig.subrange(
                    i as int,
                    n as int,
                )[k + 1]);
            }
            assert(tail =~= goal);
        }
        i += 1;
    }
    proof {
        assert(history@.subrange(0, n as int) =~= history@);
        assert(orig.subrange(0, n as int) =~= orig);
    }
}

/// Drops the samples at the front that lie more than `window_secs` seconds
/// before `now`, except the last of them.
pub fn prune<T>(history: &mut Vec<(Timestamp, T)>, now: Timestamp, window_secs: i64)
    ensures
        final(history)@ == pruned(old(history)@, now.instant_back(window_secs as int)),
{
    let n = history.len();
    let ghost cutoff = now.instant_back(window_secs as int);
    let mut k: usize = 0;
    while k < n && !history[k].0.is_within(&now, window_secs)
        invariant
            k <= n,
            n == history@.len(),
            cutoff == now.instant_back(window_secs as int),
            forall|i: int| 0 <= i < k ==> (#[trigger] history@[i]).0.instant() < cutoff,
        decreases n - k,
    {
        k += 1;
    }
    proof {
        lemma_lead_is(history@, cutoff, k as int);
    }
    if k > 1 {
        let kept = history.split_off(k - 1);
        *history = kept;
    } else {
        assert(history@.subrange(0, n as int) =~= history@);
    }
}

/// Records the sample `(time, val)` unless `history` has one at `time`, orders
/// the history by time, and applies the window that ends at `now`.
pub fn update<T>(history: &mut Vec<(Timestamp, T)>, time: Timestamp, val: T, now: Timestamp)
    ensures
        final(history)@ == updated(old(history)@, time, val, now),
{
    if !has_time(history, time) {
        history.push((time, val));
    }
    sort_by_time(history);
    prune(history, now, HISTORY_WINDOW_SECS);
}

} // verus!
