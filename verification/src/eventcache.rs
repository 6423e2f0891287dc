//! The replay cache: the updates of the last minutes in arrival order, for
//! subscribers that attach late.

use crate::history::{lead_before, lemma_lead_is};
use crate::time::{current_time, Timestamp};
use std::collections::VecDeque;
use vstd::prelude::*;

verus! {

/// The age, in minutes, that the cache of a bridge keeps updates for.
pub const DEFAULT_MAX_AGE_MINUTES: i64 = 30;

/// The updates of the last `max_age_minutes` minutes with the time at which
/// each arrived, oldest first.
pub struct EventCache {
    events: VecDeque<(Timestamp, String)>,
    max_age_minutes: i64,
}

/// The mathematical value of an [`EventCache`].
pub struct EventCacheView {
    pub entries: Seq<(Timestamp, Seq<char>)>,
    pub max_age_minutes: int,
}

/// The entries of a cache as they are stored, by their mathematical values.
pub open spec fn entries_of(stored: Seq<(Timestamp, String)>) -> Seq<(Timestamp, Seq<char>)> {
    stored.map_values(|e: (Timestamp, String)| (e.0, e.1@))
}

/// `entries` without the entries at its front that arrived before `cutoff`.
pub open spec fn trimmed(entries: Seq<(Timestamp, Seq<char>)>, cutoff: int) -> Seq<
    (Timestamp, Seq<char>),
> {
    entries.subrange(lead_before(entries, cutoff), entries.len() as int)
}

/// The payloads of the entries that arrived at or after `cutoff`, in order.
pub open spec fn fresh(entries: Seq<(Timestamp, Seq<char>)>, cutoff: int) -> Seq<Seq<char>>
    decreases entries.len(),
{
    if entries.len() == 0 {
        Seq::empty()
    } else if entries.last().0.instant() >= cutoff {
        fresh(entries.drop_last(), cutoff).push(entries.last().1)
    } else {
        fresh(entries.drop_last(), cutoff)
    }
}

impl EventCacheView {
    /// The position on the time scale before which an entry has expired at
    /// `now`.
    pub open spec fn cutoff(self, now: Timestamp) -> int {
        now.instant_back(self.max_age_minutes * 60)
    }

    /// The cache after `event` arrived at `now`: the event is appended, and
    /// what had expired at the front is dropped.
    pub open spec fn added(self, event: Seq<char>, now: Timestamp) -> EventCacheView {
        EventCacheView {
            entries: trimmed(self.entries.push((now, event)), self.cutoff(now)),
            max_age_minutes: self.max_age_minutes,
        }
    }

    /// What a reader gets at `now`: the payloads that have not expired.
    pub open spec fn all_at(self, now: Timestamp) -> Seq<Seq<char>> {
        fresh(self.entries, self.cutoff(now))
    }
}

impl View for EventCache {
    type V = EventCacheView;

    closed spec fn view(&self) -> EventCacheView {
        EventCacheView {
            entries: entries_of(self.events@),
            max_age_minutes: self.max_age_minutes as int,
        }
    }
}

/// A reader gets an entry exactly if it arrived at or after the cutoff: none
/// that is older comes back, and none that is not older is left out.
pub proof fn lemma_fresh(entries: Seq<(Timestamp, Seq<char>)>, cutoff: int)
    ensures
        fresh(entries, cutoff).len() <= entries.len(),
        forall|p: Seq<char>|
            fresh(entries, cutoff).contains(p) <==> exists|i: int|
                0 <= i < entries.len() && (#[trigger] entries[i]).1 == p && entries[i].0.instant()
                    >= cutoff,
    decreases entries.len(),
{
    if entries.len() > 0 {
        let front = entries.drop_last();
        let last = entries.last();
        lemma_fresh(front, cutoff);
        let f = fresh(front, cutoff);
        let r = fresh(entries, cutoff);
        assert forall|p: Seq<char>| r.contains(p) <==> exists|i: int|
            0 <= i < entries.len() && (#[trigger] entries[i]).1 == p && entries[i].0.instant()
                >= cutoff by {
            if r.contains(p) {
                let k = choose|k: int| 0 <= k < r.len() && r[k] == p;
                if k < f.len() {
                    assert(f[k] == p);
                    assert(f.contains(p));
                    let i = choose|i: int|
                        0 <= i < front.len() && (#[trigger] front[i]).1 == p
                            && front[i].0.instant() >= cutoff;
                    assert(entries[i] == front[i]);
                } else {
                    assert(entries[entries.len() - 1].1 == p);
                }
            }
            if exists|i: int|
                0 <= i < entries.len() && (#[trigger] entries[i]).1 == p && entries[i].0.instant()
                    >= cutoff {
                let i = choose|i: int|
                    0 <= i < entries.len() && (#[trigger] entries[i]).1 == p
                        && entries[i].0.instant() >= cutoff;
                if i < front.len() {
                    assert(front[i] == entries[i]);
                    assert(f.contains(p));
                    let k = choose|k: int| 0 <= k < f.len() && f[k] == p;
                    assert(r[k] == p);
                } else {
                    assert(r[f.len() as int] == p);
                }
            }
        }
    }
}

impl EventCache {
    /// An empty cache that keeps updates for `max_age_minutes` minutes.
    pub fn new(max_age_minutes: i64) -> (cache: Self)
        ensures
            cache@.entries == Seq::<(Timestamp, Seq<char>)>::empty(),
            cache@.max_age_minutes == max_age_minutes,
    {
        let cache = EventCache { events: VecDeque::new(), max_age_minutes };
        assert(entries_of(cache.events@) =~= Seq::empty());
        cache
    }

    /// The number of entries in the cache, expired ones included.
    pub fn len(&self) -> (n: usize)
        ensures
            n == self@.entries.len(),
    {
        self.events.len()
    }

    /// Appends `event` as having arrived at `now`, then drops from the front
    /// what has expired at `now`.
    pub fn add_at(&mut self, event: String, now: Timestamp)
        ensures
            final(self)@ == old(self)@.added(event@, now),
    {
        let ghost cutoff = self@.cutoff(now);
        self.events.push_back((now, event));
        let ghost all = entries_of(self.events@);
        assert(all =~= old(self)@.entries.push((now, event@)));
        let ghost dropped: int = 0;
        loop
            invariant
                self.max_age_minutes == old(self).max_age_minutes,
                cutoff == now.instant_back(self.max_age_minutes as int * 60),
                0 <= dropped <= all.len(),
                entries_of(self.events@) == all.subrange(dropped, all.len() as int),
                forall|i: int| 0 <= i < dropped ==> (#[trigger] all[i]).0.instant() < cutoff,
            ensures
                dropped < all.len() ==> all[dropped].0.instant() >= cutoff,
            decreases self.events@.len(),
        {
            if self.events.len() == 0 {
                assert(all.subrange(dropped, all.len() as int).len() == 0);
                break ;
            }
            let front_time = self.events[0].0;
            assert(all.subrange(dropped, all.len() as int)[0].0 == front_time);
            if front_time.is_within_minutes(&now, self.max_age_minutes) {
                break ;
            }
            let ghost before = self.events@;
            let _ = self.events.pop_front();
            proof {
                assert(entries_of(self.events@) =~= entries_of(before).subrange(
                    1,
                    before.len() as int,
                ));
                assert(entries_of(before).subrange(1, before.len() as int) =~= all.subrange(
                    dropped + 1,
                    all.len() as int,
                ));
                dropped = dropped + 1;
            }
        }
        proof {
            lemma_lead_is(all, cutoff, dropped);
        }
    }

    /// Appends `event` as having arrived now, by the clock, then drops from
    /// the front what has expired.
    pub fn add(&mut self, event: String)
        ensures
            exists|now: Timestamp| final(self)@ == old(self)@.added(event@, now),
    {
        let now = current_time();
        let ghost text = event@;
        self.add_at(event, now);
        assert(self@ == old(self)@.added(text, now));
    }

    /// A copy of the payloads that have not expired at `now`, oldest first.
    pub fn get_all_at(&self, now: Timestamp) -> (all: Vec<String>)
        ensures
            all.deep_view() == self@.all_at(now),
    {
        let ghost cutoff = self@.cutoff(now);
        let ghost entries = entries_of(self.events@);
        let mut all: Vec<String> = Vec::new();
        let n = self.events.len();
        let mut i: usize = 0;
        assert(all.deep_view() =~= Seq::empty());
        while i < n
            invariant
                i <= n,
                n == self.events@.len(),
                entries == entries_of(self.events@),
                cutoff == now.instant_back(self.max_age_minutes as int * 60),
                all.deep_view() == fresh(entries.subrange(0, i as int), cutoff),
            decreases n - i,
        {
            let ghost so_far = all.deep_view();
            assert(entries.subrange(0, i + 1).drop_last() =~= entries.subrange(0, i as int));
            assert(entries.subrange(0, i + 1).last() == entries[i as int]);
            if self.events[i].0.is_within_minutes(&now, self.max_age_minutes) {
                all.push(self.events[i].1.clone());
                assert(all.deep_view() =~= so_far.push(entries[i as int].1));
            }
            i += 1;
        }
        assert(entries.subrange(0, n as int) =~= entries);
        all
    }

    /// A copy of the payloads that have not expired now, by the clock.
    pub fn get_all(&self) -> (all: Vec<String>)
        ensures
            exists|now: Timestamp| all.deep_view() == self@.all_at(now),
    {
        let now = current_time();
        let all = self.get_all_at(now);
        assert(all.deep_view() == self@.all_at(now));
        all
    }
}

} // verus!
