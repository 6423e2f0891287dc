//! The aggregate cache: the list of all sensors as it was last fetched, valid
//! for a few minutes, kept current by the events that arrive and filled up
//! from the replay cache when it is read.

use crate::eventcache::EventCache;
use crate::events::{decode_event_at, decoded_text, EventView, HueEvent};
use crate::models::{CompositeSensor, SensorView};
use crate::time::{current_time, Timestamp};
use vstd::prelude::*;

verus! {

/// The time, in seconds, for which a fetched list is served.
pub const CACHE_TTL_SECS: i64 = 300;

/// The sensors after an event: each sensor that the event is for has it
/// applied, the others stay as they are.
pub open spec fn routed(sensors: Seq<SensorView>, event: EventView, now: Timestamp) -> Seq<
    SensorView,
> {
    Seq::new(
        sensors.len(),
        |i: int|
            if sensors[i].receives(event) {
                sensors[i].applied(event, now)
            } else {
                sensors[i]
            },
    )
}

/// The sensors after the first `n` of `texts` were decoded and routed, in
/// order; a text that decodes to no event changes nothing.
pub open spec fn replayed(sensors: Seq<SensorView>, texts: Seq<Seq<char>>, n: int, now: Timestamp) -> Seq<
    SensorView,
>
    decreases n,
{
    if n <= 0 {
        sensors
    } else {
        let before = replayed(sensors, texts, n - 1, now);
        match decoded_text(texts[n - 1], now) {
            Some(event) => routed(before, event, now),
            None => before,
        }
    }
}

/// The sensors with all of `texts` replayed.
pub open spec fn backfilled(sensors: Seq<SensorView>, texts: Seq<Seq<char>>, now: Timestamp) -> Seq<
    SensorView,
> {
    replayed(sensors, texts, texts.len() as int, now)
}

/// Whether a list fetched at `fetched_at` is still served at `now`: less than
/// the time to live has passed.
pub open spec fn is_fresh(fetched_at: Timestamp, now: Timestamp) -> bool {
    fetched_at.instant() > now.instant_back(CACHE_TTL_SECS as int)
}

/// What a reader of the cache is served at `now`: the list, if there is one
/// and it is fresh.
pub open spec fn served(entry: Option<(Seq<SensorView>, Timestamp)>, now: Timestamp) -> Option<
    Seq<SensorView>,
> {
    match entry {
        Some((sensors, fetched_at)) => if is_fresh(fetched_at, now) {
            Some(sensors)
        } else {
            None
        },
        None => None,
    }
}

/// The entry that stays when a list that has expired at `now` is discarded.
pub open spec fn kept_fresh(entry: Option<(Seq<SensorView>, Timestamp)>, now: Timestamp) -> Option<
    (Seq<SensorView>, Timestamp),
> {
    if served(entry, now) is Some {
        entry
    } else {
        None
    }
}

/// What a reader of the sensors gets at `now`: the list that the cache
/// serves, with the payloads of the replay cache replayed on it.
pub open spec fn answered(
    entry: Option<(Seq<SensorView>, Timestamp)>,
    texts: Seq<Seq<char>>,
    now: Timestamp,
) -> Option<Seq<SensorView>> {
    match served(entry, now) {
        Some(list) => Some(backfilled(list, texts, now)),
        None => None,
    }
}

/// Applies an event to every sensor that it is for, with `now` as the end of
/// the history window.
pub fn apply_to_all(sensors: &mut Vec<CompositeSensor>, event: &HueEvent, now: Timestamp)
    ensures
        final(sensors).deep_view() == routed(old(sensors).deep_view(), event@, now),
{
    let ghost start = sensors.deep_view();
    let n = sensors.len();
    let mut i: usize = 0;
    while i < n
        invariant
            i <= n,
            n == sensors@.len(),
            start.len() == n,
            forall|k: int| 0 <= k < i ==> sensors.deep_view()[k] == routed(start, event@, now)[k],
            forall|k: int| i <= k < n ==> sensors.deep_view()[k] == start[k],
        decreases n - i,
    {
        let ghost before = sensors.deep_view();
        let ghost held = sensors@;
        assert(before[i as int] == held[i as int]@);
        if sensors[i].receives(event) {
            sensors[i].apply_event_at(event, now);
            assert(sensors@[i as int]@ == held[i as int]@.applied(event@, now));
        }
        proof {
            let after = sensors.deep_view();
            assert(sensors@.len() == n);
            assert forall|k: int| 0 <= k < n && k != i implies #[trigger] after[k] == before[k] by {
                assert(sensors@[k] == held[k]);
            }
            assert(after[i as int] == sensors@[i as int]@);
            assert(after[i as int] == routed(start, event@, now)[i as int]);
            assert forall|k: int| 0 <= k < i + 1 implies after[k] == routed(start, event@, now)[k] by {
                if k < i {
                    assert(after[k] == before[k]);
                }
            }
            assert forall|k: int| i + 1 <= k < n implies after[k] == start[k] by {
                assert(after[k] == before[k]);
            }
        }
        i += 1;
    }
    assert(sensors.deep_view() =~= routed(start, event@, now));
}

/// Replays `texts` on the sensors: each text that decodes to an event is
/// applied to every sensor that it is for.
pub fn backfill_at(sensors: &mut Vec<CompositeSensor>, texts: &Vec<String>, now: Timestamp)
    ensures
        final(sensors).deep_view() == backfilled(old(sensors).deep_view(), texts.deep_view(), now),
{
    let mut i: usize = 0;
    while i < texts.len()
        invariant
            i <= texts@.len(),
            sensors.deep_view() == replayed(
                old(sensors).deep_view(),
                texts.deep_view(),
                i as int,
                now,
            ),
        decreases texts@.len() - i,
    {
        assert(texts.deep_view()[i as int] == texts@[i as int]@);
        match decode_event_at(texts[i].as_str(), now) {
            Some(event) => {
                apply_to_all(sensors, &event, now);
            },
            None => {},
        }
        i += 1;
    }
}

/// A copy of a list of sensors.
pub fn copy_sensors(sensors: &Vec<CompositeSensor>) -> (copy: Vec<CompositeSensor>)
    ensures
        copy.deep_view() == sensors.deep_view(),
{
    let mut copy: Vec<CompositeSensor> = Vec::new();
    let mut i: usize = 0;
    while i < sensors.len()
        invariant
            i <= sensors@.len(),
            copy@.len() == i,
            forall|k: int| 0 <= k < i ==> copy@[k]@ == sensors@[k]@,
        decreases sensors@.len() - i,
    {
        copy.push(sensors[i].clone());
        i += 1;
    }
    assert(copy.deep_view() =~= sensors.deep_view());
    copy
}

/// The list of all sensors as it was last fetched, with the time of the
/// fetch.
pub struct SensorsCache {
    entry: Option<(Vec<CompositeSensor>, Timestamp)>,
}

impl View for SensorsCache {
    type V = Option<(Seq<SensorView>, Timestamp)>;

    closed spec fn view(&self) -> Option<(Seq<SensorView>, Timestamp)> {
        match self.entry {
            Some((sensors, fetched_at)) => Some((sensors.deep_view(), fetched_at)),
            None => None,
        }
    }
}

impl SensorsCache {
    /// A cache without a list.
    pub fn new() -> (cache: Self)
        ensures
            cache@ is None,
    {
        SensorsCache { entry: None }
    }

    /// A copy of the list, if there is one and it is fresh at `now`. None
    /// means that the list has to be fetched.
    pub fn lookup_at(&self, now: Timestamp) -> (hit: Option<Vec<CompositeSensor>>)
        ensures
            hit.deep_view() == served(self@, now),
    {
        match &self.entry {
            Some((sensors, fetched_at)) => {
                if fetched_at.is_newer_than(&now, CACHE_TTL_SECS) {
                    Some(copy_sensors(sensors))
                } else {
                    None
                }
            },
            None => None,
        }
    }

    /// Puts a list that was fetched at `now` in the place of what the cache
    /// held.
    pub fn store_at(&mut self, sensors: Vec<CompositeSensor>, now: Timestamp)
        ensures
            final(self)@ == Some((sensors.deep_view(), now)),
    {
        self.entry = Some((sensors, now));
    }

    /// Discards the list if it has expired at `now`. This is the step for a
    /// fetch that failed: the expired list is not kept as a fallback.
    pub fn discard_expired_at(&mut self, now: Timestamp)
        ensures
            final(self)@ == kept_fresh(old(self)@, now),
    {
        let fresh = match &self.entry {
            Some((_, fetched_at)) => fetched_at.is_newer_than(&now, CACHE_TTL_SECS),
            None => false,
        };
        if !fresh {
            self.entry = None;
        }
    }

    /// Discards the list if it has expired now, by the clock: see
    /// [`SensorsCache::discard_expired_at`].
    pub fn discard_expired(&mut self)
        ensures
            exists|now: Timestamp| final(self)@ == #[trigger] kept_fresh(old(self)@, now),
    {
        let now = current_time();
        self.discard_expired_at(now);
        assert(self@ == kept_fresh(old(self)@, now));
    }

    /// Applies an event to the list, if the cache holds one; the time of the
    /// fetch stays.
    pub fn apply_at(&mut self, event: &HueEvent, now: Timestamp)
        ensures
            final(self)@ == match old(self)@ {
                Some((sensors, fetched_at)) => Some((routed(sensors, event@, now), fetched_at)),
                None => None,
            },
    {
        match self.entry.take() {
            Some((mut sensors, fetched_at)) => {
                apply_to_all(&mut sensors, event, now);
                self.entry = Some((sensors, fetched_at));
            },
            None => {},
        }
    }
}

/// The list of all sensors from the cache, with the replay cache replayed on
/// it, if the cache holds a list that is fresh at `now`. None means that the
/// list has to be fetched and handed to [`refresh_sensors_at`].
pub fn get_sensors_cached_at(cache: &SensorsCache, events: &EventCache, now: Timestamp) -> (sensors:
    Option<Vec<CompositeSensor>>)
    ensures
        sensors.deep_view() == answered(cache@, events@.all_at(now), now),
{
    match cache.lookup_at(now) {
        Some(mut sensors) => {
            let texts = events.get_all_at(now);
            backfill_at(&mut sensors, &texts, now);
            Some(sensors)
        },
        None => None,
    }
}

/// The list of all sensors from the cache, by the clock: see
/// [`get_sensors_cached_at`].
pub fn get_sensors_cached(cache: &SensorsCache, events: &EventCache) -> (sensors: Option<
    Vec<CompositeSensor>,
>)
    ensures
        exists|now: Timestamp|
            sensors.deep_view() == #[trigger] answered(cache@, events@.all_at(now), now),
{
    let now = current_time();
    let sensors = get_sensors_cached_at(cache, events, now);
    assert(sensors.deep_view() == answered(cache@, events@.all_at(now), now));
    sensors
}

/// Stores a list that was fetched at `now` and returns it with the replay
/// cache replayed on it. The cache keeps the list as it was fetched.
pub fn refresh_sensors_at(
    cache: &mut SensorsCache,
    events: &EventCache,
    fetched: Vec<CompositeSensor>,
    now: Timestamp,
) -> (sensors: Vec<CompositeSensor>)
    ensures
        final(cache)@ == Some((fetched.deep_view(), now)),
        sensors.deep_view() == backfilled(fetched.deep_view(), events@.all_at(now), now),
{
    let mut sensors = copy_sensors(&fetched);
    cache.store_at(fetched, now);
    let texts = events.get_all_at(now);
    backfill_at(&mut sensors, &texts, now);
    sensors
}

/// Stores a list that was fetched now, by the clock: see
/// [`refresh_sensors_at`].
pub fn refresh_sensors(cache: &mut SensorsCache, events: &EventCache, fetched: Vec<CompositeSensor>) -> (sensors:
    Vec<CompositeSensor>)
    ensures
        exists|now: Timestamp|
            final(cache)@ == Some((fetched.deep_view(), now)) && sensors.deep_view()
                == #[trigger] backfilled(fetched.deep_view(), events@.all_at(now), now),
{
    let now = current_time();
    let ghost list = fetched.deep_view();
    let sensors = refresh_sensors_at(cache, events, fetched, now);
    assert(cache@ == Some((list, now)) && sensors.deep_view() == backfilled(
        list,
        events@.all_at(now),
        now,
    ));
    sensors
}

/// Whether `answer` and the cache are what follows a fetch that ended at
/// `now`: a fetched list is stored and handed on with the payloads of the
/// replay cache replayed on it; a failure is handed on, and a list that has
/// expired is discarded, not served in its place.
pub open spec fn is_settled_fetch<E>(
    before: Option<(Seq<SensorView>, Timestamp)>,
    texts: Seq<Seq<char>>,
    fetched: Result<Vec<CompositeSensor>, E>,
    now: Timestamp,
    after: Option<(Seq<SensorView>, Timestamp)>,
    answer: Result<Vec<CompositeSensor>, E>,
) -> bool {
    match fetched {
        Ok(list) => {
            &&& after == Some((list.deep_view(), now))
            &&& answer matches Ok(sensors)
            &&& sensors.deep_view() == backfilled(list.deep_view(), texts, now)
        },
        Err(error) => {
            &&& after == kept_fresh(before, now)
            &&& answer == Err::<Vec<CompositeSensor>, E>(error)
        },
    }
}

/// Settles a fetch that ended at `now`, however it ended: see
/// [`is_settled_fetch`].
pub fn on_fetched_at<E>(
    cache: &mut SensorsCache,
    events: &EventCache,
    fetched: Result<Vec<CompositeSensor>, E>,
    now: Timestamp,
) -> (answer: Result<Vec<CompositeSensor>, E>)
    ensures
        is_settled_fetch(old(cache)@, events@.all_at(now), fetched, now, final(cache)@, answer),
{
    match fetched {
        Ok(list) => Ok(refresh_sensors_at(cache, events, list, now)),
        Err(error) => {
            cache.discard_expired_at(now);
            Err(error)
        },
    }
}

/// Settles a fetch that ended now, by the clock: see [`on_fetched_at`].
pub fn on_fetched<E>(
    cache: &mut SensorsCache,
    events: &EventCache,
    fetched: Result<Vec<CompositeSensor>, E>,
) -> (answer: Result<Vec<CompositeSensor>, E>)
    ensures
        exists|now: Timestamp|
            is_settled_fetch(old(cache)@, events@.all_at(now), fetched, now, final(cache)@, answer),
{
    let now = current_time();
    let answer = on_fetched_at(cache, events, fetched, now);
    assert(is_settled_fetch(old(cache)@, events@.all_at(now), fetched, now, cache@, answer));
    answer
}

/// A list that was stored at `fetched_at` is served to every reader that
/// comes before the time to live has passed, so none of them fetches; a
/// reader that comes when it has passed is served nothing and has to fetch,
/// and the list it stores is served again from then on.
pub proof fn lemma_one_fetch_per_window(
    sensors: Seq<SensorView>,
    fetched_at: Timestamp,
    now: Timestamp,
    refetched: Seq<SensorView>,
)
    ensures
        now.instant() - fetched_at.instant() < CACHE_TTL_SECS * crate::time::TICKS_PER_SECOND
            ==> served(Some((sensors, fetched_at)), now) == Some(sensors),
        now.instant() - fetched_at.instant() >= CACHE_TTL_SECS * crate::time::TICKS_PER_SECOND
            ==> served(Some((sensors, fetched_at)), now) is None,
        served(Some((refetched, now)), now) == Some(refetched),
{
}

/// Once a list that had expired was discarded, nothing is served from the
/// cache at any reading of the clock, also at one that lies before the time
/// at which the list was found expired.
pub proof fn lemma_discarded_is_not_served(
    entry: Option<(Seq<SensorView>, Timestamp)>,
    now: Timestamp,
    later: Timestamp,
)
    requires
        served(entry, now) is None,
    ensures
        served(kept_fresh(entry, now), later) is None,
{
}

} // verus!
