//! The join of the bridge's devices and sensor resources into one entry per
//! device, listed outdoor devices first and then by name.

use crate::client::{
    owner_of, ClientEx, DeviceResource, LightLevelResource, MotionResource, TemperatureResource,
};
use crate::events::{instant_of, or_default};
use crate::models::{Capability, CompositeSensor, LightData, MotionData, SensorView, TemperatureData};
use crate::text::{
    contains, lemma_bytes_le_total, lemma_bytes_le_transitive, lowercased, occurs_in, same_text,
    sorts_before_or_with, text_le, to_lowercase,
};
use crate::time::{current_time, Timestamp};
use vstd::prelude::*;
use vstd::utf8::encode_utf8;

verus! {

/// Whether the name of a product says that it is made for outdoors.
pub open spec fn mentions_outdoor(product: Option<Seq<char>>) -> bool {
    match product {
        Some(p) => occurs_in("outdoor"@, lowercased(p)),
        None => false,
    }
}

/// The entry that a device opens: none for a device without an id or a name.
pub open spec fn device_sensor(d: DeviceResource) -> Option<SensorView> {
    if d.id is Some && d.name is Some {
        Some(
            SensorView {
                device_id: d.id->0@,
                name: d.name->0@,
                is_outdoor: mentions_outdoor(d.product_name.deep_view()),
                enabled: true,
                motion: None,
                temperature: None,
                light: None,
            },
        )
    } else {
        None
    }
}

/// The place of the first entry of the device `id`.
pub open spec fn position_of(entries: Seq<SensorView>, id: Seq<char>) -> Option<int>
    decreases entries.len(),
{
    if entries.len() == 0 {
        None
    } else if entries[0].device_id == id {
        Some(0)
    } else {
        match position_of(entries.drop_first(), id) {
            Some(i) => Some(i + 1),
            None => None,
        }
    }
}

/// `entries` with `s` in the place of the entry of its device, or at the end
/// if the device has none.
pub open spec fn upserted(entries: Seq<SensorView>, s: SensorView) -> Seq<SensorView> {
    match position_of(entries, s.device_id) {
        Some(i) => entries.update(i, s),
        None => entries.push(s),
    }
}

/// The entries that the first `n` devices open, one per device id; a later
/// device takes the place of an earlier one with its id.
pub open spec fn device_entries(devices: Seq<DeviceResource>, n: int) -> Seq<SensorView>
    decreases n,
{
    if n <= 0 {
        Seq::empty()
    } else {
        let before = device_entries(devices, n - 1);
        match device_sensor(devices[n - 1]) {
            Some(s) => upserted(before, s),
            None => before,
        }
    }
}

/// The capability that a motion resource stands for. A missing switch reads
/// as on, a missing value as false, a missing or unreadable time as `now`.
pub open spec fn motion_of(m: MotionResource, now: Timestamp) -> Option<Capability<bool>> {
    if m.id is Some && m.report is Some {
        Some(
            Capability {
                id: m.id->0@,
                id_v1: m.id_v1.deep_view(),
                enabled: or_default(m.enabled, true),
                value: or_default(m.report->0.motion, false),
                last_updated: or_default(instant_of(m.report->0.changed.deep_view()), now),
                history: Seq::empty(),
            },
        )
    } else {
        None
    }
}

/// The capability that a temperature resource stands for. A missing switch
/// reads as on, a missing value as zero, a missing time as `now`.
pub open spec fn temperature_of(t: TemperatureResource, now: Timestamp) -> Option<Capability<u64>> {
    if t.id is Some && t.report is Some {
        Some(
            Capability {
                id: t.id->0@,
                id_v1: t.id_v1.deep_view(),
                enabled: or_default(t.enabled, true),
                value: or_default(t.report->0.temperature, 0u64),
                last_updated: or_default(t.report->0.changed, now),
                history: Seq::empty(),
            },
        )
    } else {
        None
    }
}

/// The capability that a light-level resource stands for. A missing switch
/// reads as on, a missing value as zero, a missing time as `now`. The level
/// is cut to 32 bits.
pub open spec fn light_of(l: LightLevelResource, now: Timestamp) -> Option<Capability<i32>> {
    if l.id is Some && l.report is Some {
        Some(
            Capability {
                id: l.id->0@,
                id_v1: l.id_v1.deep_view(),
                enabled: or_default(l.enabled, true),
                value: or_default(l.report->0.light_level, 0i64) as i32,
                last_updated: or_default(l.report->0.changed, now),
                history: Seq::empty(),
            },
        )
    } else {
        None
    }
}

/// `entries` with the motion resource on the entry of the device that owns
/// it, if it has a report and its owner has an entry.
pub open spec fn with_motion(entries: Seq<SensorView>, m: MotionResource, now: Timestamp) -> Seq<
    SensorView,
> {
    if motion_of(m, now) is Some && owner_of(m.owner) is Some && position_of(
        entries,
        owner_of(m.owner)->0,
    ) is Some {
        let i = position_of(entries, owner_of(m.owner)->0)->0;
        entries.update(i, SensorView { motion: motion_of(m, now), ..entries[i] })
    } else {
        entries
    }
}

/// `entries` with the temperature resource on the entry of the device that
/// owns it, if it has a report and its owner has an entry.
pub open spec fn with_temperature(
    entries: Seq<SensorView>,
    t: TemperatureResource,
    now: Timestamp,
) -> Seq<SensorView> {
    if temperature_of(t, now) is Some && owner_of(t.owner) is Some && position_of(
        entries,
        owner_of(t.owner)->0,
    ) is Some {
        let i = position_of(entries, owner_of(t.owner)->0)->0;
        entries.update(i, SensorView { temperature: temperature_of(t, now), ..entries[i] })
    } else {
        entries
    }
}

/// `entries` with the light-level resource on the entry of the device that
/// owns it, if it has a report and its owner has an entry.
pub open spec fn with_light(entries: Seq<SensorView>, l: LightLevelResource, now: Timestamp) -> Seq<
    SensorView,
> {
    if light_of(l, now) is Some && owner_of(l.owner) is Some && position_of(
        entries,
        owner_of(l.owner)->0,
    ) is Some {
        let i = position_of(entries, owner_of(l.owner)->0)->0;
        entries.update(i, SensorView { light: light_of(l, now), ..entries[i] })
    } else {
        entries
    }
}

/// `entries` with the first `n` motion resources, in order.
pub open spec fn with_motions(
    entries: Seq<SensorView>,
    motion: Seq<MotionResource>,
    n: int,
    now: Timestamp,
) -> Seq<SensorView>
    decreases n,
{
    if n <= 0 {
        entries
    } else {
        with_motion(with_motions(entries, motion, n - 1, now), motion[n - 1], now)
    }
}

/// `entries` with the first `n` temperature resources, in order.
pub open spec fn with_temperatures(
    entries: Seq<SensorView>,
    temperatures: Seq<TemperatureResource>,
    n: int,
    now: Timestamp,
) -> Seq<SensorView>
    decreases n,
{
    if n <= 0 {
        entries
    } else {
        with_temperature(
            with_temperatures(entries, temperatures, n - 1, now),
            temperatures[n - 1],
            now,
        )
    }
}

/// `entries` with the first `n` light-level resources, in order.
pub open spec fn with_lights(
    entries: Seq<SensorView>,
    lights: Seq<LightLevelResource>,
    n: int,
    now: Timestamp,
) -> Seq<SensorView>
    decreases n,
{
    if n <= 0 {
        entries
    } else {
        with_light(with_lights(entries, lights, n - 1, now), lights[n - 1], now)
    }
}

/// Whether a device has a sensor at all.
pub open spec fn has_sensor(s: SensorView) -> bool {
    s.motion is Some || s.temperature is Some || s.light is Some
}

/// Whether `a` is listed before `b`, or may stand on either side of it:
/// outdoor devices come first, then the names decide.
pub open spec fn lists_before_or_with(a: SensorView, b: SensorView) -> bool {
    (a.is_outdoor && !b.is_outdoor) || (a.is_outdoor == b.is_outdoor && text_le(a.name, b.name))
}

/// `s` with `x` put behind the last entry that is listed before or with `x`.
pub open spec fn listed(s: Seq<SensorView>, x: SensorView) -> Seq<SensorView>
    decreases s.len(),
{
    if s.len() == 0 {
        seq![x]
    } else if lists_before_or_with(s.last(), x) {
        s.push(x)
    } else {
        listed(s.drop_last(), x).push(s.last())
    }
}

/// The first `n` entries that have a sensor, each with its switch set to
/// what its capabilities say, in listing order; entries that the order does
/// not tell apart keep the order they have in `entries`.
pub open spec fn listing(entries: Seq<SensorView>, n: int) -> Seq<SensorView>
    decreases n,
{
    if n <= 0 {
        Seq::empty()
    } else if has_sensor(entries[n - 1]) {
        listed(listing(entries, n - 1), entries[n - 1].settled())
    } else {
        listing(entries, n - 1)
    }
}

/// The entries of the devices with all sensor resources on them.
pub open spec fn populated(
    motion: Seq<MotionResource>,
    temperatures: Seq<TemperatureResource>,
    lights: Seq<LightLevelResource>,
    devices: Seq<DeviceResource>,
    now: Timestamp,
) -> Seq<SensorView> {
    with_lights(
        with_temperatures(
            with_motions(
                device_entries(devices, devices.len() as int),
                motion,
                motion.len() as int,
                now,
            ),
            temperatures,
            temperatures.len() as int,
            now,
        ),
        lights,
        lights.len() as int,
        now,
    )
}

/// The sensors of the bridge: one entry per device that has a sensor, with
/// the sensor resources that the device owns, in listing order.
pub open spec fn joined(
    motion: Seq<MotionResource>,
    temperatures: Seq<TemperatureResource>,
    lights: Seq<LightLevelResource>,
    devices: Seq<DeviceResource>,
    now: Timestamp,
) -> Seq<SensorView> {
    listing(
        populated(motion, temperatures, lights, devices, now),
        populated(motion, temperatures, lights, devices, now).len() as int,
    )
}

/// `i` is the place of the device `id` when no entry before `i` is of that
/// device and the entry at `i` is; there is no place when no entry is.
pub proof fn lemma_position_is(entries: Seq<SensorView>, id: Seq<char>, i: int)
    requires
        0 <= i <= entries.len(),
        forall|k: int| 0 <= k < i ==> (#[trigger] entries[k]).device_id != id,
        i < entries.len() ==> entries[i].device_id == id,
    ensures
        position_of(entries, id) == if i < entries.len() {
            Some(i)
        } else {
            None::<int>
        },
    decreases i,
{
    if i > 0 {
        let rest = entries.drop_first();
        assert(entries[0].device_id != id);
        assert forall|k: int| 0 <= k < i - 1 implies (#[trigger] rest[k]).device_id != id by {
            assert(rest[k] == entries[k + 1]);
        }
        if i < entries.len() {
            assert(rest[i - 1] == entries[i]);
        }
        lemma_position_is(rest, id, i - 1);
    }
}

/// Where `x` goes in a listing: `j` is the place behind the last entry that
/// is listed before or with `x`.
pub proof fn lemma_listed_at(s: Seq<SensorView>, x: SensorView, j: int)
    requires
        0 <= j <= s.len(),
        forall|k: int| j <= k < s.len() ==> !lists_before_or_with(#[trigger] s[k], x),
        j > 0 ==> lists_before_or_with(s[j - 1], x),
    ensures
        listed(s, x) == s.insert(j, x),
    decreases s.len(),
{
    if s.len() == 0 {
        assert(s.insert(j, x) =~= seq![x]);
    } else if j == s.len() {
        assert(s.insert(j, x) =~= s.push(x));
    } else {
        assert(s.last() == s[s.len() - 1]);
        let front = s.drop_last();
        assert forall|k: int| j <= k < front.len() implies !lists_before_or_with(
            #[trigger] front[k],
            x,
        ) by {
            assert(front[k] == s[k]);
        }
        if j > 0 {
            assert(front[j - 1] == s[j - 1]);
        }
        lemma_listed_at(front, x, j);
        assert(front.insert(j, x).push(s.last()) =~= s.insert(j, x));
    }
}

/// The place where [`listed`] puts `x`.
pub open spec fn list_place(s: Seq<SensorView>, x: SensorView) -> int
    decreases s.len(),
{
    if s.len() == 0 {
        0
    } else if lists_before_or_with(s.last(), x) {
        s.len() as int
    } else {
        list_place(s.drop_last(), x)
    }
}

/// The listing order compares any two entries, and is transitive.
pub proof fn lemma_listing_order(a: SensorView, b: SensorView, c: SensorView)
    ensures
        lists_before_or_with(a, b) || lists_before_or_with(b, a),
        lists_before_or_with(a, b) && lists_before_or_with(b, c) ==> lists_before_or_with(a, c),
{
    lemma_bytes_le_total(encode_utf8(a.name), encode_utf8(b.name));
    if lists_before_or_with(a, b) && lists_before_or_with(b, c) && a.is_outdoor == b.is_outdoor
        && b.is_outdoor == c.is_outdoor {
        lemma_bytes_le_transitive(encode_utf8(a.name), encode_utf8(b.name), encode_utf8(c.name));
    }
}

/// Entries stand in listing order.
pub open spec fn is_listing(s: Seq<SensorView>) -> bool {
    forall|i: int, j: int| 0 <= i < j < s.len() ==> lists_before_or_with(s[i], s[j])
}

/// The place of `x` lies behind the last entry that is listed before or with
/// `x`, and `x` is put there.
pub proof fn lemma_list_place(s: Seq<SensorView>, x: SensorView)
    ensures
        0 <= list_place(s, x) <= s.len(),
        forall|k: int| list_place(s, x) <= k < s.len() ==> !lists_before_or_with(#[trigger] s[k], x),
        list_place(s, x) > 0 ==> lists_before_or_with(s[list_place(s, x) - 1], x),
        listed(s, x) == s.insert(list_place(s, x), x),
    decreases s.len(),
{
    if s.len() > 0 && !lists_before_or_with(s.last(), x) {
        let front = s.drop_last();
        lemma_list_place(front, x);
        let j = list_place(front, x);
        assert forall|k: int| j <= k < s.len() implies !lists_before_or_with(#[trigger] s[k], x) by {
            if k < front.len() {
                assert(front[k] == s[k]);
            }
        }
        assert(j > 0 ==> front[j - 1] == s[j - 1]);
    }
    lemma_listed_at(s, x, list_place(s, x));
}

/// Putting an entry into a listing leaves a listing, with that entry more.
pub proof fn lemma_listed(s: Seq<SensorView>, x: SensorView)
    requires
        is_listing(s),
    ensures
        is_listing(listed(s, x)),
        listed(s, x).len() == s.len() + 1,
        forall|e: SensorView|
            #![trigger listed(s, x).contains(e)]
            #![trigger s.contains(e)]
            listed(s, x).contains(e) <==> (s.contains(e) || e == x),
{
    lemma_list_place(s, x);
    let j = list_place(s, x);
    let p = s.insert(j, x);
    assert forall|a: int, b: int| 0 <= a < b < p.len() implies lists_before_or_with(p[a], p[b]) by {
        if b < j {
            assert(p[a] == s[a] && p[b] == s[b]);
        } else if b == j {
            assert(p[a] == s[a]);
            if a < j - 1 {
                assert(lists_before_or_with(s[a], s[j - 1]));
            }
            lemma_listing_order(s[a], s[j - 1], x);
        } else if a < j {
            assert(p[a] == s[a] && p[b] == s[b - 1]);
        } else if a == j {
            assert(p[b] == s[b - 1]);
            lemma_listing_order(s[b - 1], x, x);
        } else {
            assert(p[a] == s[a - 1] && p[b] == s[b - 1]);
        }
    }
    assert forall|e: SensorView| p.contains(e) <==> (s.contains(e) || e == x) by {
        if s.contains(e) {
            let i = choose|i: int| 0 <= i < s.len() && s[i] == e;
            if i < j {
                assert(p[i] == e);
            } else {
                assert(p[i + 1] == e);
            }
        }
        if e == x {
            assert(p[j] == e);
        }
        if p.contains(e) {
            let i = choose|i: int| 0 <= i < p.len() && p[i] == e;
            if i < j {
                assert(s[i] == e);
            } else if i > j {
                assert(s[i - 1] == e);
            }
        }
    }
}

/// The list of sensors stands in listing order: outdoor devices first, and
/// by name among the outdoor devices and among the others. It holds the
/// entries that have a sensor, and no other.
pub proof fn lemma_listing(entries: Seq<SensorView>, n: int)
    requires
        0 <= n <= entries.len(),
    ensures
        is_listing(listing(entries, n)),
        listing(entries, n).len() <= n,
        forall|e: SensorView|
            listing(entries, n).contains(e) <==> exists|i: int|
                0 <= i < n && has_sensor(#[trigger] entries[i]) && e == entries[i].settled(),
    decreases n,
{
    if n > 0 {
        lemma_listing(entries, n - 1);
        let before = listing(entries, n - 1);
        let last = entries[n - 1];
        if has_sensor(last) {
            lemma_listed(before, last.settled());
        }
        let now = listing(entries, n);
        assert forall|e: SensorView|
            now.contains(e) <==> exists|i: int|
                0 <= i < n && has_sensor(#[trigger] entries[i]) && e == entries[i].settled() by {
            if now.contains(e) {
                if has_sensor(last) && e == last.settled() {
                    assert(has_sensor(entries[n - 1]) && e == entries[n - 1].settled());
                } else {
                    if has_sensor(last) {
                        assert(listed(before, last.settled()).contains(e));
                    }
                    assert(before.contains(e));
                    let i = choose|i: int|
                        0 <= i < n - 1 && has_sensor(#[trigger] entries[i]) && e
                            == entries[i].settled();
                    assert(0 <= i < n && has_sensor(entries[i]) && e == entries[i].settled());
                }
            }
            if exists|i: int|
                0 <= i < n && has_sensor(#[trigger] entries[i]) && e == entries[i].settled() {
                let i = choose|i: int|
                    0 <= i < n && has_sensor(#[trigger] entries[i]) && e == entries[i].settled();
                if i < n - 1 {
                    assert(0 <= i < n - 1 && has_sensor(entries[i]) && e == entries[i].settled());
                    assert(before.contains(e));
                    if has_sensor(last) {
                        assert(listed(before, last.settled()).contains(e));
                    }
                } else {
                    assert(has_sensor(last) && e == last.settled());
                    assert(listed(before, last.settled()).contains(e));
                }
                assert(now.contains(e));
            }
        }
    }
}

/// No two entries are of one device.
pub open spec fn has_distinct_devices(s: Seq<SensorView>) -> bool {
    forall|i: int, j: int| 0 <= i < j < s.len() ==> s[i].device_id != s[j].device_id
}

/// The devices of the entries, in order.
pub open spec fn device_ids(s: Seq<SensorView>) -> Seq<Seq<char>> {
    s.map_values(|e: SensorView| e.device_id)
}

/// The place of a device is the place of its first entry, and there is none
/// exactly if no entry is of the device.
pub proof fn lemma_position_of(entries: Seq<SensorView>, id: Seq<char>)
    ensures
        match position_of(entries, id) {
            Some(i) => 0 <= i < entries.len() && entries[i].device_id == id,
            None => forall|k: int| 0 <= k < entries.len() ==> (#[trigger] entries[k]).device_id != id,
        },
    decreases entries.len(),
{
    if entries.len() > 0 && entries[0].device_id != id {
        let rest = entries.drop_first();
        lemma_position_of(rest, id);
        match position_of(rest, id) {
            Some(i) => {
                assert(rest[i] == entries[i + 1]);
            },
            None => {
                assert forall|k: int| 0 <= k < entries.len() implies (#[trigger] entries[k]).device_id
                    != id by {
                    if k > 0 {
                        assert(rest[k - 1] == entries[k]);
                    }
                }
            },
        }
    }
}

/// Entries with the same devices in the same order hold a device twice or
/// not alike.
pub proof fn lemma_same_devices(a: Seq<SensorView>, b: Seq<SensorView>)
    requires
        device_ids(a) == device_ids(b),
        has_distinct_devices(a),
    ensures
        has_distinct_devices(b),
{
    assert(a.len() == device_ids(a).len() && b.len() == device_ids(b).len());
    assert forall|i: int, j: int| 0 <= i < j < b.len() implies b[i].device_id
        != b[j].device_id by {
        assert(device_ids(b)[i] == b[i].device_id && device_ids(b)[j] == b[j].device_id);
        assert(device_ids(a)[i] == a[i].device_id && device_ids(a)[j] == a[j].device_id);
    }
}

/// The entries that devices open hold no device twice.
pub proof fn lemma_device_entries_distinct(devices: Seq<DeviceResource>, n: int)
    ensures
        has_distinct_devices(device_entries(devices, n)),
    decreases n,
{
    if n > 0 {
        lemma_device_entries_distinct(devices, n - 1);
        let before = device_entries(devices, n - 1);
        match device_sensor(devices[n - 1]) {
            Some(s) => {
                lemma_position_of(before, s.device_id);
                let after = upserted(before, s);
                assert forall|i: int, j: int| 0 <= i < j < after.len() implies after[i].device_id
                    != after[j].device_id by {
                    match position_of(before, s.device_id) {
                        Some(k) => {
                            assert(before[i].device_id != before[j].device_id);
                        },
                        None => {
                            if j == before.len() {
                                assert(before[i].device_id != s.device_id);
                            } else {
                                assert(before[i].device_id != before[j].device_id);
                            }
                        },
                    }
                }
            },
            None => {},
        }
    }
}

/// Putting sensor resources on the entries changes no device and no order.
pub proof fn lemma_populated_keeps_devices(
    motion: Seq<MotionResource>,
    temperatures: Seq<TemperatureResource>,
    lights: Seq<LightLevelResource>,
    devices: Seq<DeviceResource>,
    now: Timestamp,
)
    ensures
        device_ids(populated(motion, temperatures, lights, devices, now)) == device_ids(
            device_entries(devices, devices.len() as int),
        ),
{
    let opened = device_entries(devices, devices.len() as int);
    let moved = with_motions(opened, motion, motion.len() as int, now);
    let warmed = with_temperatures(moved, temperatures, temperatures.len() as int, now);
    lemma_with_motions_keeps_devices(opened, motion, motion.len() as int, now);
    lemma_with_temperatures_keeps_devices(moved, temperatures, temperatures.len() as int, now);
    lemma_with_lights_keeps_devices(warmed, lights, lights.len() as int, now);
}

/// Putting motion resources on the entries changes no device and no order.
proof fn lemma_with_motions_keeps_devices(
    entries: Seq<SensorView>,
    motion: Seq<MotionResource>,
    n: int,
    now: Timestamp,
)
    ensures
        device_ids(with_motions(entries, motion, n, now)) == device_ids(entries),
    decreases n,
{
    if n > 0 {
        lemma_with_motions_keeps_devices(entries, motion, n - 1, now);
        let before = with_motions(entries, motion, n - 1, now);
        let m = motion[n - 1];
        if owner_of(m.owner) is Some {
            lemma_position_of(before, owner_of(m.owner)->0);
        }
        assert(device_ids(with_motion(before, m, now)) =~= device_ids(before));
    }
}

/// Putting temperature resources on the entries changes no device and no order.
proof fn lemma_with_temperatures_keeps_devices(
    entries: Seq<SensorView>,
    temperatures: Seq<TemperatureResource>,
    n: int,
    now: Timestamp,
)
    ensures
        device_ids(with_temperatures(entries, temperatures, n, now)) == device_ids(entries),
    decreases n,
{
    if n > 0 {
        lemma_with_temperatures_keeps_devices(entries, temperatures, n - 1, now);
        let before = with_temperatures(entries, temperatures, n - 1, now);
        let t = temperatures[n - 1];
        if owner_of(t.owner) is Some {
            lemma_position_of(before, owner_of(t.owner)->0);
        }
        assert(device_ids(with_temperature(before, t, now)) =~= device_ids(before));
    }
}

/// Putting light-level resources on the entries changes no device and no order.
proof fn lemma_with_lights_keeps_devices(
    entries: Seq<SensorView>,
    lights: Seq<LightLevelResource>,
    n: int,
    now: Timestamp,
)
    ensures
        device_ids(with_lights(entries, lights, n, now)) == device_ids(entries),
    decreases n,
{
    if n > 0 {
        lemma_with_lights_keeps_devices(entries, lights, n - 1, now);
        let before = with_lights(entries, lights, n - 1, now);
        let l = lights[n - 1];
        if owner_of(l.owner) is Some {
            lemma_position_of(before, owner_of(l.owner)->0);
        }
        assert(device_ids(with_light(before, l, now)) =~= device_ids(before));
    }
}

/// A listing of entries that hold no device twice holds none twice.
pub proof fn lemma_listing_distinct(entries: Seq<SensorView>, n: int)
    requires
        0 <= n <= entries.len(),
        has_distinct_devices(entries),
    ensures
        has_distinct_devices(listing(entries, n)),
    decreases n,
{
    if n > 0 {
        lemma_listing_distinct(entries, n - 1);
        lemma_listing(entries, n - 1);
        let before = listing(entries, n - 1);
        let last = entries[n - 1];
        if has_sensor(last) {
            let x = last.settled();
            lemma_list_place(before, x);
            let j = list_place(before, x);
            let p = before.insert(j, x);
            assert forall|k: int| 0 <= k < before.len() implies (#[trigger] before[k]).device_id
                != x.device_id by {
                assert(before.contains(before[k]));
                let i = choose|i: int|
                    0 <= i < n - 1 && has_sensor(#[trigger] entries[i]) && before[k]
                        == entries[i].settled();
                assert(entries[i].device_id != entries[n - 1].device_id);
            }
            assert forall|a: int, b: int| 0 <= a < b < p.len() implies p[a].device_id
                != p[b].device_id by {
                if b < j {
                    assert(p[a] == before[a] && p[b] == before[b]);
                } else if b == j {
                    assert(p[a] == before[a]);
                } else if a < j {
                    assert(p[a] == before[a] && p[b] == before[b - 1]);
                } else if a == j {
                    assert(p[b] == before[b - 1]);
                } else {
                    assert(p[a] == before[a - 1] && p[b] == before[b - 1]);
                }
            }
        }
    }
}

/// The list of sensors holds at most one entry per device.
pub proof fn lemma_one_sensor_per_device(
    motion: Seq<MotionResource>,
    temperatures: Seq<TemperatureResource>,
    lights: Seq<LightLevelResource>,
    devices: Seq<DeviceResource>,
    now: Timestamp,
)
    ensures
        has_distinct_devices(joined(motion, temperatures, lights, devices, now)),
{
    let opened = device_entries(devices, devices.len() as int);
    let entries = populated(motion, temperatures, lights, devices, now);
    lemma_device_entries_distinct(devices, devices.len() as int);
    lemma_populated_keeps_devices(motion, temperatures, lights, devices, now);
    lemma_same_devices(opened, entries);
    lemma_listing_distinct(entries, entries.len() as int);
}

/// The place of the entry of the device `id`, if it has one.
fn find_device(entries: &Vec<CompositeSensor>, id: &str) -> (at: Option<usize>)
    ensures
        match at {
            Some(i) => i < entries@.len() && position_of(entries.deep_view(), id@) == Some(
                i as int,
            ),
            None => position_of(entries.deep_view(), id@) is None,
        },
{
    let mut i: usize = 0;
    while i < entries.len()
        invariant
            i <= entries@.len(),
            forall|k: int| 0 <= k < i ==> (#[trigger] entries.deep_view()[k]).device_id != id@,
        decreases entries@.len() - i,
    {
        if same_text(entries[i].device_id.as_str(), id) {
            proof {
                assert(entries.deep_view()[i as int].device_id == id@);
                lemma_position_is(entries.deep_view(), id@, i as int);
            }
            return Some(i);
        }
        assert(entries.deep_view()[i as int].device_id != id@);
        i += 1;
    }
    proof {
        lemma_position_is(entries.deep_view(), id@, i as int);
    }
    None
}

/// Whether the name of a product says that it is made for outdoors.
fn is_outdoor_product(product: &Option<String>) -> (outdoor: bool)
    ensures
        outdoor == mentions_outdoor(product.deep_view()),
{
    match product {
        Some(p) => {
            let lower = to_lowercase(p.as_str());
            contains(lower.as_str(), "outdoor")
        },
        None => false,
    }
}

/// Puts the motion resource on the entry of the device that owns it.
fn attach_motion(entries: &mut Vec<CompositeSensor>, m: &MotionResource, now: Timestamp)
    ensures
        final(entries).deep_view() == with_motion(old(entries).deep_view(), *m, now),
{
    let ghost before = entries.deep_view();
    match (&m.id, ClientEx::get_owner_rid(&m.owner), &m.report) {
        (Some(id), Some(owner), Some(report)) => {
            match find_device(entries, owner.as_str()) {
                Some(k) => {
                    entries[k].motion = Some(
                        MotionData {
                            id: id.clone(),
                            id_v1: match &m.id_v1 {
                                Some(v) => Some(v.clone()),
                                None => None,
                            },
                            enabled: match m.enabled {
                                Some(e) => e,
                                None => true,
                            },
                            presence: match report.motion {
                                Some(p) => p,
                                None => false,
                            },
                            last_updated: ClientEx::parse_date_or(&report.changed, now),
                            history: Vec::new(),
                        },
                    );
                    assert(entries.deep_view() =~= with_motion(before, *m, now));
                },
                None => {},
            }
        },
        _ => {},
    }
}

/// Puts the temperature resource on the entry of the device that owns it.
fn attach_temperature(entries: &mut Vec<CompositeSensor>, t: &TemperatureResource, now: Timestamp)
    ensures
        final(entries).deep_view() == with_temperature(old(entries).deep_view(), *t, now),
{
    let ghost before = entries.deep_view();
    match (&t.id, ClientEx::get_owner_rid(&t.owner), &t.report) {
        (Some(id), Some(owner), Some(report)) => {
            match find_device(entries, owner.as_str()) {
                Some(k) => {
                    entries[k].temperature = Some(
                        TemperatureData {
                            id: id.clone(),
                            id_v1: match &t.id_v1 {
                                Some(v) => Some(v.clone()),
                                None => None,
                            },
                            enabled: match t.enabled {
                                Some(e) => e,
                                None => true,
                            },
                            temperature: match report.temperature {
                                Some(v) => v,
                                None => 0,
                            },
                            last_updated: match report.changed {
                                Some(at) => at,
                                None => now,
                            },
                            history: Vec::new(),
                        },
                    );
                    assert(entries.deep_view() =~= with_temperature(before, *t, now));
                },
                None => {},
            }
        },
        _ => {},
    }
}

/// Puts the light-level resource on the entry of the device that owns it.
fn attach_light(entries: &mut Vec<CompositeSensor>, l: &LightLevelResource, now: Timestamp)
    ensures
        final(entries).deep_view() == with_light(old(entries).deep_view(), *l, now),
{
    let ghost before = entries.deep_view();
    match (&l.id, ClientEx::get_owner_rid(&l.owner), &l.report) {
        (Some(id), Some(owner), Some(report)) => {
            match find_device(entries, owner.as_str()) {
                Some(k) => {
                    let level: i64 = match report.light_level {
                        Some(v) => v,
                        None => 0,
                    };
                    entries[k].light = Some(
                        LightData {
                            id: id.clone(),
                            id_v1: match &l.id_v1 {
                                Some(v) => Some(v.clone()),
                                None => None,
                            },
                            enabled: match l.enabled {
                                Some(e) => e,
                                None => true,
                            },
                            light_level: #[verifier::truncate]
                            (level as i32),
                            last_updated: match report.changed {
                                Some(at) => at,
                                None => now,
                            },
                            history: Vec::new(),
                        },
                    );
                    assert(entries.deep_view() =~= with_light(before, *l, now));
                },
                None => {},
            }
        },
        _ => {},
    }
}

/// Whether `a` is listed before `b`, or may stand on either side of it.
fn goes_before_or_with(a: &CompositeSensor, b: &CompositeSensor) -> (yes: bool)
    ensures
        yes == lists_before_or_with(a@, b@),
{
    if a.is_outdoor != b.is_outdoor {
        a.is_outdoor
    } else {
        sorts_before_or_with(a.name.as_str(), b.name.as_str())
    }
}

/// Puts `x` into a listing, behind the last entry that is listed before or
/// with it.
fn list_in(sorted: &mut Vec<CompositeSensor>, x: CompositeSensor)
    ensures
        final(sorted).deep_view() == listed(old(sorted).deep_view(), x@),
{
    let ghost before = sorted.deep_view();
    let mut j: usize = sorted.len();
    while j > 0 && !goes_before_or_with(&sorted[j - 1], &x)
        invariant
            j <= sorted@.len(),
            before == sorted.deep_view(),
            forall|k: int| j <= k < before.len() ==> !lists_before_or_with(#[trigger] before[k], x@),
        decreases j,
    {
        j -= 1;
    }
    proof {
        if j > 0 {
            assert(before[j - 1] == sorted@[j - 1]@);
        }
        lemma_listed_at(before, x@, j as int);
    }
    sorted.insert(j, x);
    assert(sorted.deep_view() =~= before.insert(j as int, x@));
}

impl ClientEx {
    /// One entry per device that has an id and a name, without sensors.
    pub fn init_device_map(devices: &Vec<DeviceResource>) -> (entries: Vec<CompositeSensor>)
        ensures
            entries.deep_view() == device_entries(devices@, devices@.len() as int),
    {
        let mut entries: Vec<CompositeSensor> = Vec::new();
        assert(entries.deep_view() =~= Seq::empty());
        let mut i: usize = 0;
        while i < devices.len()
            invariant
                i <= devices@.len(),
                entries.deep_view() == device_entries(devices@, i as int),
            decreases devices@.len() - i,
        {
            let ghost before = entries.deep_view();
            match (&devices[i].id, &devices[i].name) {
                (Some(id), Some(name)) => {
                    let sensor = CompositeSensor::new(
                        id.clone(),
                        name.clone(),
                        is_outdoor_product(&devices[i].product_name),
                    );
                    match find_device(&entries, id.as_str()) {
                        Some(k) => {
                            entries[k] = sensor;
                            assert(entries.deep_view() =~= before.update(k as int, sensor@));
                        },
                        None => {
                            entries.push(sensor);
                            assert(entries.deep_view() =~= before.push(sensor@));
                        },
                    }
                },
                _ => {},
            }
            i += 1;
        }
        entries
    }

    /// Joins the bridge's devices and sensor resources into one entry per
    /// device that has a sensor. `now` stands for a time of change that a
    /// report does not give.
    pub fn get_sensors_at(
        motion: &Vec<MotionResource>,
        temperatures: &Vec<TemperatureResource>,
        lights: &Vec<LightLevelResource>,
        devices: &Vec<DeviceResource>,
        now: Timestamp,
    ) -> (sensors: Vec<CompositeSensor>)
        ensures
            sensors.deep_view() == joined(motion@, temperatures@, lights@, devices@, now),
            has_distinct_devices(sensors.deep_view()),
    {
        proof {
            lemma_one_sensor_per_device(motion@, temperatures@, lights@, devices@, now);
        }
        let mut entries = ClientEx::init_device_map(devices);
        let ghost opened = entries.deep_view();
        let mut i: usize = 0;
        while i < motion.len()
            invariant
                i <= motion@.len(),
                entries.deep_view() == with_motions(opened, motion@, i as int, now),
            decreases motion@.len() - i,
        {
            attach_motion(&mut entries, &motion[i], now);
            i += 1;
        }
        let ghost moved = entries.deep_view();
        let mut i: usize = 0;
        while i < temperatures.len()
            invariant
                i <= temperatures@.len(),
                entries.deep_view() == with_temperatures(moved, temperatures@, i as int, now),
            decreases temperatures@.len() - i,
        {
            attach_temperature(&mut entries, &temperatures[i], now);
            i += 1;
        }
        let ghost warmed = entries.deep_view();
        let mut i: usize = 0;
        while i < lights.len()
            invariant
                i <= lights@.len(),
                entries.deep_view() == with_lights(warmed, lights@, i as int, now),
            decreases lights@.len() - i,
        {
            attach_light(&mut entries, &lights[i], now);
            i += 1;
        }
        let mut sensors: Vec<CompositeSensor> = Vec::new();
        assert(sensors.deep_view() =~= Seq::empty());
        let mut i: usize = 0;
        while i < entries.len()
            invariant
                i <= entries@.len(),
                sensors.deep_view() == listing(entries.deep_view(), i as int),
            decreases entries@.len() - i,
        {
            let entry = &entries[i];
            assert(entry@ == entries.deep_view()[i as int]);
            if entry.motion.is_some() || entry.temperature.is_some() || entry.light.is_some() {
                let mut sensor = entry.clone();
                sensor.enabled = sensor.all_enabled();
                list_in(&mut sensors, sensor);
            }
            i += 1;
        }
        sensors
    }

    /// Joins the bridge's devices and sensor resources into one entry per
    /// device that has a sensor. A time of change that a report does not give
    /// is read from the clock.
    pub fn get_sensors(
        motion: &Vec<MotionResource>,
        temperatures: &Vec<TemperatureResource>,
        lights: &Vec<LightLevelResource>,
        devices: &Vec<DeviceResource>,
    ) -> (sensors: Vec<CompositeSensor>)
        ensures
            exists|now: Timestamp|
                sensors.deep_view() == joined(motion@, temperatures@, lights@, devices@, now),
    {
        let now = current_time();
        let sensors = ClientEx::get_sensors_at(motion, temperatures, lights, devices, now);
        assert(sensors.deep_view() == joined(motion@, temperatures@, lights@, devices@, now));
        sensors
    }
}

} // verus!
