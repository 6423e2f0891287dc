//! What the bridge's resources say of its sensors: the address of the update
//! stream, the reading of one stream line, the join of the sensor resources
//! into one entry per device, and the display names of the resources.

use crate::events::{instant_of, or_default, LightLevelReport, TemperatureReport};
use crate::names::NameMap;
use crate::text::copy_text;
use crate::time::{current_time, parse_rfc3339, Timestamp};
use vstd::prelude::*;
use vstd::string::StringExecFns;

verus! {

/// A reference to a resource of the bridge.
#[derive(Clone, Debug, PartialEq)]
pub struct ResourceIdentifier {
    pub rid: Option<String>,
    pub rtype: Option<String>,
}

/// The report of a motion resource as the bridge's API gives it: the time of
/// change is still text.
#[derive(Clone, Debug, PartialEq)]
pub struct MotionReading {
    pub motion: Option<bool>,
    pub changed: Option<String>,
}

/// A motion resource of the bridge.
#[derive(Clone, Debug, PartialEq)]
pub struct MotionResource {
    pub id: Option<String>,
    pub id_v1: Option<String>,
    pub owner: Option<ResourceIdentifier>,
    pub enabled: Option<bool>,
    pub report: Option<MotionReading>,
}

/// A temperature resource of the bridge.
#[derive(Clone, Debug, PartialEq)]
pub struct TemperatureResource {
    pub id: Option<String>,
    pub id_v1: Option<String>,
    pub owner: Option<ResourceIdentifier>,
    pub enabled: Option<bool>,
    pub report: Option<TemperatureReport>,
}

/// A light-level resource of the bridge.
#[derive(Clone, Debug, PartialEq)]
pub struct LightLevelResource {
    pub id: Option<String>,
    pub id_v1: Option<String>,
    pub owner: Option<ResourceIdentifier>,
    pub enabled: Option<bool>,
    pub report: Option<LightLevelReport>,
}

/// A device of the bridge: its name, the name of its product, and the
/// resources it offers.
#[derive(Clone, Debug, PartialEq)]
pub struct DeviceResource {
    pub id: Option<String>,
    pub name: Option<String>,
    pub product_name: Option<String>,
    pub services: Vec<ResourceIdentifier>,
}

/// A room, a zone or a bridge home: a named group of resources.
#[derive(Clone, Debug, PartialEq)]
pub struct GroupResource {
    pub id: Option<String>,
    pub name: Option<String>,
    pub services: Vec<ResourceIdentifier>,
}

/// A light of the bridge.
#[derive(Clone, Debug, PartialEq)]
pub struct LightResource {
    pub id: Option<String>,
    pub name: Option<String>,
}

/// The id of the resource that a reference names.
pub open spec fn owner_of(owner: Option<ResourceIdentifier>) -> Option<Seq<char>> {
    match owner {
        Some(o) => o.rid.deep_view(),
        None => None,
    }
}

/// `names` with `name` for each of the first `n` resources of `services`
/// that has an id.
pub open spec fn with_services(
    names: Map<Seq<char>, Seq<char>>,
    name: Seq<char>,
    services: Seq<ResourceIdentifier>,
    n: int,
) -> Map<Seq<char>, Seq<char>>
    decreases n,
{
    if n <= 0 {
        names
    } else {
        let before = with_services(names, name, services, n - 1);
        match services[n - 1].rid {
            Some(rid) => before.insert(rid@, name),
            None => before,
        }
    }
}

/// `names` with `name` for a resource and for each resource it offers; the
/// same map if the resource lacks an id or a name.
pub open spec fn with_resource(
    names: Map<Seq<char>, Seq<char>>,
    id: Option<Seq<char>>,
    name: Option<Seq<char>>,
    services: Seq<ResourceIdentifier>,
) -> Map<Seq<char>, Seq<char>> {
    if id is Some && name is Some {
        with_services(names.insert(id->0, name->0), name->0, services, services.len() as int)
    } else {
        names
    }
}

/// `names` with the names of the first `n` devices.
pub open spec fn with_devices(names: Map<Seq<char>, Seq<char>>, devices: Seq<DeviceResource>, n: int) -> Map<
    Seq<char>,
    Seq<char>,
>
    decreases n,
{
    if n <= 0 {
        names
    } else {
        with_resource(
            with_devices(names, devices, n - 1),
            devices[n - 1].id.deep_view(),
            devices[n - 1].name.deep_view(),
            devices[n - 1].services@,
        )
    }
}

/// `names` with the names of the first `n` groups.
pub open spec fn with_groups(names: Map<Seq<char>, Seq<char>>, groups: Seq<GroupResource>, n: int) -> Map<
    Seq<char>,
    Seq<char>,
>
    decreases n,
{
    if n <= 0 {
        names
    } else {
        with_resource(
            with_groups(names, groups, n - 1),
            groups[n - 1].id.deep_view(),
            groups[n - 1].name.deep_view(),
            groups[n - 1].services@,
        )
    }
}

/// `names` with the name `Bridge Home` for the first `n` bridge homes.
pub open spec fn with_homes(names: Map<Seq<char>, Seq<char>>, homes: Seq<GroupResource>, n: int) -> Map<
    Seq<char>,
    Seq<char>,
>
    decreases n,
{
    if n <= 0 {
        names
    } else {
        with_resource(
            with_homes(names, homes, n - 1),
            homes[n - 1].id.deep_view(),
            Some("Bridge Home"@),
            homes[n - 1].services@,
        )
    }
}

/// `names` with the names of the first `n` lights that have an id and a name.
pub open spec fn with_lights(names: Map<Seq<char>, Seq<char>>, lights: Seq<LightResource>, n: int) -> Map<
    Seq<char>,
    Seq<char>,
>
    decreases n,
{
    if n <= 0 {
        names
    } else {
        let before = with_lights(names, lights, n - 1);
        if lights[n - 1].id is Some && lights[n - 1].name is Some {
            before.insert(lights[n - 1].id->0@, lights[n - 1].name->0@)
        } else {
            before
        }
    }
}

/// The display names of all resources: those of the devices, then of the
/// rooms, the zones, the bridge homes and the lights, a later name taking the
/// place of an earlier one.
pub open spec fn name_map_of(
    devices: Seq<DeviceResource>,
    rooms: Seq<GroupResource>,
    zones: Seq<GroupResource>,
    lights: Seq<LightResource>,
    bridge_homes: Seq<GroupResource>,
) -> Map<Seq<char>, Seq<char>> {
    with_lights(
        with_homes(
            with_groups(
                with_groups(
                    with_devices(Map::empty(), devices, devices.len() as int),
                    rooms,
                    rooms.len() as int,
                ),
                zones,
                zones.len() as int,
            ),
            bridge_homes,
            bridge_homes.len() as int,
        ),
        lights,
        lights.len() as int,
    )
}

/// The bridge as the library needs it: the base address of its API.
pub struct ClientEx {
    base_url: String,
}

impl ClientEx {
    /// The base address of the bridge's API.
    pub closed spec fn base(&self) -> Seq<char> {
        self.base_url@
    }

    /// The bridge at `base_url`.
    pub fn new(base_url: String) -> (client: Self)
        ensures
            client.base() == base_url@,
    {
        ClientEx { base_url }
    }

    /// The base address of the bridge's API.
    pub fn base_url(&self) -> (url: &str)
        ensures
            url@ == self.base(),
    {
        self.base_url.as_str()
    }

    /// The address of the bridge's update stream.
    pub fn event_stream_url(&self) -> (url: String)
        ensures
            url@ == self.base() + "/eventstream/clip/v2"@,
    {
        self.base_url.clone().concat("/eventstream/clip/v2")
    }

    /// The instant that `s` denotes, or `fallback` where `s` is missing or is
    /// no RFC 3339 date-and-time.
    pub fn parse_date_or(s: &Option<String>, fallback: Timestamp) -> (at: Timestamp)
        ensures
            at == or_default(instant_of(s.deep_view()), fallback),
    {
        match s {
            Some(text) => match parse_rfc3339(text.as_str()) {
                Some(at) => at,
                None => fallback,
            },
            None => fallback,
        }
    }

    /// The instant that `s` denotes, or the reading of the clock where `s` is
    /// missing or is no RFC 3339 date-and-time.
    pub fn parse_date(s: &Option<String>) -> (at: Timestamp)
        ensures
            exists|now: Timestamp| at == or_default(instant_of(s.deep_view()), now),
            instant_of(s.deep_view()) is Some ==> at == instant_of(s.deep_view())->0,
    {
        let now = current_time();
        let at = ClientEx::parse_date_or(s, now);
        assert(at == or_default(instant_of(s.deep_view()), now));
        at
    }

    /// The id of the resource that a reference names.
    pub fn get_owner_rid(owner: &Option<ResourceIdentifier>) -> (rid: Option<String>)
        ensures
            rid.deep_view() == owner_of(*owner),
    {
        match owner {
            Some(o) => match &o.rid {
                Some(rid) => Some(rid.clone()),
                None => None,
            },
            None => None,
        }
    }

    /// Gives a resource and each resource it offers the name `name`. Nothing
    /// changes where the resource lacks an id or a name.
    pub fn insert_resource_names(
        map: &mut NameMap,
        id: Option<String>,
        name: Option<String>,
        services: &Vec<ResourceIdentifier>,
    )
        ensures
            final(map)@ == with_resource(old(map)@, id.deep_view(), name.deep_view(), services@),
    {
        match (id, name) {
            (Some(id), Some(name)) => {
                map.insert(id, name.clone());
                let mut i: usize = 0;
                while i < services.len()
                    invariant
                        i <= services.len(),
                        map@ == with_services(
                            old(map)@.insert(id@, name@),
                            name@,
                            services@,
                            i as int,
                        ),
                    decreases services.len() - i,
                {
                    match &services[i].rid {
                        Some(rid) => {
                            map.insert(rid.clone(), name.clone());
                        },
                        None => {},
                    }
                    i += 1;
                }
            },
            _ => {},
        }
    }

    /// The display names of all resources, by resource id.
    pub fn get_name_map(
        devices: &Vec<DeviceResource>,
        rooms: &Vec<GroupResource>,
        zones: &Vec<GroupResource>,
        lights: &Vec<LightResource>,
        bridge_homes: &Vec<GroupResource>,
    ) -> (names: NameMap)
        ensures
            names@ == name_map_of(devices@, rooms@, zones@, lights@, bridge_homes@),
    {
        let mut names = NameMap::new();
        let mut i: usize = 0;
        while i < devices.len()
            invariant
                i <= devices.len(),
                names@ == with_devices(Map::empty(), devices@, i as int),
            decreases devices.len() - i,
        {
            ClientEx::insert_resource_names(
                &mut names,
                copy_text(&devices[i].id),
                copy_text(&devices[i].name),
                &devices[i].services,
            );
            i += 1;
        }
        ClientEx::add_groups(&mut names, rooms);
        ClientEx::add_groups(&mut names, zones);
        let ghost grouped = names@;
        let mut i: usize = 0;
        while i < bridge_homes.len()
            invariant
                i <= bridge_homes.len(),
                names@ == with_homes(grouped, bridge_homes@, i as int),
            decreases bridge_homes.len() - i,
        {
            ClientEx::insert_resource_names(
                &mut names,
                copy_text(&bridge_homes[i].id),
                Some("Bridge Home".to_owned()),
                &bridge_homes[i].services,
            );
            i += 1;
        }
        let ghost homed = names@;
        let mut i: usize = 0;
        while i < lights.len()
            invariant
                i <= lights.len(),
                names@ == with_lights(homed, lights@, i as int),
            decreases lights.len() - i,
        {
            match (&lights[i].id, &lights[i].name) {
                (Some(id), Some(name)) => {
                    names.insert(id.clone(), name.clone());
                },
                _ => {},
            }
            i += 1;
        }
        names
    }

    /// Adds the names of the groups to `names`.
    fn add_groups(names: &mut NameMap, groups: &Vec<GroupResource>)
        ensures
            final(names)@ == with_groups(old(names)@, groups@, groups@.len() as int),
    {
        let mut i: usize = 0;
        while i < groups.len()
            invariant
                i <= groups.len(),
                names@ == with_groups(old(names)@, groups@, i as int),
            decreases groups.len() - i,
        {
            ClientEx::insert_resource_names(
                names,
                copy_text(&groups[i].id),
                copy_text(&groups[i].name),
                &groups[i].services,
            );
            i += 1;
        }
    }
}

} // verus!
