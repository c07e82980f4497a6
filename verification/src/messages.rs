//! The request and response shapes the service speaks, and the plain data
//! types they carry. The wire encoding itself is an external concern; these
//! types hold exactly the fields the core logic depends on.
//!
//! Positions and velocities are carried as fixed-point integers (microdegrees,
//! millimeters, millidegrees) so that every field is a plain value the
//! contracts can speak about.

use vstd::prelude::*;
use crate::time::Timestamp;

verus! {

/// Capability flags bound to a token. Each operation on the service requires
/// exactly one of these to be set on the caller's resolved token.
#[derive(Clone, Copy, Debug, PartialEq, Eq, Structural)]
pub struct Permissions {
    pub list_tokens: bool,
    pub write_locations: bool,
    pub read_locations: bool,
    pub nearby: bool,
    pub stats: bool,
    pub wipe: bool,
}

impl Permissions {
    /// No capability at all.
    pub open spec fn spec_none() -> Permissions {
        Permissions {
            list_tokens: false,
            write_locations: false,
            read_locations: false,
            nearby: false,
            stats: false,
            wipe: false,
        }
    }

    /// The single capability left to a token once its identity is marked for
    /// remote wipe: acknowledging the wipe.
    pub open spec fn spec_wipe_only() -> Permissions {
        Permissions { wipe: true, ..Permissions::spec_none() }
    }

    pub fn wipe_only() -> (p: Permissions)
        ensures
            p == Permissions::spec_wipe_only(),
    {
        Permissions {
            list_tokens: false,
            write_locations: false,
            read_locations: false,
            nearby: false,
            stats: false,
            wipe: true,
        }
    }
}

/// A reported position, in fixed-point units: latitude and longitude in
/// microdegrees, elevation in millimeters.
#[derive(Clone, Copy, Debug, PartialEq, Eq, Structural)]
pub struct Location {
    pub microdegrees_latitude: i64,
    pub microdegrees_longitude: i64,
    pub millimeters_elevation: i64,
}

/// A reported velocity: speed in millimeters per second, bearing in
/// millidegrees.
#[derive(Clone, Copy, Debug, PartialEq, Eq, Structural)]
pub struct Velocity {
    pub millimeters_per_second_speed: i64,
    pub millidegrees_bearing: i64,
}

/// Registration request: an out-of-band registration key (checked only in
/// closed-registration deployments) and two capability hints that seed the
/// issued token's permissions.
#[derive(Debug)]
pub struct IntroduceMyselfArg {
    pub registration_key: Vec<u8>,
    pub remote_wipe_enabled: bool,
    pub can_read_nearby_devices: bool,
}

#[derive(Debug)]
pub struct IntroduceMyselfResult {
    pub nice_to_meet_you: bool,
    pub your_token: Vec<u8>,
}

/// One location report as submitted by a device. The token authenticates the
/// caller; `update_time` and the observed remote address are server-assigned
/// and never taken from here.
#[derive(Debug)]
pub struct SubmitLocationArg {
    pub token: Vec<u8>,
    pub emergency: bool,
    pub location: Option<Location>,
    pub velocity: Option<Velocity>,
    pub notes: String,
    pub nearby_wifi_network: Vec<String>,
    pub nearby_bluetooth_devices: Vec<String>,
    pub expected_next_update_time: Option<Timestamp>,
}

#[derive(Clone, Copy, Debug, PartialEq, Eq, Structural)]
pub struct SubmitLocationResult {
    pub recorded: bool,
    pub excommunicated: bool,
    pub remote_wipe: bool,
}

#[derive(Debug)]
pub struct ListLocationsArg {
    pub token: Vec<u8>,
    pub since: Option<Timestamp>,
    pub until: Option<Timestamp>,
    pub limit: u32,
}

/// One stored report as handed back to a viewer: everything the device
/// submitted plus the server-assigned receipt time, without the
/// server-observed remote address.
#[derive(Debug)]
pub struct LocationSnapshot {
    pub update_time: Timestamp,
    pub expected_next_update_time: Option<Timestamp>,
    pub location: Option<Location>,
    pub velocity: Option<Velocity>,
    pub emergency: bool,
    pub notes: String,
    pub nearby_wifi_network: Vec<String>,
    pub nearby_bluetooth_devices: Vec<String>,
}

#[derive(Debug)]
pub struct ListLocationsResult {
    pub locations: Vec<LocationSnapshot>,
}

#[derive(Debug)]
pub struct GetStorageInfoArg {
    pub token: Vec<u8>,
}

#[derive(Clone, Copy, Debug, PartialEq, Eq, Structural)]
pub struct GetStorageInfoResult {
    pub locations_count: u64,
    pub since: Option<Timestamp>,
    pub locations_limit: u32,
    pub bytes_storage_consumed: u64,
    pub bytes_storage_limit: u64,
}

/// Asks that one token's authorization be withdrawn. The caller presents its
/// own token; `revoke` names the token whose entry is to be destroyed.
#[derive(Debug)]
pub struct RevokeTokenArg {
    pub token: Vec<u8>,
    pub revoke: Vec<u8>,
}

#[derive(Debug)]
pub struct ListTokensArg {
    pub token: Vec<u8>,
}

#[derive(Debug)]
pub struct PurgeLocationsArg {
    pub token: Vec<u8>,
}

#[derive(Debug)]
pub struct RequestExcommunicationArg {
    pub token: Vec<u8>,
}

/// Mathematical value of a [`LocationSnapshot`].
pub ghost struct LocationSnapshotV {
    pub update_time: Timestamp,
    pub expected_next_update_time: Option<Timestamp>,
    pub location: Option<Location>,
    pub velocity: Option<Velocity>,
    pub emergency: bool,
    pub notes: Seq<char>,
    pub nearby_wifi_network: Seq<Seq<char>>,
    pub nearby_bluetooth_devices: Seq<Seq<char>>,
}

impl DeepView for LocationSnapshot {
    type V = LocationSnapshotV;

    open spec fn deep_view(&self) -> LocationSnapshotV {
        LocationSnapshotV {
            update_time: self.update_time,
            expected_next_update_time: self.expected_next_update_time,
            location: self.location,
            velocity: self.velocity,
            emergency: self.emergency,
            notes: self.notes@,
            nearby_wifi_network: self.nearby_wifi_network.deep_view(),
            nearby_bluetooth_devices: self.nearby_bluetooth_devices.deep_view(),
        }
    }
}

/// Clones a list of strings; the copy reads the same.
pub fn clone_strings(v: &Vec<String>) -> (r: Vec<String>)
    ensures
        r.deep_view() == v.deep_view(),
{
    let mut out: Vec<String> = Vec::new();
    let mut i: usize = 0;
    while i < v.len()
        invariant
            i <= v.len(),
            out@.len() == i as int,
            forall|j: int| 0 <= j < i ==> out@[j]@ == v@[j]@,
        decreases v.len() - i,
    {
        let c = v[i].clone();
        out.push(c);
        i = i + 1;
    }
    assert forall|j: int| 0 <= j < v@.len() implies out.deep_view()[j] == v.deep_view()[j] by {
        assert(out@[j]@ == v@[j]@);
    }
    assert(out.deep_view() =~= v.deep_view());
    out
}

/// Clones a byte string; the copy holds the same bytes.
pub fn clone_bytes(v: &Vec<u8>) -> (r: Vec<u8>)
    ensures
        r@ == v@,
{
    let r = v.clone();
    assert(r@ =~= v@);
    r
}

/// Whether two byte strings hold the same bytes.
pub fn eq_bytes(a: &Vec<u8>, b: &Vec<u8>) -> (r: bool)
    ensures
        r == (a@ == b@),
{
    if a.len() != b.len() {
        assert(a@ != b@) by {
            assert(a@.len() != b@.len());
        }
        return false;
    }
    let mut i: usize = 0;
    while i < a.len()
        invariant
            i <= a.len(),
            a@.len() == b@.len(),
            forall|j: int| 0 <= j < i ==> a@[j] == b@[j],
        decreases a.len() - i,
    {
        if a[i] != b[i] {
            return false;
        }
        i = i + 1;
    }
    assert(a@ =~= b@);
    true
}

} // verus!
