use fmx_server::messages::{IntroduceMyselfArg, ListLocationsArg, Location, SubmitLocationArg};
use fmx_server::service::{
    list_locations_by_hex_token, Config, DeviceServiceProvider, ServiceError,
};
use fmx_server::storage::memory::MemoryStorage;
use fmx_server::time::Timestamp;

fn ts(seconds: i64) -> Timestamp {
    Timestamp { seconds, nanos: 0 }
}

fn provider() -> DeviceServiceProvider<MemoryStorage> {
    DeviceServiceProvider {
        storage: MemoryStorage::new(),
        config: Config {
            open_registration: true,
        },
    }
}

fn register(p: &mut DeviceServiceProvider<MemoryStorage>, sk: &[u8], token: &[u8]) {
    let arg = IntroduceMyselfArg {
        registration_key: Vec::new(),
        remote_wipe_enabled: false,
        can_read_nearby_devices: false,
    };
    p.introduce_with_credentials(&arg, ts(1), None, sk.to_vec(), token.to_vec())
        .unwrap();
}

fn sub_arg(token: &[u8], emergency: bool, location: Option<Location>) -> SubmitLocationArg {
    SubmitLocationArg {
        token: token.to_vec(),
        emergency,
        location,
        velocity: None,
        notes: String::from("on the move"),
        nearby_wifi_network: vec![String::from("cafe-wifi")],
        nearby_bluetooth_devices: Vec::new(),
        expected_next_update_time: Some(ts(99)),
    }
}

/// The scenario end to end: introduce, submit an emergency report with
/// coordinates, read it back, then ask for nothing with a zero limit.
#[test]
fn introduce_submit_and_read_back() {
    let mut p = provider();
    register(&mut p, b"sk-1", b"tok-1");

    let spot = Location {
        microdegrees_latitude: 30_080_000,
        microdegrees_longitude: -81_400_000,
        millimeters_elevation: 0,
    };
    let r = p
        .submit_location_at(&sub_arg(b"tok-1", true, Some(spot)), ts(10), None)
        .unwrap();
    assert!(r.recorded);
    assert!(!r.remote_wipe);

    let arg = ListLocationsArg {
        token: b"tok-1".to_vec(),
        since: None,
        until: None,
        limit: 10,
    };
    let out = p.list_locations(&arg, ts(20)).unwrap();
    assert_eq!(out.locations.len(), 1);
    let snap = &out.locations[0];
    assert!(snap.emergency);
    assert_eq!(snap.location, Some(spot));
    assert_eq!(snap.notes, "on the move");
    assert_eq!(snap.nearby_wifi_network, vec![String::from("cafe-wifi")]);
    assert_eq!(snap.expected_next_update_time, Some(ts(99)));

    let empty = ListLocationsArg {
        token: b"tok-1".to_vec(),
        since: None,
        until: None,
        limit: 0,
    };
    let none = p.list_locations(&empty, ts(20)).unwrap();
    assert!(none.locations.is_empty(), "a zero limit returns nothing");
}

#[test]
fn hex_token_path_decodes_and_resolves() {
    let mut p = provider();
    register(&mut p, &[0xab, 0xcd], &[0xab, 0xcd]);
    p.submit_location_at(&sub_arg(&[0xab, 0xcd], false, None), ts(10), None)
        .unwrap();

    // lower, upper, and mixed case all name the same token
    for hexed in ["abcd", "ABCD", "aBcD"] {
        let out = list_locations_by_hex_token(&p.storage, hexed, ts(20)).unwrap();
        assert_eq!(out.locations.len(), 1);
    }
}

#[test]
fn hex_token_path_rejects_malformed_and_unknown() {
    let mut p = provider();
    register(&mut p, &[0xab, 0xcd], &[0xab, 0xcd]);

    let r = list_locations_by_hex_token(&p.storage, "zz", ts(20));
    assert_eq!(r.unwrap_err(), ServiceError::Validation);
    let r = list_locations_by_hex_token(&p.storage, "abc", ts(20));
    assert_eq!(r.unwrap_err(), ServiceError::Validation, "odd length is malformed");
    let r = list_locations_by_hex_token(&p.storage, "1234", ts(20));
    assert_eq!(r.unwrap_err(), ServiceError::Unauthenticated);
}
