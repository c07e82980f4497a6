use fmx_server::messages::{
    GetStorageInfoArg, IntroduceMyselfArg, ListLocationsArg, ListTokensArg, Location,
    PurgeLocationsArg, RequestExcommunicationArg, RevokeTokenArg, SubmitLocationArg,
};
use fmx_server::service::{Config, DeviceServiceProvider, ServiceError};
use fmx_server::storage::memory::MemoryStorage;
use fmx_server::storage::{Storage, TokenEntry};
use fmx_server::time::Timestamp;

fn ts(seconds: i64) -> Timestamp {
    Timestamp { seconds, nanos: 0 }
}

fn provider() -> DeviceServiceProvider<MemoryStorage> {
    DeviceServiceProvider {
        storage: MemoryStorage::new(),
        config: Config {
            open_registration: true,
        },
    }
}

fn intro_arg() -> IntroduceMyselfArg {
    IntroduceMyselfArg {
        registration_key: Vec::new(),
        remote_wipe_enabled: false,
        can_read_nearby_devices: false,
    }
}

/// Registers the identity `sk` with credential `token` at time 1.
fn register(p: &mut DeviceServiceProvider<MemoryStorage>, sk: &[u8], token: &[u8]) {
    let arg = intro_arg();
    let r = p
        .introduce_with_credentials(&arg, ts(1), None, sk.to_vec(), token.to_vec())
        .unwrap();
    assert!(r.nice_to_meet_you);
    assert_eq!(r.your_token, token.to_vec());
}

fn sub_arg(token: &[u8], emergency: bool, location: Option<Location>) -> SubmitLocationArg {
    SubmitLocationArg {
        token: token.to_vec(),
        emergency,
        location,
        velocity: None,
        notes: String::new(),
        nearby_wifi_network: Vec::new(),
        nearby_bluetooth_devices: Vec::new(),
        expected_next_update_time: None,
    }
}

fn list_arg(token: &[u8], limit: u32) -> ListLocationsArg {
    ListLocationsArg {
        token: token.to_vec(),
        since: None,
        until: None,
        limit,
    }
}

#[test]
fn append_then_list_has_record_in_append_position() {
    let mut p = provider();
    register(&mut p, b"sk-1", b"tok-1");
    let first = sub_arg(b"tok-1", false, None);
    let r = p.submit_location_at(&first, ts(10), None).unwrap();
    assert!(r.recorded);
    let second = sub_arg(b"tok-1", true, None);
    p.submit_location_at(&second, ts(20), None).unwrap();

    let out = p.list_locations(&list_arg(b"tok-1", 1000), ts(30)).unwrap();
    assert_eq!(out.locations.len(), 2);
    assert_eq!(out.locations[0].update_time, ts(10));
    assert!(!out.locations[0].emergency);
    // the newly appended record sits exactly once, in the last position
    assert_eq!(out.locations[1].update_time, ts(20));
    assert!(out.locations[1].emergency);
}

#[test]
fn list_respects_limit_and_bounds() {
    let mut p = provider();
    register(&mut p, b"sk-1", b"tok-1");
    for t in [10i64, 20, 30] {
        p.submit_location_at(&sub_arg(b"tok-1", false, None), ts(t), None)
            .unwrap();
    }

    // the limit caps scan results: the first matches win, not the newest
    let capped = p.list_locations(&list_arg(b"tok-1", 2), ts(40)).unwrap();
    assert_eq!(capped.locations.len(), 2);
    assert_eq!(capped.locations[0].update_time, ts(10));
    assert_eq!(capped.locations[1].update_time, ts(20));

    let mut since_arg = list_arg(b"tok-1", 100);
    since_arg.since = Some(ts(15));
    let since_out = p.list_locations(&since_arg, ts(40)).unwrap();
    assert_eq!(since_out.locations.len(), 2);
    assert_eq!(since_out.locations[0].update_time, ts(20));

    let mut window = list_arg(b"tok-1", 100);
    window.since = Some(ts(15));
    window.until = Some(ts(25));
    let window_out = p.list_locations(&window, ts(40)).unwrap();
    assert_eq!(window_out.locations.len(), 1);
    assert_eq!(window_out.locations[0].update_time, ts(20));

    // the window bounds are inclusive on both ends
    let mut exact = list_arg(b"tok-1", 100);
    exact.since = Some(ts(20));
    exact.until = Some(ts(20));
    let exact_out = p.list_locations(&exact, ts(40)).unwrap();
    assert_eq!(exact_out.locations.len(), 1);
}

#[test]
fn limit_zero_returns_nothing() {
    let mut p = provider();
    register(&mut p, b"sk-1", b"tok-1");
    p.submit_location_at(&sub_arg(b"tok-1", false, None), ts(10), None)
        .unwrap();
    let out = p.list_locations(&list_arg(b"tok-1", 0), ts(20)).unwrap();
    assert!(out.locations.is_empty());
}

#[test]
fn unknown_token_is_unauthenticated_and_stores_nothing() {
    let mut p = provider();
    register(&mut p, b"sk-1", b"tok-1");
    let r = p.submit_location_at(&sub_arg(b"ghost", false, None), ts(10), None);
    assert_eq!(r.unwrap_err(), ServiceError::Unauthenticated);
    let out = p.list_locations(&list_arg(b"tok-1", 100), ts(20)).unwrap();
    assert!(out.locations.is_empty());
}

#[test]
fn revoked_token_no_longer_resolves() {
    let mut p = provider();
    register(&mut p, b"sk-1", b"tok-a");
    // a second credential for the same identity, allowed to manage tokens
    let manager = TokenEntry {
        secret_key: b"sk-1".to_vec(),
        permissions: fmx_server::messages::Permissions {
            list_tokens: true,
            write_locations: false,
            read_locations: false,
            nearby: false,
            stats: false,
            wipe: false,
        },
        not_before: ts(0),
        not_after: None,
    };
    p.storage.write_token(&b"tok-b".to_vec(), &manager).unwrap();

    let revoke = RevokeTokenArg {
        token: b"tok-b".to_vec(),
        revoke: b"tok-a".to_vec(),
    };
    p.revoke_token(&revoke, ts(5)).unwrap();

    let r = p.submit_location_at(&sub_arg(b"tok-a", false, None), ts(10), None);
    assert_eq!(r.unwrap_err(), ServiceError::Unauthenticated);
}

#[test]
fn revoking_one_token_leaves_the_other_and_the_history() {
    let mut p = provider();
    register(&mut p, b"sk-1", b"tok-a");
    p.submit_location_at(&sub_arg(b"tok-a", false, None), ts(10), None)
        .unwrap();
    // token B: full-capability sibling of A on the same identity
    let b_entry = TokenEntry {
        secret_key: b"sk-1".to_vec(),
        permissions: fmx_server::messages::Permissions {
            list_tokens: true,
            write_locations: true,
            read_locations: true,
            nearby: false,
            stats: false,
            wipe: false,
        },
        not_before: ts(0),
        not_after: None,
    };
    p.storage.write_token(&b"tok-b".to_vec(), &b_entry).unwrap();

    let revoke = RevokeTokenArg {
        token: b"tok-b".to_vec(),
        revoke: b"tok-a".to_vec(),
    };
    p.revoke_token(&revoke, ts(5)).unwrap();

    // B still resolves and the identity's history is intact
    let out = p.list_locations(&list_arg(b"tok-b", 100), ts(20)).unwrap();
    assert_eq!(out.locations.len(), 1);
    assert_eq!(out.locations[0].update_time, ts(10));

    // and only A's entry left the identity's token list
    let tokens = p
        .list_tokens(&ListTokensArg { token: b"tok-b".to_vec() }, ts(20))
        .unwrap();
    assert_eq!(tokens.len(), 1);
    assert!(tokens[0].permissions.list_tokens);
}

#[test]
fn stats_empty_then_earliest_ignores_insertion_order() {
    let mut p = provider();
    register(&mut p, b"sk-1", b"tok-1");
    let stats_token = TokenEntry {
        secret_key: b"sk-1".to_vec(),
        permissions: fmx_server::messages::Permissions {
            list_tokens: false,
            write_locations: false,
            read_locations: false,
            nearby: false,
            stats: true,
            wipe: false,
        },
        not_before: ts(0),
        not_after: None,
    };
    p.storage.write_token(&b"tok-s".to_vec(), &stats_token).unwrap();
    let arg = GetStorageInfoArg { token: b"tok-s".to_vec() };

    let empty = p.get_storage_info(&arg, ts(5)).unwrap();
    assert_eq!(empty.locations_count, 0);
    assert_eq!(empty.since, None);

    // out-of-order submissions are stored as they come
    for t in [30i64, 10, 20] {
        p.submit_location_at(&sub_arg(b"tok-1", false, None), ts(t), None)
            .unwrap();
    }
    let full = p.get_storage_info(&arg, ts(40)).unwrap();
    assert_eq!(full.locations_count, 3);
    assert_eq!(full.since, Some(ts(10)));
    assert_eq!(full.locations_limit, 100);
}

#[test]
fn earliest_compares_whole_seconds_only() {
    let mut p = provider();
    register(&mut p, b"sk-1", b"tok-1");
    let stats_token = TokenEntry {
        secret_key: b"sk-1".to_vec(),
        permissions: fmx_server::messages::Permissions {
            list_tokens: false,
            write_locations: false,
            read_locations: false,
            nearby: false,
            stats: true,
            wipe: false,
        },
        not_before: ts(0),
        not_after: None,
    };
    p.storage.write_token(&b"tok-s".to_vec(), &stats_token).unwrap();

    let late_nanos = Timestamp { seconds: 10, nanos: 900 };
    let early_nanos = Timestamp { seconds: 10, nanos: 100 };
    p.submit_location_at(&sub_arg(b"tok-1", false, None), late_nanos, None)
        .unwrap();
    p.submit_location_at(&sub_arg(b"tok-1", false, None), early_nanos, None)
        .unwrap();
    let full = p
        .get_storage_info(&GetStorageInfoArg { token: b"tok-s".to_vec() }, ts(40))
        .unwrap();
    // seconds tie: the first-seen instant stays, its nanoseconds ignored
    assert_eq!(full.since, Some(late_nanos));
}

#[test]
fn permission_gates_each_operation() {
    let mut p = provider();
    register(&mut p, b"sk-1", b"tok-1");
    // the introduced token carries write and read but neither stats, token
    // management, nor wipe
    let r = p.get_storage_info(&GetStorageInfoArg { token: b"tok-1".to_vec() }, ts(5));
    assert_eq!(r.unwrap_err(), ServiceError::PermissionDenied);
    let r = p.list_tokens(&ListTokensArg { token: b"tok-1".to_vec() }, ts(5));
    assert_eq!(r.unwrap_err(), ServiceError::PermissionDenied);
    let r = p.purge_locations(&PurgeLocationsArg { token: b"tok-1".to_vec() }, ts(5));
    assert_eq!(r.unwrap_err(), ServiceError::PermissionDenied);
    let r = p.request_excommunication(
        &RequestExcommunicationArg { token: b"tok-1".to_vec() },
        ts(5),
    );
    assert_eq!(r.unwrap_err(), ServiceError::PermissionDenied);
    let revoke = RevokeTokenArg {
        token: b"tok-1".to_vec(),
        revoke: b"tok-1".to_vec(),
    };
    assert_eq!(
        p.revoke_token(&revoke, ts(5)).unwrap_err(),
        ServiceError::PermissionDenied
    );
}

#[test]
fn revoking_a_foreign_token_is_denied() {
    let mut p = provider();
    register(&mut p, b"sk-1", b"tok-1");
    register(&mut p, b"sk-2", b"tok-2");
    let manager = TokenEntry {
        secret_key: b"sk-1".to_vec(),
        permissions: fmx_server::messages::Permissions {
            list_tokens: true,
            write_locations: false,
            read_locations: false,
            nearby: false,
            stats: false,
            wipe: false,
        },
        not_before: ts(0),
        not_after: None,
    };
    p.storage.write_token(&b"tok-m".to_vec(), &manager).unwrap();
    let revoke = RevokeTokenArg {
        token: b"tok-m".to_vec(),
        revoke: b"tok-2".to_vec(),
    };
    assert_eq!(
        p.revoke_token(&revoke, ts(5)).unwrap_err(),
        ServiceError::PermissionDenied
    );
    // the foreign token still works
    let r = p.submit_location_at(&sub_arg(b"tok-2", false, None), ts(10), None);
    assert!(r.unwrap().recorded);
}

#[test]
fn expired_and_future_tokens_authenticate_nothing() {
    let mut p = provider();
    register(&mut p, b"sk-1", b"tok-live");
    let expired = TokenEntry {
        secret_key: b"sk-1".to_vec(),
        permissions: fmx_server::messages::Permissions {
            list_tokens: false,
            write_locations: true,
            read_locations: true,
            nearby: false,
            stats: false,
            wipe: false,
        },
        not_before: ts(0),
        not_after: Some(ts(5)),
    };
    p.storage.write_token(&b"tok-x".to_vec(), &expired).unwrap();
    let future = TokenEntry {
        not_before: ts(100),
        not_after: None,
        ..expired
    };
    p.storage.write_token(&b"tok-f".to_vec(), &future).unwrap();

    let r = p.submit_location_at(&sub_arg(b"tok-x", false, None), ts(10), None);
    assert_eq!(r.unwrap_err(), ServiceError::Unauthenticated);
    let r = p.submit_location_at(&sub_arg(b"tok-f", false, None), ts(10), None);
    assert_eq!(r.unwrap_err(), ServiceError::Unauthenticated);
    // within its window the expired token would have worked
    let r = p.submit_location_at(&sub_arg(b"tok-x", false, None), ts(5), None);
    assert!(r.unwrap().recorded);
}

#[test]
fn purge_drops_the_whole_history() {
    let mut p = provider();
    register(&mut p, b"sk-1", b"tok-1");
    p.submit_location_at(&sub_arg(b"tok-1", false, None), ts(10), None)
        .unwrap();
    let wiper = TokenEntry {
        secret_key: b"sk-1".to_vec(),
        permissions: fmx_server::messages::Permissions {
            list_tokens: false,
            write_locations: false,
            read_locations: false,
            nearby: false,
            stats: false,
            wipe: true,
        },
        not_before: ts(0),
        not_after: None,
    };
    p.storage.write_token(&b"tok-w".to_vec(), &wiper).unwrap();
    p.purge_locations(&PurgeLocationsArg { token: b"tok-w".to_vec() }, ts(20))
        .unwrap();
    let out = p.list_locations(&list_arg(b"tok-1", 100), ts(30)).unwrap();
    assert!(out.locations.is_empty());
}

#[test]
fn excommunication_downgrades_and_answers_the_next_submission() {
    let mut p = provider();
    let arg = IntroduceMyselfArg {
        registration_key: Vec::new(),
        remote_wipe_enabled: true,
        can_read_nearby_devices: false,
    };
    p.introduce_with_credentials(&arg, ts(1), None, b"sk-1".to_vec(), b"tok-1".to_vec())
        .unwrap();
    p.request_excommunication(&RequestExcommunicationArg { token: b"tok-1".to_vec() }, ts(5))
        .unwrap();

    // the next submission is answered with the wipe order, not stored
    let r = p
        .submit_location_at(&sub_arg(b"tok-1", false, None), ts(10), None)
        .unwrap();
    assert!(!r.recorded);
    assert!(r.remote_wipe);

    // the mark has cleared, but the token was reduced to wipe acknowledgment
    let r = p.submit_location_at(&sub_arg(b"tok-1", false, None), ts(15), None);
    assert_eq!(r.unwrap_err(), ServiceError::PermissionDenied);
}

#[test]
fn tokens_are_listed_in_issue_order_and_revoke_is_idempotent() {
    let mut p = provider();
    register(&mut p, b"sk-1", b"tok-a");
    let manager = TokenEntry {
        secret_key: b"sk-1".to_vec(),
        permissions: fmx_server::messages::Permissions {
            list_tokens: true,
            write_locations: false,
            read_locations: false,
            nearby: false,
            stats: false,
            wipe: false,
        },
        not_before: ts(0),
        not_after: None,
    };
    p.storage.write_token(&b"tok-b".to_vec(), &manager).unwrap();

    let tokens = p
        .list_tokens(&ListTokensArg { token: b"tok-b".to_vec() }, ts(5))
        .unwrap();
    assert_eq!(tokens.len(), 2);
    // issue order: the introduced token first, the managing token second
    assert!(tokens[0].permissions.write_locations);
    assert!(tokens[1].permissions.list_tokens);

    // revoking a token that never resolved changes nothing and succeeds
    let revoke = RevokeTokenArg {
        token: b"tok-b".to_vec(),
        revoke: b"ghost".to_vec(),
    };
    p.revoke_token(&revoke, ts(5)).unwrap();
    let tokens = p
        .list_tokens(&ListTokensArg { token: b"tok-b".to_vec() }, ts(5))
        .unwrap();
    assert_eq!(tokens.len(), 2);
}

#[test]
fn velocity_and_bluetooth_round_trip() {
    let mut p = provider();
    register(&mut p, b"sk-1", b"tok-1");
    let mut arg = sub_arg(b"tok-1", false, None);
    arg.velocity = Some(fmx_server::messages::Velocity {
        millimeters_per_second_speed: 1_500,
        millidegrees_bearing: 270_000,
    });
    arg.nearby_bluetooth_devices = vec![String::from("headset"), String::from("watch")];
    p.submit_location_at(&arg, ts(10), None).unwrap();
    let out = p.list_locations(&list_arg(b"tok-1", 10), ts(20)).unwrap();
    assert_eq!(out.locations.len(), 1);
    assert_eq!(
        out.locations[0].velocity,
        Some(fmx_server::messages::Velocity {
            millimeters_per_second_speed: 1_500,
            millidegrees_bearing: 270_000,
        })
    );
    assert_eq!(
        out.locations[0].nearby_bluetooth_devices,
        vec![String::from("headset"), String::from("watch")]
    );
}

#[test]
fn closed_registration_requires_an_accepted_key() {
    let mut p = provider();
    p.config.open_registration = false;
    let arg = intro_arg();
    let r = p.introduce_myself(&arg, None, false);
    assert_eq!(r.unwrap_err(), ServiceError::Validation);
    let r = p.introduce_myself(&arg, None, true).unwrap();
    assert!(r.nice_to_meet_you);
    assert_eq!(r.your_token.len(), 16);
}

#[test]
fn introduce_and_submit_with_the_real_clock_and_rng() {
    let mut p = provider();
    let token = p.introduce_myself(&intro_arg(), None, true).unwrap().your_token;
    assert_eq!(token.len(), 16);
    let r = p
        .submit_location(&sub_arg(&token, true, None), Some(String::from("127.0.0.1:1")))
        .unwrap();
    assert!(r.recorded);
    // list far in the future so the freshly minted window covers "now"
    let far = Timestamp { seconds: i64::MAX, nanos: 0 };
    let out = p.list_locations(&list_arg(&token, 10), far).unwrap();
    assert_eq!(out.locations.len(), 1);
    assert!(out.locations[0].emergency);
}
