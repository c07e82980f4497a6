//! The ingestion and query service: resolves the caller's token, enforces the
//! operation's permission, translates wire arguments into storage calls, and
//! maps results and errors back. Authentication is always decided first;
//! nothing touches the store for a caller whose token resolves to no valid
//! entry.

use vstd::prelude::*;
use crate::messages::{
    GetStorageInfoArg,
    GetStorageInfoResult,
    IntroduceMyselfArg,
    IntroduceMyselfResult,
    ListLocationsArg,
    ListLocationsResult,
    ListTokensArg,
    PurgeLocationsArg,
    RequestExcommunicationArg,
    RevokeTokenArg,
    SubmitLocationArg,
    SubmitLocationResult,
    clone_strings,
    eq_bytes,
};
use crate::storage::{
    IntroInsertion,
    IntroductionV,
    LocationInsertion,
    LocationRecordV,
    LocationsFilter,
    Storage,
    TokenEntry,
    LOCATIONS_LIMIT,
    excommunicate_spec,
    history_of,
    list_locations_spec,
    list_tokens_spec,
    purge_location_spec,
    resolve_valid_spec,
    revoke_token_spec,
    resolve_spec,
    update_times,
    write_intro_spec,
    write_location_spec,
};
use crate::time::{Timestamp, earliest_of};

verus! {

/// How an operation fails, in the order the service decides it: no valid
/// token, then a missing capability, then malformed input, and last a storage
/// fault reported opaquely.
#[derive(Clone, Copy, Debug, PartialEq, Eq, Structural)]
pub enum ServiceError {
    Unauthenticated,
    PermissionDenied,
    Validation,
    Internal,
}

/// Deployment switches the service consults.
#[derive(Clone, Copy, Debug, PartialEq, Eq, Structural)]
pub struct Config {
    pub open_registration: bool,
}

/// Relies on chrono's `Utc::now`, `DateTime::timestamp` and
/// `DateTime::timestamp_subsec_nanos`: the wall clock as whole seconds since
/// the epoch and nanoseconds within the second, the nanoseconds staying below
/// two seconds (the second second leaves room for a leap second).
#[verifier::external_body]
fn current_time() -> (t: Timestamp)
    ensures
        t.wf(),
{
    let now = chrono::Utc::now();
    Timestamp { seconds: now.timestamp(), nanos: now.timestamp_subsec_nanos() }
}

/// Relies on rand's `random`: 32 bytes from a cryptographically strong
/// generator. Nothing is promised of their values.
#[verifier::external_body]
fn random_bytes_32() -> (r: Vec<u8>)
    ensures
        r@.len() == 32,
{
    rand::random::<[u8; 32]>().to_vec()
}

/// An ASCII hexadecimal digit.
pub open spec fn is_hex_digit(c: char) -> bool {
    (48 <= c as u32 && c as u32 <= 57) || (97 <= c as u32 && c as u32 <= 102) || (65 <= c as u32
        && c as u32 <= 70)
}

/// The value of one hexadecimal digit.
pub open spec fn hex_digit_value(c: char) -> u8 {
    if 48 <= c as u32 && c as u32 <= 57 {
        (c as u32 - 48) as u8
    } else if 97 <= c as u32 && c as u32 <= 102 {
        (c as u32 - 97 + 10) as u8
    } else {
        (c as u32 - 65 + 10) as u8
    }
}

/// An even-length string of hexadecimal digits.
pub open spec fn is_hex_string(s: Seq<char>) -> bool {
    s.len() % 2 == 0 && forall|i: int| 0 <= i < s.len() ==> is_hex_digit(#[trigger] s[i])
}

/// The bytes a hexadecimal string encodes, each from one pair of digits,
/// high nibble first.
pub open spec fn hex_bytes(s: Seq<char>) -> Seq<u8> {
    Seq::new(
        (s.len() / 2) as nat,
        |i: int| (hex_digit_value(s[2 * i]) * 16 + hex_digit_value(s[2 * i + 1])) as u8,
    )
}

/// Relies on hex's `decode`: it succeeds exactly on even-length strings of
/// ASCII hexadecimal digits (either case), pairing digits high nibble first.
#[verifier::external_body]
fn hex_decode(s: &str) -> (r: Option<Vec<u8>>)
    ensures
        match r {
            Some(v) => is_hex_string(s@) && v@ == hex_bytes(s@),
            None => !is_hex_string(s@),
        },
{
    match hex::decode(s) {
        Ok(v) => Some(v),
        Err(_) => None,
    }
}

/// Resolves a token at `now`. A token that was never issued, was revoked, has
/// expired, or is not yet valid authenticates nothing.
pub fn resolve_token<S: Storage>(storage: &S, token: &Vec<u8>, now: Timestamp) -> (r: Result<
    Option<TokenEntry>,
    ServiceError,
>)
    requires
        storage.inv(),
    ensures
        match r {
            Ok(Some(e)) => resolve_valid_spec(storage.model(), token@, now) == Some(e.deep_view()),
            Ok(None) => resolve_valid_spec(storage.model(), token@, now) is None,
            Err(e) => e == ServiceError::Internal && !storage.reliable(),
        },
{
    match storage.get_token_info(token) {
        Err(_) => Err(ServiceError::Internal),
        Ok(None) => Ok(None),
        Ok(Some(entry)) => if entry.is_valid_at(now) {
            Ok(Some(entry))
        } else {
            Ok(None)
        },
    }
}

/// The view of an optional textual address.
pub open spec fn opt_str_view(a: Option<String>) -> Option<Seq<char>> {
    match a {
        Some(s) => Some(s@),
        None => None,
    }
}

/// The record a submission stores: the caller's fields, with the receipt time
/// and the observed address server-assigned, never taken from the caller.
pub open spec fn submitted_record(
    arg: SubmitLocationArg,
    now: Timestamp,
    remote_addr: Option<Seq<char>>,
) -> LocationRecordV {
    LocationRecordV {
        update_time: now,
        expected_next_update_time: arg.expected_next_update_time,
        location: arg.location,
        velocity: arg.velocity,
        emergency: arg.emergency,
        notes: arg.notes@,
        nearby_wifi_network: arg.nearby_wifi_network.deep_view(),
        nearby_bluetooth_devices: arg.nearby_bluetooth_devices.deep_view(),
        remote_addr,
    }
}

/// Builds the stored record of a submission.
fn build_insertion(arg: &SubmitLocationArg, now: Timestamp, remote_addr: Option<String>) -> (r:
    LocationInsertion)
    ensures
        r.deep_view() == submitted_record(*arg, now, opt_str_view(remote_addr)),
{
    LocationInsertion {
        update_time: now,
        expected_next_update_time: arg.expected_next_update_time,
        location: arg.location,
        velocity: arg.velocity,
        emergency: arg.emergency,
        notes: arg.notes.clone(),
        nearby_wifi_network: clone_strings(&arg.nearby_wifi_network),
        nearby_bluetooth_devices: clone_strings(&arg.nearby_bluetooth_devices),
        remote_addr,
    }
}

/// What a registration stores about the identity, from the caller's request
/// and the observed address.
pub open spec fn intro_of(arg: IntroduceMyselfArg, remote_addr: Option<Seq<char>>) -> IntroductionV {
    IntroductionV {
        remote_addr,
        registration_key: arg.registration_key@,
        remote_wipe_enabled: arg.remote_wipe_enabled,
        can_read_nearby_devices: arg.can_read_nearby_devices,
    }
}

/// The service: authenticates every call against the store's token map, then
/// delegates to the store.
pub struct DeviceServiceProvider<S: Storage> {
    pub storage: S,
    pub config: Config,
}

impl<S: Storage> DeviceServiceProvider<S> {
    /// Stores one location report at the given receipt time. For an identity
    /// marked for remote wipe, nothing is stored: the wipe is announced
    /// instead and the mark clears.
    pub fn submit_location_at(
        &mut self,
        arg: &SubmitLocationArg,
        now: Timestamp,
        remote_addr: Option<String>,
    ) -> (r: Result<SubmitLocationResult, ServiceError>)
        requires
            old(self).storage.inv(),
        ensures
            final(self).storage.inv(),
            final(self).config == old(self).config,
            match r {
                Ok(res) => {
                    let m = old(self).storage.model();
                    let e = resolve_valid_spec(m, arg.token@, now);
                    &&& e is Some
                    &&& final(self).storage.model() == write_location_spec(
                        m,
                        e->0.secret_key,
                        submitted_record(*arg, now, opt_str_view(remote_addr)),
                    )
                    &&& if m.wipe_pending.contains(e->0.secret_key) {
                        res == (SubmitLocationResult {
                            recorded: false,
                            excommunicated: false,
                            remote_wipe: true,
                        })
                    } else {
                        e->0.permissions.write_locations && res == (SubmitLocationResult {
                            recorded: true,
                            excommunicated: false,
                            remote_wipe: false,
                        })
                    }
                },
                Err(ServiceError::Unauthenticated) => resolve_valid_spec(
                    old(self).storage.model(),
                    arg.token@,
                    now,
                ) is None && final(self).storage.model() == old(self).storage.model(),
                Err(ServiceError::PermissionDenied) => {
                    let m = old(self).storage.model();
                    let e = resolve_valid_spec(m, arg.token@, now);
                    &&& e is Some
                    &&& !m.wipe_pending.contains(e->0.secret_key)
                    &&& !e->0.permissions.write_locations
                    &&& final(self).storage.model() == m
                },
                Err(ServiceError::Internal) => final(self).storage.model() == old(
                    self,
                ).storage.model() && !old(self).storage.reliable(),
                Err(_) => false,
            },
    {
        let entry = match resolve_token(&self.storage, &arg.token, now) {
            Err(e) => { return Err(e) },
            Ok(None) => { return Err(ServiceError::Unauthenticated) },
            Ok(Some(e)) => e,
        };
        let pending = match self.storage.is_wipe_pending(&entry.secret_key) {
            Err(_) => { return Err(ServiceError::Internal) },
            Ok(b) => b,
        };
        if pending {
            let insertion = build_insertion(arg, now, remote_addr);
            match self.storage.write_location(&entry.secret_key, &insertion) {
                Err(_) => Err(ServiceError::Internal),
                Ok(_) => Ok(
                    SubmitLocationResult {
                        recorded: false,
                        excommunicated: false,
                        remote_wipe: true,
                    },
                ),
            }
        } else {
            if !entry.permissions.write_locations {
                return Err(ServiceError::PermissionDenied);
            }
            let insertion = build_insertion(arg, now, remote_addr);
            match self.storage.write_location(&entry.secret_key, &insertion) {
                Err(_) => Err(ServiceError::Internal),
                Ok(_) => Ok(
                    SubmitLocationResult {
                        recorded: true,
                        excommunicated: false,
                        remote_wipe: false,
                    },
                ),
            }
        }
    }

    /// Stores one location report, stamping it with the clock's current time.
    pub fn submit_location(&mut self, arg: &SubmitLocationArg, remote_addr: Option<String>) -> (r:
        Result<SubmitLocationResult, ServiceError>)
        requires
            old(self).storage.inv(),
        ensures
            final(self).storage.inv(),
            final(self).config == old(self).config,
            match r {
                Ok(res) => exists|now: Timestamp|
                    #![trigger submitted_record(*arg, now, opt_str_view(remote_addr))]
                    {
                        let m = old(self).storage.model();
                        let e = resolve_valid_spec(m, arg.token@, now);
                        &&& now.wf()
                        &&& e is Some
                        &&& final(self).storage.model() == write_location_spec(
                            m,
                            e->0.secret_key,
                            submitted_record(*arg, now, opt_str_view(remote_addr)),
                        )
                        &&& if m.wipe_pending.contains(e->0.secret_key) {
                            res == (SubmitLocationResult {
                                recorded: false,
                                excommunicated: false,
                                remote_wipe: true,
                            })
                        } else {
                            e->0.permissions.write_locations && res == (SubmitLocationResult {
                                recorded: true,
                                excommunicated: false,
                                remote_wipe: false,
                            })
                        }
                    },
                Err(ServiceError::Unauthenticated) => final(self).storage.model() == old(
                    self,
                ).storage.model() && exists|now: Timestamp|
                    #![trigger resolve_valid_spec(old(self).storage.model(), arg.token@, now)]
                    now.wf() && resolve_valid_spec(
                        old(self).storage.model(),
                        arg.token@,
                        now,
                    ) is None,
                Err(ServiceError::PermissionDenied) => final(self).storage.model() == old(
                    self,
                ).storage.model() && exists|now: Timestamp|
                    #![trigger resolve_valid_spec(old(self).storage.model(), arg.token@, now)]
                    {
                        let m = old(self).storage.model();
                        let e = resolve_valid_spec(m, arg.token@, now);
                        &&& now.wf()
                        &&& e is Some
                        &&& !m.wipe_pending.contains(e->0.secret_key)
                        &&& !e->0.permissions.write_locations
                    },
                Err(ServiceError::Internal) => final(self).storage.model() == old(
                    self,
                ).storage.model() && !old(self).storage.reliable(),
                Err(_) => false,
            },
    {
        let now = current_time();
        let r = self.submit_location_at(arg, now, remote_addr);
        proof {
            assert(resolve_valid_spec(old(self).storage.model(), arg.token@, now)
                == resolve_valid_spec(old(self).storage.model(), arg.token@, now));
        }
        r
    }

    /// Records a registration under freshly generated credentials: the given
    /// identity and token are bound together, the introduction is stored, and
    /// the caller learns the token.
    pub fn introduce_with_credentials(
        &mut self,
        arg: &IntroduceMyselfArg,
        now: Timestamp,
        remote_addr: Option<String>,
        secret_key: Vec<u8>,
        token: Vec<u8>,
    ) -> (r: Result<IntroduceMyselfResult, ServiceError>)
        requires
            old(self).storage.inv(),
        ensures
            final(self).storage.inv(),
            final(self).config == old(self).config,
            match r {
                Ok(res) => {
                    &&& final(self).storage.model() == write_intro_spec(
                        old(self).storage.model(),
                        secret_key@,
                        token@,
                        intro_of(*arg, opt_str_view(remote_addr)),
                        now,
                    )
                    &&& res.nice_to_meet_you
                    &&& res.your_token@ == token@
                },
                Err(ServiceError::Internal) => final(self).storage.model() == old(
                    self,
                ).storage.model() && !old(self).storage.reliable(),
                Err(_) => false,
            },
    {
        let insertion = IntroInsertion {
            secret_key: &secret_key,
            token: &token,
            remote_addr,
            arg,
        };
        match self.storage.write_intro(&insertion, now) {
            Err(_) => Err(ServiceError::Internal),
            Ok(_) => {
                proof {
                    assert(insertion.intro_view() == intro_of(*arg, opt_str_view(
                        insertion.remote_addr,
                    )));
                }
                Ok(IntroduceMyselfResult { nice_to_meet_you: true, your_token: token })
            },
        }
    }

    /// Registers a new identity: mints a fresh secret key and token from a
    /// strong random source (two independent, non-overlapping byte ranges)
    /// and stores the introduction at the clock's current time. In a
    /// closed-registration deployment the out-of-band registration key must
    /// have been accepted; in an open one it is ignored.
    pub fn introduce_myself(
        &mut self,
        arg: &IntroduceMyselfArg,
        remote_addr: Option<String>,
        registration_key_valid: bool,
    ) -> (r: Result<IntroduceMyselfResult, ServiceError>)
        requires
            old(self).storage.inv(),
        ensures
            final(self).storage.inv(),
            final(self).config == old(self).config,
            match r {
                Ok(res) => {
                    &&& old(self).config.open_registration || registration_key_valid
                    &&& res.nice_to_meet_you
                    &&& res.your_token@.len() == 16
                    &&& exists|now: Timestamp, sk: Seq<u8>|
                        #![trigger write_intro_spec(old(self).storage.model(), sk, res.your_token@, intro_of(*arg, opt_str_view(remote_addr)), now)]
                        {
                            &&& now.wf()
                            &&& sk.len() == 16
                            &&& final(self).storage.model() == write_intro_spec(
                                old(self).storage.model(),
                                sk,
                                res.your_token@,
                                intro_of(*arg, opt_str_view(remote_addr)),
                                now,
                            )
                        }
                },
                Err(ServiceError::Validation) => {
                    &&& !old(self).config.open_registration
                    &&& !registration_key_valid
                    &&& final(self).storage.model() == old(self).storage.model()
                },
                Err(ServiceError::Internal) => {
                    &&& old(self).config.open_registration || registration_key_valid
                    &&& final(self).storage.model() == old(self).storage.model()
                    &&& !old(self).storage.reliable()
                },
                Err(_) => false,
            },
    {
        if !self.config.open_registration && !registration_key_valid {
            return Err(ServiceError::Validation);
        }
        let random = random_bytes_32();
        let mut secret_key: Vec<u8> = Vec::new();
        let mut i: usize = 0;
        while i < 16
            invariant
                i <= 16,
                secret_key@.len() == i,
                random@.len() == 32,
            decreases 16 - i,
        {
            secret_key.push(random[i]);
            i = i + 1;
        }
        let mut token: Vec<u8> = Vec::new();
        let mut j: usize = 16;
        while j < 32
            invariant
                16 <= j <= 32,
                token@.len() == j - 16,
                random@.len() == 32,
            decreases 32 - j,
        {
            token.push(random[j]);
            j = j + 1;
        }
        let now = current_time();
        let ghost gsk = secret_key@;
        let ghost gnow = now;
        let r = self.introduce_with_credentials(arg, now, remote_addr, secret_key, token);
        proof {
            if r is Ok {
                assert(gnow.wf() && gsk.len() == 16);
            }
        }
        r
    }

    /// Lists the caller's stored reports, newest-bounded by the filter: the
    /// first `limit` reports (in receipt order) whose receipt time lies
    /// inside `[since, until]`. Requires the read capability.
    pub fn list_locations(&self, arg: &ListLocationsArg, now: Timestamp) -> (r: Result<
        ListLocationsResult,
        ServiceError,
    >)
        requires
            self.storage.inv(),
        ensures
            match r {
                Ok(res) => {
                    let m = self.storage.model();
                    let e = resolve_valid_spec(m, arg.token@, now);
                    &&& e is Some
                    &&& e->0.permissions.read_locations
                    &&& res.locations.deep_view() == list_locations_spec(
                        m,
                        e->0.secret_key,
                        arg.since,
                        arg.until,
                        arg.limit as nat,
                    )
                },
                Err(ServiceError::Unauthenticated) => resolve_valid_spec(
                    self.storage.model(),
                    arg.token@,
                    now,
                ) is None,
                Err(ServiceError::PermissionDenied) => {
                    let e = resolve_valid_spec(self.storage.model(), arg.token@, now);
                    e is Some && !e->0.permissions.read_locations
                },
                Err(ServiceError::Internal) => !self.storage.reliable(),
                Err(_) => false,
            },
    {
        let entry = match resolve_token(&self.storage, &arg.token, now) {
            Err(e) => { return Err(e) },
            Ok(None) => { return Err(ServiceError::Unauthenticated) },
            Ok(Some(e)) => e,
        };
        if !entry.permissions.read_locations {
            return Err(ServiceError::PermissionDenied);
        }
        let filter = LocationsFilter { limit: arg.limit, since: arg.since, until: arg.until };
        match self.storage.list_locations(&entry.secret_key, &filter) {
            Err(_) => Err(ServiceError::Internal),
            Ok(res) => Ok(res),
        }
    }

    /// Reports how many records the caller's identity has stored, the
    /// earliest receipt time among them, and the backend's limits. Requires
    /// the stats capability.
    pub fn get_storage_info(&self, arg: &GetStorageInfoArg, now: Timestamp) -> (r: Result<
        GetStorageInfoResult,
        ServiceError,
    >)
        requires
            self.storage.inv(),
        ensures
            match r {
                Ok(res) => {
                    let m = self.storage.model();
                    let e = resolve_valid_spec(m, arg.token@, now);
                    &&& e is Some
                    &&& e->0.permissions.stats
                    &&& res.locations_count == history_of(m, e->0.secret_key).len()
                    &&& res.since == earliest_of(update_times(history_of(m, e->0.secret_key)))
                    &&& res.locations_limit == LOCATIONS_LIMIT
                    &&& res.bytes_storage_consumed == 0
                    &&& res.bytes_storage_limit == 0
                },
                Err(ServiceError::Unauthenticated) => resolve_valid_spec(
                    self.storage.model(),
                    arg.token@,
                    now,
                ) is None,
                Err(ServiceError::PermissionDenied) => {
                    let e = resolve_valid_spec(self.storage.model(), arg.token@, now);
                    e is Some && !e->0.permissions.stats
                },
                Err(ServiceError::Internal) => !self.storage.reliable(),
                Err(_) => false,
            },
    {
        let entry = match resolve_token(&self.storage, &arg.token, now) {
            Err(e) => { return Err(e) },
            Ok(None) => { return Err(ServiceError::Unauthenticated) },
            Ok(Some(e)) => e,
        };
        if !entry.permissions.stats {
            return Err(ServiceError::PermissionDenied);
        }
        match self.storage.get_storage_info(&entry.secret_key) {
            Err(_) => Err(ServiceError::Internal),
            Ok(res) => Ok(res),
        }
    }

    /// Lists the authorization records of the caller's identity's tokens.
    /// Requires the token-management capability.
    pub fn list_tokens(&self, arg: &ListTokensArg, now: Timestamp) -> (r: Result<
        Vec<TokenEntry>,
        ServiceError,
    >)
        requires
            self.storage.inv(),
        ensures
            match r {
                Ok(v) => {
                    let m = self.storage.model();
                    let e = resolve_valid_spec(m, arg.token@, now);
                    &&& e is Some
                    &&& e->0.permissions.list_tokens
                    &&& v.deep_view() == list_tokens_spec(m, e->0.secret_key)
                },
                Err(ServiceError::Unauthenticated) => resolve_valid_spec(
                    self.storage.model(),
                    arg.token@,
                    now,
                ) is None,
                Err(ServiceError::PermissionDenied) => {
                    let e = resolve_valid_spec(self.storage.model(), arg.token@, now);
                    e is Some && !e->0.permissions.list_tokens
                },
                Err(ServiceError::Internal) => !self.storage.reliable(),
                Err(_) => false,
            },
    {
        let entry = match resolve_token(&self.storage, &arg.token, now) {
            Err(e) => { return Err(e) },
            Ok(None) => { return Err(ServiceError::Unauthenticated) },
            Ok(Some(e)) => e,
        };
        if !entry.permissions.list_tokens {
            return Err(ServiceError::PermissionDenied);
        }
        match self.storage.list_tokens(&entry.secret_key) {
            Err(_) => Err(ServiceError::Internal),
            Ok(v) => Ok(v),
        }
    }

    /// Destroys exactly one token's authorization: the named token must
    /// belong to the caller's own identity. Other tokens of that identity and
    /// all stored history stay untouched. Revoking a token that no longer
    /// resolves changes nothing. Requires the token-management capability.
    pub fn revoke_token(&mut self, arg: &RevokeTokenArg, now: Timestamp) -> (r: Result<
        (),
        ServiceError,
    >)
        requires
            old(self).storage.inv(),
        ensures
            final(self).storage.inv(),
            final(self).config == old(self).config,
            match r {
                Ok(_) => {
                    let m = old(self).storage.model();
                    let e = resolve_valid_spec(m, arg.token@, now);
                    &&& e is Some
                    &&& e->0.permissions.list_tokens
                    &&& match resolve_spec(m, arg.revoke@) {
                        Some(t) => t.secret_key == e->0.secret_key,
                        None => true,
                    }
                    &&& final(self).storage.model() == revoke_token_spec(m, arg.revoke@)
                },
                Err(ServiceError::Unauthenticated) => resolve_valid_spec(
                    old(self).storage.model(),
                    arg.token@,
                    now,
                ) is None && final(self).storage.model() == old(self).storage.model(),
                Err(ServiceError::PermissionDenied) => {
                    let m = old(self).storage.model();
                    let e = resolve_valid_spec(m, arg.token@, now);
                    &&& e is Some
                    &&& final(self).storage.model() == m
                    &&& (!e->0.permissions.list_tokens || (resolve_spec(m, arg.revoke@) is Some
                        && resolve_spec(m, arg.revoke@)->0.secret_key != e->0.secret_key))
                },
                Err(ServiceError::Internal) => final(self).storage.model() == old(
                    self,
                ).storage.model() && !old(self).storage.reliable(),
                Err(_) => false,
            },
    {
        let entry = match resolve_token(&self.storage, &arg.token, now) {
            Err(e) => { return Err(e) },
            Ok(None) => { return Err(ServiceError::Unauthenticated) },
            Ok(Some(e)) => e,
        };
        if !entry.permissions.list_tokens {
            return Err(ServiceError::PermissionDenied);
        }
        let target = match self.storage.get_token_info(&arg.revoke) {
            Err(_) => { return Err(ServiceError::Internal) },
            Ok(t) => t,
        };
        match target {
            None => {
                proof {
                    assert(self.storage.model() == revoke_token_spec(
                        old(self).storage.model(),
                        arg.revoke@,
                    ));
                }
                Ok(())
            },
            Some(t) => {
                if !eq_bytes(&t.secret_key, &entry.secret_key) {
                    return Err(ServiceError::PermissionDenied);
                }
                match self.storage.revoke_token(arg) {
                    Err(_) => Err(ServiceError::Internal),
                    Ok(_) => Ok(()),
                }
            },
        }
    }

    /// Drops the caller's identity's entire stored history. Requires the wipe
    /// capability.
    pub fn purge_locations(&mut self, arg: &PurgeLocationsArg, now: Timestamp) -> (r: Result<
        (),
        ServiceError,
    >)
        requires
            old(self).storage.inv(),
        ensures
            final(self).storage.inv(),
            final(self).config == old(self).config,
            match r {
                Ok(_) => {
                    let m = old(self).storage.model();
                    let e = resolve_valid_spec(m, arg.token@, now);
                    &&& e is Some
                    &&& e->0.permissions.wipe
                    &&& final(self).storage.model() == purge_location_spec(m, e->0.secret_key)
                },
                Err(ServiceError::Unauthenticated) => resolve_valid_spec(
                    old(self).storage.model(),
                    arg.token@,
                    now,
                ) is None && final(self).storage.model() == old(self).storage.model(),
                Err(ServiceError::PermissionDenied) => {
                    let e = resolve_valid_spec(old(self).storage.model(), arg.token@, now);
                    &&& e is Some
                    &&& !e->0.permissions.wipe
                    &&& final(self).storage.model() == old(self).storage.model()
                },
                Err(ServiceError::Internal) => final(self).storage.model() == old(
                    self,
                ).storage.model() && !old(self).storage.reliable(),
                Err(_) => false,
            },
    {
        let entry = match resolve_token(&self.storage, &arg.token, now) {
            Err(e) => { return Err(e) },
            Ok(None) => { return Err(ServiceError::Unauthenticated) },
            Ok(Some(e)) => e,
        };
        if !entry.permissions.wipe {
            return Err(ServiceError::PermissionDenied);
        }
        match self.storage.purge_location(&entry.secret_key) {
            Err(_) => Err(ServiceError::Internal),
            Ok(_) => Ok(()),
        }
    }

    /// Marks the caller's identity for remote wipe: every token of the
    /// identity is reduced to the wipe-acknowledgment capability, and the
    /// identity's next submission is answered with the wipe order instead of
    /// being stored. Requires the wipe capability.
    pub fn request_excommunication(
        &mut self,
        arg: &RequestExcommunicationArg,
        now: Timestamp,
    ) -> (r: Result<(), ServiceError>)
        requires
            old(self).storage.inv(),
        ensures
            final(self).storage.inv(),
            final(self).config == old(self).config,
            match r {
                Ok(_) => {
                    let m = old(self).storage.model();
                    let e = resolve_valid_spec(m, arg.token@, now);
                    &&& e is Some
                    &&& e->0.permissions.wipe
                    &&& final(self).storage.model() == excommunicate_spec(m, e->0.secret_key)
                },
                Err(ServiceError::Unauthenticated) => resolve_valid_spec(
                    old(self).storage.model(),
                    arg.token@,
                    now,
                ) is None && final(self).storage.model() == old(self).storage.model(),
                Err(ServiceError::PermissionDenied) => {
                    let e = resolve_valid_spec(old(self).storage.model(), arg.token@, now);
                    &&& e is Some
                    &&& !e->0.permissions.wipe
                    &&& final(self).storage.model() == old(self).storage.model()
                },
                Err(ServiceError::Internal) => final(self).storage.model() == old(
                    self,
                ).storage.model() && !old(self).storage.reliable(),
                Err(_) => false,
            },
    {
        let entry = match resolve_token(&self.storage, &arg.token, now) {
            Err(e) => { return Err(e) },
            Ok(None) => { return Err(ServiceError::Unauthenticated) },
            Ok(Some(e)) => e,
        };
        if !entry.permissions.wipe {
            return Err(ServiceError::PermissionDenied);
        }
        match self.storage.excommunicate(&entry.secret_key) {
            Err(_) => Err(ServiceError::Internal),
            Ok(_) => Ok(()),
        }
    }
}

/// The read-only page path: a hex-encoded token names the viewer; on a valid
/// token with the read capability, the first reports of its identity (up to
/// the page limit) come back for rendering.
pub fn list_locations_by_hex_token<S: Storage>(storage: &S, token_hex: &str, now: Timestamp) -> (r:
    Result<ListLocationsResult, ServiceError>)
    requires
        storage.inv(),
    ensures
        match r {
            Ok(res) => {
                let m = storage.model();
                let e = resolve_valid_spec(m, hex_bytes(token_hex@), now);
                &&& is_hex_string(token_hex@)
                &&& e is Some
                &&& e->0.permissions.read_locations
                &&& res.locations.deep_view() == list_locations_spec(
                    m,
                    e->0.secret_key,
                    None,
                    None,
                    LOCATIONS_LIMIT as nat,
                )
            },
            Err(ServiceError::Validation) => !is_hex_string(token_hex@),
            Err(ServiceError::Unauthenticated) => is_hex_string(token_hex@) && resolve_valid_spec(
                storage.model(),
                hex_bytes(token_hex@),
                now,
            ) is None,
            Err(ServiceError::PermissionDenied) => {
                let e = resolve_valid_spec(storage.model(), hex_bytes(token_hex@), now);
                is_hex_string(token_hex@) && e is Some && !e->0.permissions.read_locations
            },
            Err(ServiceError::Internal) => is_hex_string(token_hex@) && !storage.reliable(),
        },
{
    let token = match hex_decode(token_hex) {
        None => { return Err(ServiceError::Validation) },
        Some(t) => t,
    };
    let entry = match resolve_token(storage, &token, now) {
        Err(e) => { return Err(e) },
        Ok(None) => { return Err(ServiceError::Unauthenticated) },
        Ok(Some(e)) => e,
    };
    if !entry.permissions.read_locations {
        return Err(ServiceError::PermissionDenied);
    }
    let filter = LocationsFilter { limit: LOCATIONS_LIMIT, since: None, until: None };
    match storage.list_locations(&entry.secret_key, &filter) {
        Err(_) => Err(ServiceError::Internal),
        Ok(res) => Ok(res),
    }
}

} // verus!
