//! The storage interface: the authoritative mapping of identities to location
//! history and token metadata. `StoreModel` is the mathematical state every
//! operation is specified against; the `Storage` trait carries those
//! contracts, so that any backend satisfying them can sit under the service.

pub mod memory;

use vstd::prelude::*;
use crate::messages::{
    IntroduceMyselfArg,
    Location,
    LocationSnapshot,
    LocationSnapshotV,
    Permissions,
    RevokeTokenArg,
    Velocity,
    clone_bytes,
    clone_strings,
};
use crate::time::Timestamp;

verus! {

/// A bearer credential: an opaque byte string a client presents.
pub type Token = Vec<u8>;

/// The durable identity of a device: an opaque byte string that owns all
/// location history and all issued tokens.
pub type SecretKey = Vec<u8>;

/// The storage backend could not complete an operation. The in-memory engine
/// never raises it; a durable backend may.
#[derive(Clone, Copy, Debug, PartialEq, Eq, Structural)]
pub enum StorageError {
    Unavailable,
}

/// What the authorization record a token resolves to: the identity it speaks
/// for, what it may do, and the window in which it is valid. A missing
/// `not_after` means the token does not expire.
#[derive(Debug)]
pub struct TokenEntry {
    pub secret_key: SecretKey,
    pub permissions: Permissions,
    pub not_before: Timestamp,
    pub not_after: Option<Timestamp>,
}

/// Mathematical value of a [`TokenEntry`].
pub ghost struct TokenEntryV {
    pub secret_key: Seq<u8>,
    pub permissions: Permissions,
    pub not_before: Timestamp,
    pub not_after: Option<Timestamp>,
}

impl DeepView for TokenEntry {
    type V = TokenEntryV;

    open spec fn deep_view(&self) -> TokenEntryV {
        TokenEntryV {
            secret_key: self.secret_key@,
            permissions: self.permissions,
            not_before: self.not_before,
            not_after: self.not_after,
        }
    }
}

impl TokenEntryV {
    /// The entry's validity window covers `now`.
    pub open spec fn valid_at(self, now: Timestamp) -> bool {
        self.not_before.spec_le(now) && match self.not_after {
            None => true,
            Some(t) => now.spec_le(t),
        }
    }
}

impl TokenEntry {
    /// A copy whose mathematical value is the same.
    pub fn duplicate(&self) -> (r: TokenEntry)
        ensures
            r.deep_view() == self.deep_view(),
    {
        TokenEntry {
            secret_key: clone_bytes(&self.secret_key),
            permissions: self.permissions,
            not_before: self.not_before,
            not_after: self.not_after,
        }
    }

    /// Whether the validity window covers `now`.
    pub fn is_valid_at(&self, now: Timestamp) -> (r: bool)
        ensures
            r == self.deep_view().valid_at(now),
    {
        self.not_before.le(&now) && match self.not_after {
            None => true,
            Some(t) => now.le(&t),
        }
    }
}

/// One location report as the engine stores it: what the device submitted
/// plus the two server-assigned fields (`update_time`, `remote_addr`).
#[derive(Debug)]
pub struct LocationInsertion {
    pub update_time: Timestamp,
    pub expected_next_update_time: Option<Timestamp>,
    pub location: Option<Location>,
    pub velocity: Option<Velocity>,
    pub emergency: bool,
    pub notes: String,
    pub nearby_wifi_network: Vec<String>,
    pub nearby_bluetooth_devices: Vec<String>,
    pub remote_addr: Option<String>,
}

/// Mathematical value of a [`LocationInsertion`].
pub ghost struct LocationRecordV {
    pub update_time: Timestamp,
    pub expected_next_update_time: Option<Timestamp>,
    pub location: Option<Location>,
    pub velocity: Option<Velocity>,
    pub emergency: bool,
    pub notes: Seq<char>,
    pub nearby_wifi_network: Seq<Seq<char>>,
    pub nearby_bluetooth_devices: Seq<Seq<char>>,
    pub remote_addr: Option<Seq<char>>,
}

impl DeepView for LocationInsertion {
    type V = LocationRecordV;

    open spec fn deep_view(&self) -> LocationRecordV {
        LocationRecordV {
            update_time: self.update_time,
            expected_next_update_time: self.expected_next_update_time,
            location: self.location,
            velocity: self.velocity,
            emergency: self.emergency,
            notes: self.notes@,
            nearby_wifi_network: self.nearby_wifi_network.deep_view(),
            nearby_bluetooth_devices: self.nearby_bluetooth_devices.deep_view(),
            remote_addr: match self.remote_addr {
                Some(ref a) => Some(a@),
                None => None,
            },
        }
    }
}

impl LocationInsertion {
    /// A copy whose mathematical value is the same.
    pub fn duplicate(&self) -> (r: LocationInsertion)
        ensures
            r.deep_view() == self.deep_view(),
    {
        LocationInsertion {
            update_time: self.update_time,
            expected_next_update_time: self.expected_next_update_time,
            location: self.location,
            velocity: self.velocity,
            emergency: self.emergency,
            notes: self.notes.clone(),
            nearby_wifi_network: clone_strings(&self.nearby_wifi_network),
            nearby_bluetooth_devices: clone_strings(&self.nearby_bluetooth_devices),
            remote_addr: match &self.remote_addr {
                Some(a) => Some(a.clone()),
                None => None,
            },
        }
    }
}

/// What a viewer sees of a stored report: everything but the server-observed
/// remote address.
pub open spec fn snapshot_of(r: LocationRecordV) -> LocationSnapshotV {
    LocationSnapshotV {
        update_time: r.update_time,
        expected_next_update_time: r.expected_next_update_time,
        location: r.location,
        velocity: r.velocity,
        emergency: r.emergency,
        notes: r.notes,
        nearby_wifi_network: r.nearby_wifi_network,
        nearby_bluetooth_devices: r.nearby_bluetooth_devices,
    }
}

/// Builds the viewer-facing snapshot of one stored report.
pub fn snapshot_of_record(rec: &LocationInsertion) -> (s: LocationSnapshot)
    ensures
        s.deep_view() == snapshot_of(rec.deep_view()),
{
    LocationSnapshot {
        update_time: rec.update_time,
        expected_next_update_time: rec.expected_next_update_time,
        location: rec.location,
        velocity: rec.velocity,
        emergency: rec.emergency,
        notes: rec.notes.clone(),
        nearby_wifi_network: clone_strings(&rec.nearby_wifi_network),
        nearby_bluetooth_devices: clone_strings(&rec.nearby_bluetooth_devices),
    }
}

/// What a registration stores about the identity it minted.
pub ghost struct IntroductionV {
    pub remote_addr: Option<Seq<char>>,
    pub registration_key: Seq<u8>,
    pub remote_wipe_enabled: bool,
    pub can_read_nearby_devices: bool,
}

/// The arguments a registration hands to the engine: the freshly generated
/// identity and credential, the observed address, and the caller's request.
pub struct IntroInsertion<'a> {
    pub secret_key: &'a SecretKey,
    pub token: &'a Token,
    pub remote_addr: Option<String>,
    pub arg: &'a IntroduceMyselfArg,
}

impl<'a> IntroInsertion<'a> {
    /// Mathematical value of what this insertion stores about the identity.
    pub open spec fn intro_view(self) -> IntroductionV {
        IntroductionV {
            remote_addr: match self.remote_addr {
                Some(a) => Some(a@),
                None => None,
            },
            registration_key: self.arg.registration_key@,
            remote_wipe_enabled: self.arg.remote_wipe_enabled,
            can_read_nearby_devices: self.arg.can_read_nearby_devices,
        }
    }
}

/// Bounds on which stored reports a listing returns, and on how many.
#[derive(Debug)]
pub struct LocationsFilter {
    pub limit: u32,
    pub since: Option<Timestamp>,
    pub until: Option<Timestamp>,
}

/// What appending a report found: either it was stored, or the identity is
/// marked for remote wipe and the report was dropped while the mark cleared.
#[derive(Clone, Copy, Debug, PartialEq, Eq, Structural)]
pub enum WriteOutcome {
    Recorded,
    WipePending,
}

/// The mathematical state of the store.
pub ghost struct StoreModel {
    pub locations: Map<Seq<u8>, Seq<LocationRecordV>>,
    pub intros: Map<Seq<u8>, IntroductionV>,
    pub tokens_by_secret: Map<Seq<u8>, Seq<Seq<u8>>>,
    pub tokens: Map<Seq<u8>, TokenEntryV>,
    pub wipe_pending: Set<Seq<u8>>,
}

/// The location history of an identity; empty when none was ever stored.
pub open spec fn history_of(m: StoreModel, k: Seq<u8>) -> Seq<LocationRecordV> {
    if m.locations.dom().contains(k) {
        m.locations[k]
    } else {
        Seq::empty()
    }
}

/// The tokens issued to an identity, in issue order.
pub open spec fn tokens_of(m: StoreModel, k: Seq<u8>) -> Seq<Seq<u8>> {
    if m.tokens_by_secret.dom().contains(k) {
        m.tokens_by_secret[k]
    } else {
        Seq::empty()
    }
}

/// The entry a token resolves to, ignoring its validity window.
pub open spec fn resolve_spec(m: StoreModel, t: Seq<u8>) -> Option<TokenEntryV> {
    if m.tokens.dom().contains(t) {
        Some(m.tokens[t])
    } else {
        None
    }
}

/// The entry a token resolves to at `now`: an expired or not-yet-valid entry
/// authenticates nothing, exactly as if the token had never been issued.
pub open spec fn resolve_valid_spec(m: StoreModel, t: Seq<u8>, now: Timestamp) -> Option<
    TokenEntryV,
> {
    match resolve_spec(m, t) {
        Some(e) => if e.valid_at(now) {
            Some(e)
        } else {
            None
        },
        None => None,
    }
}

/// Appends one report to an identity's history, leaving everything else as it
/// was.
pub open spec fn append_location_spec(m: StoreModel, k: Seq<u8>, r: LocationRecordV) -> StoreModel {
    StoreModel { locations: m.locations.insert(k, history_of(m, k).push(r)), ..m }
}

/// What appending a report does: when the identity is marked for remote wipe
/// the report is dropped and the mark clears; otherwise the report is stored.
pub open spec fn write_location_spec(m: StoreModel, k: Seq<u8>, r: LocationRecordV) -> StoreModel {
    if m.wipe_pending.contains(k) {
        StoreModel { wipe_pending: m.wipe_pending.remove(k), ..m }
    } else {
        append_location_spec(m, k, r)
    }
}

/// The permissions a registration seeds onto the issued token: reporting and
/// reading are granted; nearby reads and remote wipe follow the caller's
/// capability hints; token management and stats are not granted.
pub open spec fn intro_permissions(arg: IntroductionV) -> Permissions {
    Permissions {
        list_tokens: false,
        write_locations: true,
        read_locations: true,
        nearby: arg.can_read_nearby_devices,
        stats: false,
        wipe: arg.remote_wipe_enabled,
    }
}

/// The authorization record a registration issues: valid from `now`, never
/// expiring, with the seeded permissions.
pub open spec fn intro_entry(sk: Seq<u8>, intro: IntroductionV, now: Timestamp) -> TokenEntryV {
    TokenEntryV {
        secret_key: sk,
        permissions: intro_permissions(intro),
        not_before: now,
        not_after: None,
    }
}

/// Records a registration: stores the introduction, binds the fresh token to
/// the fresh identity, and adds the token to the identity's token list.
pub open spec fn write_intro_spec(
    m: StoreModel,
    sk: Seq<u8>,
    tk: Seq<u8>,
    intro: IntroductionV,
    now: Timestamp,
) -> StoreModel {
    StoreModel {
        intros: m.intros.insert(sk, intro),
        tokens: m.tokens.insert(tk, intro_entry(sk, intro, now)),
        tokens_by_secret: m.tokens_by_secret.insert(sk, tokens_of(m, sk).push(tk)),
        ..m
    }
}

/// Issues a token: binds it to the entry's identity and appends it to that
/// identity's token list.
pub open spec fn write_token_spec(m: StoreModel, tk: Seq<u8>, e: TokenEntryV) -> StoreModel {
    StoreModel {
        tokens: m.tokens.insert(tk, e),
        tokens_by_secret: m.tokens_by_secret.insert(
            e.secret_key,
            tokens_of(m, e.secret_key).push(tk),
        ),
        ..m
    }
}

/// `ts` with every occurrence of `tk` removed, order otherwise kept.
pub open spec fn without_token(ts: Seq<Seq<u8>>, tk: Seq<u8>) -> Seq<Seq<u8>>
    decreases ts.len(),
{
    if ts.len() == 0 {
        Seq::empty()
    } else {
        let rest = without_token(ts.drop_last(), tk);
        if ts.last() == tk {
            rest
        } else {
            rest.push(ts.last())
        }
    }
}

/// Revokes exactly one token: its entry is destroyed and it leaves its
/// identity's token list. Other tokens of the same identity, and all location
/// history, stay untouched. Revoking an unknown token changes nothing.
pub open spec fn revoke_token_spec(m: StoreModel, tk: Seq<u8>) -> StoreModel {
    match resolve_spec(m, tk) {
        None => m,
        Some(e) => StoreModel {
            tokens: m.tokens.remove(tk),
            tokens_by_secret: m.tokens_by_secret.insert(
                e.secret_key,
                without_token(tokens_of(m, e.secret_key), tk),
            ),
            ..m
        },
    }
}

/// Drops an identity's entire location history.
pub open spec fn purge_location_spec(m: StoreModel, k: Seq<u8>) -> StoreModel {
    StoreModel { locations: m.locations.remove(k), ..m }
}

/// Every token of the identity keeps its window but is reduced to the single
/// wipe-acknowledgment capability.
pub open spec fn downgrade_tokens(tokens: Map<Seq<u8>, TokenEntryV>, sk: Seq<u8>) -> Map<
    Seq<u8>,
    TokenEntryV,
> {
    Map::new(
        |t: Seq<u8>| tokens.dom().contains(t),
        |t: Seq<u8>|
            if tokens[t].secret_key == sk {
                TokenEntryV { permissions: Permissions::spec_wipe_only(), ..tokens[t] }
            } else {
                tokens[t]
            },
    )
}

/// Marks an identity for remote wipe and downgrades all its tokens to the
/// wipe-acknowledgment capability.
pub open spec fn excommunicate_spec(m: StoreModel, sk: Seq<u8>) -> StoreModel {
    StoreModel {
        wipe_pending: m.wipe_pending.insert(sk),
        tokens: downgrade_tokens(m.tokens, sk),
        ..m
    }
}

/// The entries the given tokens resolve to, in order, skipping tokens without
/// an entry.
pub open spec fn entries_of(tokens: Map<Seq<u8>, TokenEntryV>, ts: Seq<Seq<u8>>) -> Seq<TokenEntryV>
    decreases ts.len(),
{
    if ts.len() == 0 {
        Seq::empty()
    } else {
        let rest = entries_of(tokens, ts.drop_last());
        if tokens.dom().contains(ts.last()) {
            rest.push(tokens[ts.last()])
        } else {
            rest
        }
    }
}

/// The entries of an identity's tokens, in issue order.
pub open spec fn list_tokens_spec(m: StoreModel, k: Seq<u8>) -> Seq<TokenEntryV> {
    entries_of(m.tokens, tokens_of(m, k))
}

/// A report is listed exactly when its receipt time lies at or after `since`
/// (when supplied) and at or before `until` (when supplied).
pub open spec fn matches_filter(t: Timestamp, since: Option<Timestamp>, until: Option<
    Timestamp,
>) -> bool {
    (match since {
        None => true,
        Some(s) => t.spec_ge(s),
    }) && (match until {
        None => true,
        Some(u) => t.spec_le(u),
    })
}

/// Decides [`matches_filter`] on a concrete report time.
pub fn matches_filter_exec(t: Timestamp, since: Option<Timestamp>, until: Option<Timestamp>) -> (r:
    bool)
    ensures
        r == matches_filter(t, since, until),
{
    (match since {
        None => true,
        Some(s) => t.ge(&s),
    }) && (match until {
        None => true,
        Some(u) => t.le(&u),
    })
}

/// The first `limit` reports that pass the filter, in storage (receipt)
/// order, as viewer-facing snapshots.
pub open spec fn select_locations(
    s: Seq<LocationRecordV>,
    since: Option<Timestamp>,
    until: Option<Timestamp>,
    limit: nat,
) -> Seq<LocationSnapshotV>
    decreases s.len(),
{
    if s.len() == 0 || limit == 0 {
        Seq::empty()
    } else if matches_filter(s[0].update_time, since, until) {
        seq![snapshot_of(s[0])] + select_locations(
            s.drop_first(),
            since,
            until,
            (limit - 1) as nat,
        )
    } else {
        select_locations(s.drop_first(), since, until, limit)
    }
}

/// What a listing of an identity's history returns.
pub open spec fn list_locations_spec(
    m: StoreModel,
    k: Seq<u8>,
    since: Option<Timestamp>,
    until: Option<Timestamp>,
    limit: nat,
) -> Seq<LocationSnapshotV> {
    select_locations(history_of(m, k), since, until, limit)
}

/// The receipt times of a history, in storage order.
pub open spec fn update_times(s: Seq<LocationRecordV>) -> Seq<Timestamp> {
    s.map_values(|r: LocationRecordV| r.update_time)
}

/// The per-identity report limit this backend advertises in its stats, and
/// the page size of the read-only locations path.
pub const LOCATIONS_LIMIT: u32 = 100;

/// A capability interface over the store. Every operation is specified
/// against the backend's mathematical state; an operation that fails leaves
/// that state as it was.
pub trait Storage: Sized {
    /// The backend's mathematical state.
    spec fn model(&self) -> StoreModel;

    /// The backend's internal well-formedness.
    spec fn inv(&self) -> bool;

    /// Whether this backend's operations are sure to succeed. The in-memory
    /// engine's are; a durable backend that can fail says so here, and every
    /// failed result is tied to that admission.
    spec fn reliable(&self) -> bool;

    /// Looks a token's authorization record up, ignoring its validity window.
    fn get_token_info(&self, token: &Token) -> (r: Result<Option<TokenEntry>, StorageError>)
        requires
            self.inv(),
        ensures
            match r {
                Ok(Some(e)) => resolve_spec(self.model(), token@) == Some(e.deep_view()),
                Ok(None) => resolve_spec(self.model(), token@) is None,
                Err(_) => !self.reliable(),
            },
    ;

    /// Appends one report to an identity's history — unless the identity is
    /// marked for remote wipe, in which case the report is dropped and the
    /// mark clears.
    fn write_location(&mut self, secret_key: &SecretKey, arg: &LocationInsertion) -> (r: Result<
        WriteOutcome,
        StorageError,
    >)
        requires
            old(self).inv(),
        ensures
            final(self).inv(),
            match r {
                Ok(o) => final(self).model() == write_location_spec(
                    old(self).model(),
                    secret_key@,
                    arg.deep_view(),
                ) && (o == WriteOutcome::WipePending <==> old(self).model().wipe_pending.contains(
                    secret_key@,
                )),
                Err(_) => final(self).model() == old(self).model() && !old(self).reliable(),
            },
    ;

    /// Records a registration at `now`.
    fn write_intro(&mut self, arg: &IntroInsertion, now: Timestamp) -> (r: Result<
        (),
        StorageError,
    >)
        requires
            old(self).inv(),
        ensures
            final(self).inv(),
            match r {
                Ok(_) => final(self).model() == write_intro_spec(
                    old(self).model(),
                    arg.secret_key@,
                    arg.token@,
                    arg.intro_view(),
                    now,
                ),
                Err(_) => final(self).model() == old(self).model() && !old(self).reliable(),
            },
    ;

    /// Issues a token with the given authorization record.
    fn write_token(&mut self, token: &Token, arg: &TokenEntry) -> (r: Result<(), StorageError>)
        requires
            old(self).inv(),
        ensures
            final(self).inv(),
            match r {
                Ok(_) => final(self).model() == write_token_spec(
                    old(self).model(),
                    token@,
                    arg.deep_view(),
                ),
                Err(_) => final(self).model() == old(self).model() && !old(self).reliable(),
            },
    ;

    /// Destroys exactly one token's authorization. Never touches other
    /// tokens' entries or any location history.
    fn revoke_token(&mut self, arg: &RevokeTokenArg) -> (r: Result<(), StorageError>)
        requires
            old(self).inv(),
        ensures
            final(self).inv(),
            match r {
                Ok(_) => final(self).model() == revoke_token_spec(old(self).model(), arg.revoke@),
                Err(_) => final(self).model() == old(self).model() && !old(self).reliable(),
            },
    ;

    /// The authorization records of an identity's tokens, in issue order.
    fn list_tokens(&self, secret_key: &SecretKey) -> (r: Result<Vec<TokenEntry>, StorageError>)
        requires
            self.inv(),
        ensures
            match r {
                Ok(v) => v.deep_view() == list_tokens_spec(self.model(), secret_key@),
                Err(_) => !self.reliable(),
            },
    ;

    /// Drops an identity's entire location history.
    fn purge_location(&mut self, secret_key: &SecretKey) -> (r: Result<(), StorageError>)
        requires
            old(self).inv(),
        ensures
            final(self).inv(),
            match r {
                Ok(_) => final(self).model() == purge_location_spec(
                    old(self).model(),
                    secret_key@,
                ),
                Err(_) => final(self).model() == old(self).model() && !old(self).reliable(),
            },
    ;

    /// Marks an identity for remote wipe and downgrades all its tokens to the
    /// wipe-acknowledgment capability.
    fn excommunicate(&mut self, secret_key: &SecretKey) -> (r: Result<(), StorageError>)
        requires
            old(self).inv(),
        ensures
            final(self).inv(),
            match r {
                Ok(_) => final(self).model() == excommunicate_spec(old(self).model(), secret_key@),
                Err(_) => final(self).model() == old(self).model() && !old(self).reliable(),
            },
    ;

    /// Whether an identity is marked for remote wipe.
    fn is_wipe_pending(&self, secret_key: &SecretKey) -> (r: Result<bool, StorageError>)
        requires
            self.inv(),
        ensures
            match r {
                Ok(b) => b == self.model().wipe_pending.contains(secret_key@),
                Err(_) => !self.reliable(),
            },
    ;

    /// The first `filter.limit` reports of an identity's history that fall
    /// inside the filter's bounds, in receipt order.
    fn list_locations(&self, secret_key: &SecretKey, filter: &LocationsFilter) -> (r: Result<
        crate::messages::ListLocationsResult,
        StorageError,
    >)
        requires
            self.inv(),
        ensures
            match r {
                Ok(res) => res.locations.deep_view() == list_locations_spec(
                    self.model(),
                    secret_key@,
                    filter.since,
                    filter.until,
                    filter.limit as nat,
                ),
                Err(_) => !self.reliable(),
            },
    ;

    /// How many reports an identity has stored and the earliest receipt time
    /// among them (by whole-second comparison), with this backend's limits.
    fn get_storage_info(&self, secret_key: &SecretKey) -> (r: Result<
        crate::messages::GetStorageInfoResult,
        StorageError,
    >)
        requires
            self.inv(),
        ensures
            match r {
                Ok(res) => {
                    &&& res.locations_count == history_of(self.model(), secret_key@).len()
                    &&& res.since == crate::time::earliest_of(
                        update_times(history_of(self.model(), secret_key@)),
                    )
                    &&& res.locations_limit == LOCATIONS_LIMIT
                    &&& res.bytes_storage_consumed == 0
                    &&& res.bytes_storage_limit == 0
                },
                Err(_) => !self.reliable(),
            },
    ;
}

} // verus!
