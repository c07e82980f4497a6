//! The in-memory storage engine: association vectors behind the `Storage`
//! contracts. All state lives in process memory; a caller wanting durability
//! substitutes another backend satisfying the same trait.

use vstd::prelude::*;
use vstd::pervasive::VecAdditionalExecFns;
use crate::assoc::{
    assoc_find,
    assoc_put,
    assoc_remove,
    assoc_view,
    keys_unique,
    lemma_assoc_view_at,
    lemma_assoc_view_dom,
};
use crate::messages::{
    GetStorageInfoResult,
    ListLocationsResult,
    LocationSnapshot,
    Permissions,
    RevokeTokenArg,
    clone_bytes,
    eq_bytes,
};
use crate::storage::{
    IntroInsertion,
    IntroductionV,
    LocationInsertion,
    LocationsFilter,
    SecretKey,
    Storage,
    StorageError,
    StoreModel,
    Token,
    TokenEntry,
    TokenEntryV,
    WriteOutcome,
    LOCATIONS_LIMIT,
    downgrade_tokens,
    entries_of,
    excommunicate_spec,
    history_of,
    intro_entry,
    list_locations_spec,
    list_tokens_spec,
    matches_filter,
    purge_location_spec,
    revoke_token_spec,
    select_locations,
    snapshot_of,
    snapshot_of_record,
    update_times,
    without_token,
    write_intro_spec,
    write_location_spec,
    write_token_spec,
};
use crate::time::{Timestamp, earliest_of};

verus! {

/// What a registration stored about the identity it minted.
#[derive(Debug)]
pub struct Introduction {
    pub remote_addr: Option<String>,
    pub registration_key: Vec<u8>,
    pub remote_wipe_enabled: bool,
    pub can_read_nearby_devices: bool,
}

impl DeepView for Introduction {
    type V = IntroductionV;

    open spec fn deep_view(&self) -> IntroductionV {
        IntroductionV {
            remote_addr: match self.remote_addr {
                Some(ref a) => Some(a@),
                None => None,
            },
            registration_key: self.registration_key@,
            remote_wipe_enabled: self.remote_wipe_enabled,
            can_read_nearby_devices: self.can_read_nearby_devices,
        }
    }
}

/// The set of identities a list of byte strings stands for.
pub open spec fn wipe_set(s: Seq<Vec<u8>>) -> Set<Seq<u8>> {
    Set::new(|k: Seq<u8>| exists|i: int| 0 <= i < s.len() && s[i]@ == k)
}

/// No identity is listed twice.
pub open spec fn wipe_unique(s: Seq<Vec<u8>>) -> bool {
    forall|i: int, j: int| 0 <= i < j < s.len() ==> s[i]@ != s[j]@
}

/// Whether the identity is in the listed set.
fn wipe_contains(s: &Vec<Vec<u8>>, k: &Vec<u8>) -> (r: bool)
    ensures
        r == wipe_set(s@).contains(k@),
{
    let mut i: usize = 0;
    while i < s.len()
        invariant
            i <= s@.len(),
            forall|j: int| 0 <= j < i ==> s@[j]@ != k@,
        decreases s@.len() - i,
    {
        if eq_bytes(&s[i], k) {
            assert(wipe_set(s@).contains(k@)) by {
                assert(s@[i as int]@ == k@);
            }
            return true;
        }
        i = i + 1;
    }
    assert(!wipe_set(s@).contains(k@)) by {
        if wipe_set(s@).contains(k@) {
            let j = choose|j: int| 0 <= j < s@.len() && s@[j]@ == k@;
            assert(s@[j]@ != k@);
        }
    }
    false
}

/// Adds the identity to the listed set.
fn wipe_insert(s: &mut Vec<Vec<u8>>, k: &Vec<u8>)
    requires
        wipe_unique(old(s)@),
    ensures
        wipe_unique(final(s)@),
        wipe_set(final(s)@) == wipe_set(old(s)@).insert(k@),
{
    if !wipe_contains(s, k) {
        let ghost pre = s@;
        s.push(clone_bytes(k));
        proof {
            assert forall|q: Seq<u8>| wipe_set(s@).contains(q) implies wipe_set(pre).insert(
                k@,
            ).contains(q) by {
                let i = choose|i: int| 0 <= i < s@.len() && s@[i]@ == q;
                if i < pre.len() {
                    assert(pre[i]@ == q);
                }
            }
            assert forall|q: Seq<u8>| wipe_set(pre).insert(k@).contains(q) implies wipe_set(
                s@,
            ).contains(q) by {
                if q == k@ {
                    assert(s@[s@.len() - 1]@ == q);
                } else {
                    let i = choose|i: int| 0 <= i < pre.len() && pre[i]@ == q;
                    assert(s@[i]@ == q);
                }
            }
            assert(wipe_set(s@) =~= wipe_set(pre).insert(k@));
            assert forall|i: int, j: int| 0 <= i < j < s@.len() implies s@[i]@ != s@[j]@ by {
                if j == s@.len() - 1 {
                    assert(!wipe_set(pre).contains(k@));
                    assert(pre[i]@ != k@) by {
                        if pre[i]@ == k@ {
                            assert(wipe_set(pre).contains(k@));
                        }
                    }
                }
            }
        }
    } else {
        proof {
            assert(wipe_set(s@) =~= wipe_set(s@).insert(k@));
        }
    }
}

/// Drops the identity from the listed set.
#[verifier::loop_isolation(false)]
fn wipe_remove(s: &mut Vec<Vec<u8>>, k: &Vec<u8>)
    requires
        wipe_unique(old(s)@),
    ensures
        wipe_unique(final(s)@),
        wipe_set(final(s)@) == wipe_set(old(s)@).remove(k@),
{
    let ghost pre = old(s)@;
    let mut i: usize = 0;
    while i < s.len()
        invariant
            i <= s@.len(),
            s@ == pre,
            wipe_unique(pre),
            forall|j: int| 0 <= j < i ==> s@[j]@ != k@,
        decreases s@.len() - i,
    {
        if eq_bytes(&s[i], k) {
            let _ = s.remove(i);
            proof {
                assert forall|q: Seq<u8>| wipe_set(s@).contains(q) implies wipe_set(pre).remove(
                    k@,
                ).contains(q) by {
                    let x = choose|x: int| 0 <= x < s@.len() && s@[x]@ == q;
                    if x < i {
                        assert(pre[x]@ == q);
                        assert(q != k@) by {
                            if q == k@ {
                                assert(pre[x]@ != pre[i as int]@);
                            }
                        }
                    } else {
                        assert(pre[x + 1]@ == q);
                        assert(q != k@) by {
                            if q == k@ {
                                assert(pre[i as int]@ != pre[x + 1]@);
                            }
                        }
                    }
                }
                assert forall|q: Seq<u8>| wipe_set(pre).remove(k@).contains(q) implies wipe_set(
                    s@,
                ).contains(q) by {
                    let x = choose|x: int| 0 <= x < pre.len() && pre[x]@ == q;
                    assert(x != i);
                    if x < i {
                        assert(s@[x]@ == q);
                    } else {
                        assert(s@[x - 1]@ == q);
                    }
                }
                assert(wipe_set(s@) =~= wipe_set(pre).remove(k@));
                assert forall|x: int, y: int| 0 <= x < y < s@.len() implies s@[x]@ != s@[y]@ by {
                    let px: int = if x < i { x } else { x + 1 };
                    let py: int = if y < i { y } else { y + 1 };
                    assert(s@[x] == pre[px]);
                    assert(s@[y] == pre[py]);
                }
            }
            return ;
        }
        i = i + 1;
    }
    proof {
        assert(!wipe_set(pre).contains(k@)) by {
            if wipe_set(pre).contains(k@) {
                let j = choose|j: int| 0 <= j < pre.len() && pre[j]@ == k@;
                assert(pre[j]@ != k@);
            }
        }
        assert(wipe_set(s@) =~= wipe_set(pre).remove(k@));
    }
}

/// The in-memory store: one association vector per map, plus the identities
/// marked for remote wipe.
pub struct MemoryStorage {
    pub locations: Vec<(Vec<u8>, Vec<LocationInsertion>)>,
    pub intros: Vec<(Vec<u8>, Introduction)>,
    pub tokens_by_secret: Vec<(Vec<u8>, Vec<Vec<u8>>)>,
    pub tokens: Vec<(Vec<u8>, TokenEntry)>,
    pub wipe_pending: Vec<Vec<u8>>,
}

impl MemoryStorage {
    /// An empty store.
    pub fn new() -> (s: Self)
        ensures
            s.inv(),
            s.model() == (StoreModel {
                locations: Map::empty(),
                intros: Map::empty(),
                tokens_by_secret: Map::empty(),
                tokens: Map::empty(),
                wipe_pending: Set::empty(),
            }),
    {
        let s = MemoryStorage {
            locations: Vec::new(),
            intros: Vec::new(),
            tokens_by_secret: Vec::new(),
            tokens: Vec::new(),
            wipe_pending: Vec::new(),
        };
        proof {
            assert(wipe_set(s.wipe_pending@) =~= Set::empty());
        }
        s
    }
}

impl Storage for MemoryStorage {
    open spec fn model(&self) -> StoreModel {
        StoreModel {
            locations: assoc_view(self.locations@),
            intros: assoc_view(self.intros@),
            tokens_by_secret: assoc_view(self.tokens_by_secret@),
            tokens: assoc_view(self.tokens@),
            wipe_pending: wipe_set(self.wipe_pending@),
        }
    }

    open spec fn reliable(&self) -> bool {
        true
    }

    open spec fn inv(&self) -> bool {
        &&& keys_unique(self.locations@)
        &&& keys_unique(self.intros@)
        &&& keys_unique(self.tokens_by_secret@)
        &&& keys_unique(self.tokens@)
        &&& wipe_unique(self.wipe_pending@)
    }

    fn get_token_info(&self, token: &Token) -> (r: Result<Option<TokenEntry>, StorageError>)
        ensures
            r is Ok,
    {
        match assoc_find(&self.tokens, token) {
            Some(i) => {
                proof {
                    lemma_assoc_view_at(self.tokens@, i as int);
                }
                Ok(Some(self.tokens[i].1.duplicate()))
            },
            None => {
                proof {
                    lemma_assoc_view_dom::<TokenEntry>(self.tokens@);
                }
                Ok(None)
            },
        }
    }

    fn write_location(&mut self, secret_key: &SecretKey, arg: &LocationInsertion) -> (r: Result<
        WriteOutcome,
        StorageError,
    >)
        ensures
            r is Ok,
    {
        if wipe_contains(&self.wipe_pending, secret_key) {
            wipe_remove(&mut self.wipe_pending, secret_key);
            proof {
                assert(self.model() =~= write_location_spec(
                    old(self).model(),
                    secret_key@,
                    arg.deep_view(),
                ));
            }
            return Ok(WriteOutcome::WipePending);
        }
        let rec = arg.duplicate();
        match assoc_remove(&mut self.locations, secret_key) {
            Some(p) => {
                let (_, mut hist) = p;
                let ghost pre = hist.deep_view();
                hist.push(rec);
                proof {
                    assert forall|j: int| 0 <= j < hist.deep_view().len() implies hist.deep_view()[j]
                        == pre.push(arg.deep_view())[j] by {
                        if j < pre.len() {
                            assert(hist@[j].deep_view() == pre[j]);
                        }
                    }
                    assert(hist.deep_view() =~= pre.push(arg.deep_view()));
                }
                let ghost mid = self.locations@;
                assoc_put(&mut self.locations, secret_key, hist);
                proof {
                    assert(assoc_view(old(self).locations@).remove(secret_key@).insert(
                        secret_key@,
                        pre.push(arg.deep_view()),
                    ) =~= assoc_view(old(self).locations@).insert(
                        secret_key@,
                        pre.push(arg.deep_view()),
                    ));
                    assert(self.model() =~= write_location_spec(
                        old(self).model(),
                        secret_key@,
                        arg.deep_view(),
                    ));
                }
            },
            None => {
                let mut hist: Vec<LocationInsertion> = Vec::new();
                hist.push(rec);
                proof {
                    assert(hist.deep_view() =~= Seq::empty().push(arg.deep_view()));
                }
                assoc_put(&mut self.locations, secret_key, hist);
                proof {
                    assert(self.model() =~= write_location_spec(
                        old(self).model(),
                        secret_key@,
                        arg.deep_view(),
                    ));
                }
            },
        }
        Ok(WriteOutcome::Recorded)
    }

    fn write_intro(&mut self, arg: &IntroInsertion, now: Timestamp) -> (r: Result<
        (),
        StorageError,
    >)
        ensures
            r is Ok,
    {
        let intro = Introduction {
            remote_addr: match &arg.remote_addr {
                Some(a) => Some(a.clone()),
                None => None,
            },
            registration_key: clone_bytes(&arg.arg.registration_key),
            remote_wipe_enabled: arg.arg.remote_wipe_enabled,
            can_read_nearby_devices: arg.arg.can_read_nearby_devices,
        };
        proof {
            assert(intro.deep_view() == arg.intro_view());
        }
        assoc_put(&mut self.intros, arg.secret_key, intro);
        let entry = TokenEntry {
            secret_key: clone_bytes(arg.secret_key),
            permissions: Permissions {
                list_tokens: false,
                write_locations: true,
                read_locations: true,
                nearby: arg.arg.can_read_nearby_devices,
                stats: false,
                wipe: arg.arg.remote_wipe_enabled,
            },
            not_before: now,
            not_after: None,
        };
        proof {
            assert(entry.deep_view() == intro_entry(arg.secret_key@, arg.intro_view(), now));
        }
        assoc_put(&mut self.tokens, arg.token, entry);
        let tk = clone_bytes(arg.token);
        proof {
            assert(tk.deep_view() =~= arg.token@);
        }
        match assoc_remove(&mut self.tokens_by_secret, arg.secret_key) {
            Some(p) => {
                let (_, mut list) = p;
                let ghost pre = list.deep_view();
                list.push(tk);
                proof {
                    assert forall|j: int| 0 <= j < list.deep_view().len() implies list.deep_view()[j]
                        == pre.push(arg.token@)[j] by {
                        if j < pre.len() {
                            assert(list@[j].deep_view() == pre[j]);
                        }
                    }
                    assert(list.deep_view() =~= pre.push(arg.token@));
                }
                assoc_put(&mut self.tokens_by_secret, arg.secret_key, list);
                proof {
                    assert(assoc_view(old(self).tokens_by_secret@).remove(
                        arg.secret_key@,
                    ).insert(arg.secret_key@, pre.push(arg.token@)) =~= assoc_view(
                        old(self).tokens_by_secret@,
                    ).insert(arg.secret_key@, pre.push(arg.token@)));
                }
            },
            None => {
                let mut list: Vec<Vec<u8>> = Vec::new();
                list.push(tk);
                proof {
                    assert(list.deep_view() =~= Seq::empty().push(arg.token@));
                }
                assoc_put(&mut self.tokens_by_secret, arg.secret_key, list);
            },
        }
        proof {
            assert(self.model() =~= write_intro_spec(
                old(self).model(),
                arg.secret_key@,
                arg.token@,
                arg.intro_view(),
                now,
            ));
        }
        Ok(())
    }

    fn write_token(&mut self, token: &Token, arg: &TokenEntry) -> (r: Result<(), StorageError>)
        ensures
            r is Ok,
    {
        let entry = arg.duplicate();
        assoc_put(&mut self.tokens, token, entry);
        let tk = clone_bytes(token);
        proof {
            assert(tk.deep_view() =~= token@);
        }
        match assoc_remove(&mut self.tokens_by_secret, &arg.secret_key) {
            Some(p) => {
                let (_, mut list) = p;
                let ghost pre = list.deep_view();
                list.push(tk);
                proof {
                    assert forall|j: int| 0 <= j < list.deep_view().len() implies list.deep_view()[j]
                        == pre.push(token@)[j] by {
                        if j < pre.len() {
                            assert(list@[j].deep_view() == pre[j]);
                        }
                    }
                    assert(list.deep_view() =~= pre.push(token@));
                }
                assoc_put(&mut self.tokens_by_secret, &arg.secret_key, list);
                proof {
                    assert(assoc_view(old(self).tokens_by_secret@).remove(
                        arg.secret_key@,
                    ).insert(arg.secret_key@, pre.push(token@)) =~= assoc_view(
                        old(self).tokens_by_secret@,
                    ).insert(arg.secret_key@, pre.push(token@)));
                }
            },
            None => {
                let mut list: Vec<Vec<u8>> = Vec::new();
                list.push(tk);
                proof {
                    assert(list.deep_view() =~= Seq::empty().push(token@));
                }
                assoc_put(&mut self.tokens_by_secret, &arg.secret_key, list);
            },
        }
        proof {
            assert(self.model() =~= write_token_spec(old(self).model(), token@, arg.deep_view()));
        }
        Ok(())
    }

    fn revoke_token(&mut self, arg: &RevokeTokenArg) -> (r: Result<(), StorageError>)
        ensures
            r is Ok,
    {
        match assoc_remove(&mut self.tokens, &arg.revoke) {
            None => {
                proof {
                    assert(self.model() =~= revoke_token_spec(old(self).model(), arg.revoke@));
                }
                Ok(())
            },
            Some(p) => {
                let (_, entry) = p;
                match assoc_remove(&mut self.tokens_by_secret, &entry.secret_key) {
                    Some(q) => {
                        let (_, list) = q;
                        let ghost ts = list.deep_view();
                        let mut out: Vec<Vec<u8>> = Vec::new();
                        let mut i: usize = 0;
                        while i < list.len()
                            invariant
                                i <= list@.len(),
                                ts == list.deep_view(),
                                ts.len() == list@.len(),
                                out.deep_view() =~= without_token(ts.take(i as int), arg.revoke@),
                            decreases list@.len() - i,
                        {
                            proof {
                                assert(ts.take(i + 1).drop_last() =~= ts.take(i as int));
                                assert(ts.take(i + 1).last() == ts[i as int]);
                                assert(list@[i as int].deep_view() =~= list@[i as int]@);
                            }
                            if !eq_bytes(&list[i], &arg.revoke) {
                                let ghost pre = out.deep_view();
                                out.push(clone_bytes(&list[i]));
                                proof {
                                    assert forall|j: int|
                                        0 <= j < out.deep_view().len() implies out.deep_view()[j]
                                        == pre.push(ts[i as int])[j] by {
                                        if j < pre.len() {
                                            assert(out@[j].deep_view() == pre[j]);
                                        } else {
                                            assert(out@[j].deep_view() =~= ts[i as int]);
                                        }
                                    }
                                    assert(out.deep_view() =~= pre.push(ts[i as int]));
                                }
                            }
                            i = i + 1;
                        }
                        proof {
                            assert(ts.take(list@.len() as int) =~= ts);
                        }
                        assoc_put(&mut self.tokens_by_secret, &entry.secret_key, out);
                        proof {
                            assert(assoc_view(old(self).tokens_by_secret@).remove(
                                entry.secret_key@,
                            ).insert(entry.secret_key@, without_token(ts, arg.revoke@))
                                =~= assoc_view(old(self).tokens_by_secret@).insert(
                                entry.secret_key@,
                                without_token(ts, arg.revoke@),
                            ));
                            assert(self.model() =~= revoke_token_spec(
                                old(self).model(),
                                arg.revoke@,
                            ));
                        }
                        Ok(())
                    },
                    None => {
                        let out: Vec<Vec<u8>> = Vec::new();
                        proof {
                            assert(out.deep_view() =~= without_token(
                                Seq::<Seq<u8>>::empty(),
                                arg.revoke@,
                            ));
                        }
                        assoc_put(&mut self.tokens_by_secret, &entry.secret_key, out);
                        proof {
                            assert(self.model() =~= revoke_token_spec(
                                old(self).model(),
                                arg.revoke@,
                            ));
                        }
                        Ok(())
                    },
                }
            },
        }
    }

    fn list_tokens(&self, secret_key: &SecretKey) -> (r: Result<Vec<TokenEntry>, StorageError>)
        ensures
            r is Ok,
    {
        let mut out: Vec<TokenEntry> = Vec::new();
        match assoc_find(&self.tokens_by_secret, secret_key) {
            None => {
                proof {
                    lemma_assoc_view_dom::<Vec<Vec<u8>>>(self.tokens_by_secret@);
                    assert(out.deep_view() =~= list_tokens_spec(self.model(), secret_key@));
                }
                Ok(out)
            },
            Some(i) => {
                proof {
                    lemma_assoc_view_at(self.tokens_by_secret@, i as int);
                }
                let list = &self.tokens_by_secret[i].1;
                let ghost ts = list.deep_view();
                let mut j: usize = 0;
                while j < list.len()
                    invariant
                        j <= list@.len(),
                        ts == list.deep_view(),
                        ts.len() == list@.len(),
                        keys_unique(self.tokens@),
                        out.deep_view() =~= entries_of(
                            assoc_view(self.tokens@),
                            ts.take(j as int),
                        ),
                    decreases list@.len() - j,
                {
                    proof {
                        assert(ts.take(j + 1).drop_last() =~= ts.take(j as int));
                        assert(ts.take(j + 1).last() == ts[j as int]);
                        assert(list@[j as int].deep_view() =~= list@[j as int]@);
                    }
                    match assoc_find(&self.tokens, &list[j]) {
                        Some(x) => {
                            proof {
                                lemma_assoc_view_at(self.tokens@, x as int);
                            }
                            let ghost pre = out.deep_view();
                            out.push(self.tokens[x].1.duplicate());
                            proof {
                                let ghost e = assoc_view(self.tokens@)[ts[j as int]];
                                assert forall|y: int|
                                    0 <= y < out.deep_view().len() implies out.deep_view()[y]
                                    == pre.push(e)[y] by {
                                    if y < pre.len() {
                                        assert(out@[y].deep_view() == pre[y]);
                                    }
                                }
                                assert(out.deep_view() =~= pre.push(e));
                            }
                        },
                        None => {
                            proof {
                                lemma_assoc_view_dom::<TokenEntry>(self.tokens@);
                            }
                        },
                    }
                    j = j + 1;
                }
                proof {
                    assert(ts.take(list@.len() as int) =~= ts);
                }
                Ok(out)
            },
        }
    }

    fn purge_location(&mut self, secret_key: &SecretKey) -> (r: Result<(), StorageError>)
        ensures
            r is Ok,
    {
        match assoc_remove(&mut self.locations, secret_key) {
            Some(_) => {
                proof {
                    assert(self.model() =~= purge_location_spec(old(self).model(), secret_key@));
                }
            },
            None => {
                proof {
                    assert(assoc_view(self.locations@) =~= assoc_view(self.locations@).remove(
                        secret_key@,
                    ));
                    assert(self.model() =~= purge_location_spec(old(self).model(), secret_key@));
                }
            },
        }
        Ok(())
    }

    fn excommunicate(&mut self, secret_key: &SecretKey) -> (r: Result<(), StorageError>)
        ensures
            r is Ok,
    {
        wipe_insert(&mut self.wipe_pending, secret_key);
        let ghost wp = self.wipe_pending@;
        let ghost pre = self.tokens@;
        let mut i: usize = 0;
        while i < self.tokens.len()
            invariant
                i <= self.tokens@.len(),
                self.tokens@.len() == pre.len(),
                keys_unique(pre),
                forall|j: int| 0 <= j < pre.len() ==> self.tokens@[j].0@ == pre[j].0@,
                forall|j: int|
                    0 <= j < i ==> self.tokens@[j].1.deep_view() == (if pre[j].1.deep_view().secret_key
                        == secret_key@ {
                        TokenEntryV {
                            permissions: Permissions::spec_wipe_only(),
                            ..pre[j].1.deep_view()
                        }
                    } else {
                        pre[j].1.deep_view()
                    }),
                forall|j: int| i <= j < pre.len() ==> self.tokens@[j] == pre[j],
                self.locations@ == old(self).locations@,
                self.intros@ == old(self).intros@,
                self.tokens_by_secret@ == old(self).tokens_by_secret@,
                self.wipe_pending@ == wp,
                wipe_set(wp) == wipe_set(old(self).wipe_pending@).insert(secret_key@),
                wipe_unique(wp),
            decreases pre.len() - i,
        {
            if eq_bytes(&self.tokens[i].1.secret_key, secret_key) {
                let new_key = clone_bytes(&self.tokens[i].0);
                let mut e = self.tokens[i].1.duplicate();
                e.permissions = Permissions::wipe_only();
                self.tokens.set(i, (new_key, e));
            }
            i = i + 1;
        }
        proof {
            assert(keys_unique(self.tokens@));
            lemma_assoc_view_dom::<TokenEntry>(pre);
            lemma_assoc_view_dom::<TokenEntry>(self.tokens@);
            let m0 = assoc_view(pre);
            let m1 = assoc_view(self.tokens@);
            let dm = downgrade_tokens(m0, secret_key@);
            assert forall|k: Seq<u8>| #[trigger] m1.dom().contains(k) implies dm.dom().contains(
                k,
            ) && m1[k] == dm[k] by {
                let j = choose|j: int| 0 <= j < self.tokens@.len() && self.tokens@[j].0@ == k;
                assert(pre[j].0@ == k);
                lemma_assoc_view_at(pre, j);
                lemma_assoc_view_at(self.tokens@, j);
            }
            assert forall|k: Seq<u8>| #[trigger] dm.dom().contains(k) implies m1.dom().contains(
                k,
            ) by {
                let j = choose|j: int| 0 <= j < pre.len() && pre[j].0@ == k;
                assert(self.tokens@[j].0@ == k);
            }
            assert(m1 =~= dm);
            assert(self.model() =~= excommunicate_spec(old(self).model(), secret_key@));
        }
        Ok(())
    }

    fn is_wipe_pending(&self, secret_key: &SecretKey) -> (r: Result<bool, StorageError>)
        ensures
            r is Ok,
    {
        Ok(wipe_contains(&self.wipe_pending, secret_key))
    }

    fn list_locations(&self, secret_key: &SecretKey, filter: &LocationsFilter) -> (r: Result<
        ListLocationsResult,
        StorageError,
    >)
        ensures
            r is Ok,
    {
        let mut out: Vec<LocationSnapshot> = Vec::new();
        match assoc_find(&self.locations, secret_key) {
            None => {
                proof {
                    lemma_assoc_view_dom::<Vec<LocationInsertion>>(self.locations@);
                    assert(out.deep_view() =~= list_locations_spec(
                        self.model(),
                        secret_key@,
                        filter.since,
                        filter.until,
                        filter.limit as nat,
                    ));
                }
                Ok(ListLocationsResult { locations: out })
            },
            Some(i) => {
                proof {
                    lemma_assoc_view_at(self.locations@, i as int);
                }
                let h = &self.locations[i].1;
                let ghost hist = h.deep_view();
                let limit = filter.limit as usize;
                let mut j: usize = 0;
                proof {
                    assert(hist.skip(0) =~= hist);
                    assert(out.deep_view() + select_locations(
                        hist,
                        filter.since,
                        filter.until,
                        limit as nat,
                    ) =~= select_locations(hist, filter.since, filter.until, limit as nat));
                }
                while j < h.len()
                    invariant
                        j <= h@.len(),
                        hist == h.deep_view(),
                        hist.len() == h@.len(),
                        out@.len() <= limit,
                        limit == filter.limit as usize,
                        out.deep_view() + select_locations(
                            hist.skip(j as int),
                            filter.since,
                            filter.until,
                            (limit - out@.len()) as nat,
                        ) =~= select_locations(hist, filter.since, filter.until, limit as nat),
                    decreases h@.len() - j,
                {
                    let ghost rem = (limit - out@.len()) as nat;
                    proof {
                        assert(hist.skip(j as int).len() == hist.len() - j);
                        assert(hist.skip(j as int)[0] == hist[j as int]);
                        assert(hist.skip(j as int).drop_first() =~= hist.skip(j + 1));
                        assert(hist[j as int] == h@[j as int].deep_view());
                    }
                    let rec = &h[j];
                    let keep = out.len() < limit && crate::storage::matches_filter_exec(
                        rec.update_time,
                        filter.since,
                        filter.until,
                    );
                    if keep {
                        let ghost pre = out.deep_view();
                        out.push(snapshot_of_record(rec));
                        proof {
                            assert forall|y: int|
                                0 <= y < out.deep_view().len() implies out.deep_view()[y]
                                == pre.push(snapshot_of(hist[j as int]))[y] by {
                                if y < pre.len() {
                                    assert(out@[y].deep_view() == pre[y]);
                                }
                            }
                            assert(out.deep_view() =~= pre.push(snapshot_of(hist[j as int])));
                            assert(select_locations(
                                hist.skip(j as int),
                                filter.since,
                                filter.until,
                                rem,
                            ) == seq![snapshot_of(hist[j as int])] + select_locations(
                                hist.skip(j + 1),
                                filter.since,
                                filter.until,
                                (rem - 1) as nat,
                            ));
                            assert(pre.push(snapshot_of(hist[j as int])) =~= pre + seq![
                                snapshot_of(hist[j as int]),
                            ]);
                            assert((pre + seq![snapshot_of(hist[j as int])]) + select_locations(
                                hist.skip(j + 1),
                                filter.since,
                                filter.until,
                                (rem - 1) as nat,
                            ) =~= pre + (seq![snapshot_of(hist[j as int])] + select_locations(
                                hist.skip(j + 1),
                                filter.since,
                                filter.until,
                                (rem - 1) as nat,
                            )));
                        }
                    } else {
                        proof {
                            if out@.len() == limit {
                                assert(rem == 0);
                                assert(select_locations(
                                    hist.skip(j as int),
                                    filter.since,
                                    filter.until,
                                    0,
                                ) =~= Seq::empty());
                                assert(select_locations(
                                    hist.skip(j + 1),
                                    filter.since,
                                    filter.until,
                                    0,
                                ) =~= Seq::empty());
                            } else {
                                assert(!matches_filter(
                                    hist[j as int].update_time,
                                    filter.since,
                                    filter.until,
                                ));
                                assert(select_locations(
                                    hist.skip(j as int),
                                    filter.since,
                                    filter.until,
                                    rem,
                                ) == select_locations(
                                    hist.skip(j + 1),
                                    filter.since,
                                    filter.until,
                                    rem,
                                ));
                            }
                        }
                    }
                    j = j + 1;
                }
                proof {
                    assert(hist.skip(h@.len() as int) =~= Seq::<
                        crate::storage::LocationRecordV,
                    >::empty());
                    assert(select_locations(
                        hist.skip(h@.len() as int),
                        filter.since,
                        filter.until,
                        (limit - out@.len()) as nat,
                    ) =~= Seq::empty());
                    assert(out.deep_view() + Seq::empty() =~= out.deep_view());
                    assert(out.deep_view() =~= list_locations_spec(
                        self.model(),
                        secret_key@,
                        filter.since,
                        filter.until,
                        filter.limit as nat,
                    ));
                }
                Ok(ListLocationsResult { locations: out })
            },
        }
    }

    fn get_storage_info(&self, secret_key: &SecretKey) -> (r: Result<
        GetStorageInfoResult,
        StorageError,
    >)
        ensures
            r is Ok,
    {
        match assoc_find(&self.locations, secret_key) {
            None => {
                proof {
                    lemma_assoc_view_dom::<Vec<LocationInsertion>>(self.locations@);
                    assert(update_times(history_of(self.model(), secret_key@)) =~= Seq::<
                        Timestamp,
                    >::empty());
                }
                Ok(
                    GetStorageInfoResult {
                        locations_count: 0,
                        since: None,
                        locations_limit: LOCATIONS_LIMIT,
                        bytes_storage_consumed: 0,
                        bytes_storage_limit: 0,
                    },
                )
            },
            Some(i) => {
                proof {
                    lemma_assoc_view_at(self.locations@, i as int);
                }
                let h = &self.locations[i].1;
                let ghost times = update_times(h.deep_view());
                let mut earliest: Option<Timestamp> = None;
                let mut j: usize = 0;
                while j < h.len()
                    invariant
                        j <= h@.len(),
                        times == update_times(h.deep_view()),
                        times.len() == h@.len(),
                        earliest == earliest_of(times.take(j as int)),
                    decreases h@.len() - j,
                {
                    proof {
                        assert(times[j as int] == h@[j as int].deep_view().update_time);
                        assert(times.take(j + 1).drop_last() =~= times.take(j as int));
                        assert(times.take(j + 1).last() == times[j as int]);
                    }
                    let t = h[j].update_time;
                    earliest = match earliest {
                        None => Some(t),
                        Some(e) => if t.seconds < e.seconds {
                            Some(t)
                        } else {
                            Some(e)
                        },
                    };
                    j = j + 1;
                }
                proof {
                    assert(times.take(h@.len() as int) =~= times);
                }
                Ok(
                    GetStorageInfoResult {
                        locations_count: h.len() as u64,
                        since: earliest,
                        locations_limit: LOCATIONS_LIMIT,
                        bytes_storage_consumed: 0,
                        bytes_storage_limit: 0,
                    },
                )
            },
        }
    }
}

} // verus!
