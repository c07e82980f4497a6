//! Laws of the storage model: what the store's operations, as specified on
//! the `Storage` trait, guarantee in combination. Each law is stated over the
//! same spec functions the trait's contracts use.

use vstd::prelude::*;
use crate::storage::{
    LocationRecordV,
    StoreModel,
    TokenEntryV,
    append_location_spec,
    entries_of,
    history_of,
    list_locations_spec,
    list_tokens_spec,
    matches_filter,
    resolve_spec,
    resolve_valid_spec,
    revoke_token_spec,
    select_locations,
    snapshot_of,
    tokens_of,
    update_times,
    without_token,
};
use crate::time::{Timestamp, earliest_of, lemma_earliest_unique_min};

verus! {

/// With no time bounds and a limit at least the history's length, a listing
/// returns the snapshot of every stored report, in storage order.
pub proof fn lemma_select_all(s: Seq<LocationRecordV>, limit: nat)
    requires
        limit >= s.len(),
    ensures
        select_locations(s, None, None, limit) == s.map_values(
            |x: LocationRecordV| snapshot_of(x),
        ),
    decreases s.len(),
{
    let snaps = s.map_values(|x: LocationRecordV| snapshot_of(x));
    if s.len() == 0 {
        assert(select_locations(s, None, None, limit) =~= snaps);
    } else {
        lemma_select_all(s.drop_first(), (limit - 1) as nat);
        assert(matches_filter(s[0].update_time, None, None));
        assert(select_locations(s, None, None, limit) == seq![snapshot_of(s[0])]
            + s.drop_first().map_values(|x: LocationRecordV| snapshot_of(x)));
        assert forall|i: int| 0 <= i < snaps.len() implies (seq![snapshot_of(s[0])]
            + s.drop_first().map_values(|x: LocationRecordV| snapshot_of(x)))[i] == snaps[i] by {
            if i > 0 {
                assert(s.drop_first()[i - 1] == s[i]);
            }
        }
        assert(seq![snapshot_of(s[0])] + s.drop_first().map_values(
            |x: LocationRecordV| snapshot_of(x),
        ) =~= snaps);
    }
}

/// Appending one report and then listing with no bounds and a large enough
/// limit yields exactly the old listing with the new report's snapshot in the
/// appended (last) position; when no stored report looks like the new one,
/// the new snapshot appears nowhere else.
pub proof fn lemma_append_then_list(m: StoreModel, k: Seq<u8>, r: LocationRecordV, limit: u32)
    requires
        history_of(m, k).len() + 1 <= limit as nat,
    ensures
        ({
            let after = list_locations_spec(
                append_location_spec(m, k, r),
                k,
                None,
                None,
                limit as nat,
            );
            &&& after == list_locations_spec(m, k, None, None, limit as nat).push(snapshot_of(r))
            &&& after.len() == history_of(m, k).len() + 1
            &&& after.last() == snapshot_of(r)
            &&& (forall|i: int|
                0 <= i < history_of(m, k).len() ==> snapshot_of(#[trigger] history_of(m, k)[i])
                    != snapshot_of(r)) ==> forall|i: int|
                0 <= i < after.len() - 1 ==> after[i] != snapshot_of(r)
        }),
{
    let h = history_of(m, k);
    let m2 = append_location_spec(m, k, r);
    assert(history_of(m2, k) == h.push(r));
    lemma_select_all(h, limit as nat);
    lemma_select_all(h.push(r), limit as nat);
    let snaps = h.map_values(|x: LocationRecordV| snapshot_of(x));
    let snaps2 = h.push(r).map_values(|x: LocationRecordV| snapshot_of(x));
    assert forall|i: int| 0 <= i < snaps2.len() implies snaps2[i] == snaps.push(snapshot_of(r))[i] by {
        if i < h.len() {
            assert(h.push(r)[i] == h[i]);
        }
    }
    assert(snaps2 =~= snaps.push(snapshot_of(r)));
}

/// A listing never exceeds the requested limit, and every returned snapshot's
/// receipt time lies inside the requested bounds.
pub proof fn lemma_list_locations_bounded(
    s: Seq<LocationRecordV>,
    since: Option<Timestamp>,
    until: Option<Timestamp>,
    limit: nat,
)
    ensures
        select_locations(s, since, until, limit).len() <= limit,
        forall|i: int|
            0 <= i < select_locations(s, since, until, limit).len() ==> matches_filter(
                (#[trigger] select_locations(s, since, until, limit)[i]).update_time,
                since,
                until,
            ),
    decreases s.len(),
{
    let out = select_locations(s, since, until, limit);
    if s.len() == 0 || limit == 0 {
    } else if matches_filter(s[0].update_time, since, until) {
        lemma_list_locations_bounded(s.drop_first(), since, until, (limit - 1) as nat);
        let rest = select_locations(s.drop_first(), since, until, (limit - 1) as nat);
        assert forall|i: int| 0 <= i < out.len() implies matches_filter(
            (#[trigger] out[i]).update_time,
            since,
            until,
        ) by {
            if i > 0 {
                assert(out[i] == rest[i - 1]);
            } else {
                assert(out[0] == snapshot_of(s[0]));
            }
        }
    } else {
        lemma_list_locations_bounded(s.drop_first(), since, until, limit);
    }
}

/// A listing of an identity's history never exceeds the requested limit, and
/// every returned snapshot's receipt time lies inside the requested bounds.
pub proof fn lemma_list_locations_within_limit(
    m: StoreModel,
    k: Seq<u8>,
    since: Option<Timestamp>,
    until: Option<Timestamp>,
    limit: nat,
)
    ensures
        list_locations_spec(m, k, since, until, limit).len() <= limit,
        forall|i: int|
            0 <= i < list_locations_spec(m, k, since, until, limit).len() ==> matches_filter(
                (#[trigger] list_locations_spec(m, k, since, until, limit)[i]).update_time,
                since,
                until,
            ),
{
    lemma_list_locations_bounded(history_of(m, k), since, until, limit);
}

/// A token that was never issued, or was issued and then revoked, resolves to
/// nothing at any instant; the service therefore refuses it before any store
/// mutation (each operation's contract keeps the model unchanged on an
/// authentication failure).
pub proof fn lemma_dead_token_resolves_nothing(m: StoreModel, t: Seq<u8>, now: Timestamp)
    ensures
        !m.tokens.dom().contains(t) ==> resolve_valid_spec(m, t, now) is None,
        resolve_spec(revoke_token_spec(m, t), t) is None,
        resolve_valid_spec(revoke_token_spec(m, t), t, now) is None,
{
    let m2 = revoke_token_spec(m, t);
    match resolve_spec(m, t) {
        None => {
            assert(!m2.tokens.dom().contains(t));
        },
        Some(_) => {
            assert(!m2.tokens.dom().contains(t));
        },
    }
}

/// An identity with no stored reports has no earliest receipt time; its
/// report count is zero by the stats contract itself.
pub proof fn lemma_stats_empty(m: StoreModel, k: Seq<u8>)
    requires
        history_of(m, k).len() == 0,
    ensures
        earliest_of(update_times(history_of(m, k))) is None,
{
    assert(update_times(history_of(m, k)).len() == 0);
}

/// When one stored report's receipt time lies strictly below every other's
/// (by whole seconds), the earliest receipt time is that report's, wherever
/// in the history it stands — the order reports arrived in cannot change it.
pub proof fn lemma_stats_earliest_order_free(m: StoreModel, k: Seq<u8>, i: int)
    requires
        0 <= i < history_of(m, k).len(),
        forall|j: int|
            0 <= j < history_of(m, k).len() && j != i ==> history_of(
                m,
                k,
            )[i].update_time.seconds < (#[trigger] history_of(m, k)[j]).update_time.seconds,
    ensures
        earliest_of(update_times(history_of(m, k))) == Some(history_of(m, k)[i].update_time),
{
    let h = history_of(m, k);
    let times = update_times(h);
    assert forall|j: int| 0 <= j < times.len() && j != i implies times[i].seconds < (
    #[trigger] times[j]).seconds by {
        assert(times[j] == h[j].update_time);
    }
    lemma_earliest_unique_min(times, i);
}

/// Removing one token from a token list drops exactly that token's
/// membership: the removed token is gone, every other stays.
pub proof fn lemma_without_token_membership(ts: Seq<Seq<u8>>, tk: Seq<u8>)
    ensures
        forall|b: Seq<u8>| #[trigger] without_token(ts, tk).contains(b) <==> ts.contains(b) && b
            != tk,
    decreases ts.len(),
{
    broadcast use vstd::seq_lib::lemma_seq_contains_after_push;

    if ts.len() == 0 {
        assert forall|b: Seq<u8>| !(#[trigger] without_token(ts, tk).contains(b)) by {
            if without_token(ts, tk).contains(b) {
                let i = choose|i: int|
                    0 <= i < without_token(ts, tk).len() && without_token(ts, tk)[i] == b;
            }
        }
        assert forall|b: Seq<u8>| !(#[trigger] ts.contains(b)) by {
            if ts.contains(b) {
                let i = choose|i: int| 0 <= i < ts.len() && ts[i] == b;
            }
        }
    } else {
        lemma_without_token_membership(ts.drop_last(), tk);
        assert(ts.drop_last().push(ts.last()) =~= ts);
        assert forall|b: Seq<u8>| #[trigger] without_token(ts, tk).contains(b) <==> ts.contains(b)
            && b != tk by {
            assert(ts.contains(b) <==> (ts.last() == b || ts.drop_last().contains(b))) by {
                assert(ts.drop_last().push(ts.last()).contains(b) <==> (ts.last() == b
                    || ts.drop_last().contains(b)));
            }
            assert(without_token(ts.drop_last(), tk).contains(b) <==> ts.drop_last().contains(b)
                && b != tk);
            if ts.last() == tk {
                assert(without_token(ts, tk) == without_token(ts.drop_last(), tk));
            } else {
                assert(without_token(ts, tk) == without_token(ts.drop_last(), tk).push(ts.last()));
                assert(without_token(ts, tk).contains(b) <==> (ts.last() == b || without_token(
                    ts.drop_last(),
                    tk,
                ).contains(b)));
            }
        }
    }
}

/// A token that stands in the given list and resolves in the given map has
/// its entry among the listed entries.
pub proof fn lemma_entries_of_contains(
    tokens: Map<Seq<u8>, TokenEntryV>,
    ts: Seq<Seq<u8>>,
    t: Seq<u8>,
)
    requires
        ts.contains(t),
        tokens.dom().contains(t),
    ensures
        entries_of(tokens, ts).contains(tokens[t]),
    decreases ts.len(),
{
    broadcast use vstd::seq_lib::lemma_seq_contains_after_push;

    if ts.last() == t {
        assert(entries_of(tokens, ts) == entries_of(tokens, ts.drop_last()).push(tokens[t]));
    } else {
        let i = choose|i: int| 0 <= i < ts.len() && ts[i] == t;
        assert(ts.drop_last()[i] == t);
        assert(ts.drop_last().contains(t));
        lemma_entries_of_contains(tokens, ts.drop_last(), t);
    }
}

/// Revoking one token leaves every other token resolving exactly as before,
/// keeps every other token's membership in every identity's token list, and
/// leaves all stored location history intact; the surviving token's entry is
/// still among its identity's listed entries.
pub proof fn lemma_revoke_leaves_others(m: StoreModel, a: Seq<u8>, b: Seq<u8>, now: Timestamp)
    requires
        a != b,
    ensures
        resolve_spec(revoke_token_spec(m, a), b) == resolve_spec(m, b),
        resolve_valid_spec(revoke_token_spec(m, a), b, now) == resolve_valid_spec(m, b, now),
        revoke_token_spec(m, a).locations == m.locations,
        forall|k: Seq<u8>| #[trigger] tokens_of(revoke_token_spec(m, a), k).contains(b)
            <==> tokens_of(m, k).contains(b),
        resolve_spec(m, b) is Some && tokens_of(m, resolve_spec(m, b)->0.secret_key).contains(b)
            ==> list_tokens_spec(revoke_token_spec(m, a), resolve_spec(m, b)->0.secret_key).contains(
            m.tokens[b],
        ),
{
    let m2 = revoke_token_spec(m, a);
    match resolve_spec(m, a) {
        None => {
            if resolve_spec(m, b) is Some && tokens_of(m, resolve_spec(m, b)->0.secret_key).contains(
                b,
            ) {
                lemma_entries_of_contains(
                    m.tokens,
                    tokens_of(m, resolve_spec(m, b)->0.secret_key),
                    b,
                );
            }
        },
        Some(ea) => {
            lemma_without_token_membership(tokens_of(m, ea.secret_key), a);
            assert forall|k: Seq<u8>| #[trigger] tokens_of(m2, k).contains(b) <==> tokens_of(
                m,
                k,
            ).contains(b) by {
                if k == ea.secret_key {
                    assert(tokens_of(m2, k) == without_token(tokens_of(m, k), a));
                } else {
                    assert(tokens_of(m2, k) == tokens_of(m, k));
                }
            }
            if resolve_spec(m, b) is Some && tokens_of(m, resolve_spec(m, b)->0.secret_key).contains(
                b,
            ) {
                let skb = resolve_spec(m, b)->0.secret_key;
                assert(m2.tokens.dom().contains(b));
                assert(m2.tokens[b] == m.tokens[b]);
                assert(tokens_of(m2, skb).contains(b));
                lemma_entries_of_contains(m2.tokens, tokens_of(m2, skb), b);
            }
        },
    }
}

} // verus!
