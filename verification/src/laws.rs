//! What holds of the pool and the token service taken together.
//!
//! Each statement speaks of the same functions that the contracts of the
//! operations use: what an issue promises of a pair appears here as
//! `issue_outcome`, what a refresh promises as `refresh_outcome`, what a
//! check returns as `verdict`, what an aging pass does as `aging_pass`. A
//! caller who holds the results of the operations holds the premises.

use crate::claims::{
    expiry, lemma_kinds_differ, lemma_not_overridden, names, ClaimsView, TokenError, TokenKind,
    ACCESS_MINUTES, REFRESH_MINUTES,
};
use crate::keygen::is_key_text;
use crate::manager::PoolGuard;
use crate::pool::{
    aging_pass, is_stale, keep_fresh, keep_newest, lemma_filter_keeps_last,
    lemma_filter_keeps_order, lemma_newest_survives, lemma_place, lemma_rotated, lemma_survivors,
    rotation, without, KeyView, PoolView,
};
use crate::signing::{has_compact_form, opened_form, opens_as, DecodeFailure};
use crate::token::{
    first_live, is_live, issue_outcome, issued, kind_claims, opens_with_any, pair_opens,
    refresh_outcome, refresh_subject, refreshed, sealed_form, verdict, TokenPairView,
};
use vstd::prelude::*;

verus! {

/// Where no key before `at` opens the token to claims that are still good
/// and the key at `at` does, the claims of that key are the first.
pub proof fn lemma_first_live_found(
    token: Seq<char>,
    keys: Seq<Seq<char>>,
    now: int,
    from: int,
    at: int,
)
    requires
        0 <= from <= at < keys.len(),
        is_live(token, keys[at], now),
        forall|j: int| from <= j < at ==> !is_live(token, #[trigger] keys[j], now),
    ensures
        first_live(token, keys, now, from) == Some(opened_form(token, keys[at])->Ok_0),
    decreases at - from,
{
    if from < at {
        assert(!is_live(token, keys[from], now));
        lemma_first_live_found(token, keys, now, from + 1, at);
    }
}

/// Where no key from `from` on opens the token to claims that are still
/// good, there are no first such claims.
pub proof fn lemma_first_live_none(token: Seq<char>, keys: Seq<Seq<char>>, now: int, from: int)
    requires
        0 <= from,
        forall|j: int| from <= j < keys.len() ==> !is_live(token, #[trigger] keys[j], now),
    ensures
        first_live(token, keys, now, from) is None,
    decreases keys.len() - from,
{
    if from < keys.len() {
        assert(!is_live(token, keys[from], now));
        lemma_first_live_none(token, keys, now, from + 1);
    }
}

/// An aging pass leaves a pool that is well formed, and keeps the newest
/// key as the newest where it is not stale.
pub proof fn lemma_aging_keeps_newest(pool: PoolView, now: int, aged: PoolView)
    requires
        pool.wf(),
        pool.max_keys >= 1,
        aging_pass(pool, now, aged),
        !is_stale(pool.newest().created_at, now, pool.rotation_days),
    ensures
        aged.wf(),
        aged.keys == pool.survivors(now),
        aged.newest() == pool.newest(),
        aged.materials_newest_first().len() >= 1,
        aged.materials_newest_first()[0] == pool.newest().material,
{
    lemma_survivors(pool, now);
    lemma_newest_survives(pool, now);
}

/// A pair that was issued opens again with the key that signed it: each
/// token is in compact form, and the key opens it to the claims it was made
/// of. The service has opened both before it handed them out.
pub proof fn law_issued_pair_opens(
    pair: TokenPairView,
    identity: Seq<char>,
    extras: Seq<(Seq<char>, Seq<char>)>,
    now: int,
    created_at: Seq<char>,
    key: Seq<char>,
)
    requires
        issued(identity, extras, now, created_at, key) == Ok::<TokenPairView, TokenError>(pair),
    ensures
        pair_opens(pair, identity, extras, now, created_at, key),
{
}

/// The access token that a refresh returns opens with the newest key, to
/// access claims for the subject of the refresh token.
pub proof fn law_refreshed_token_opens(
    token: Seq<char>,
    keys: Seq<Seq<char>>,
    now: int,
    created_at: Seq<char>,
    access: Seq<char>,
)
    requires
        refreshed(token, keys, now, created_at) == Ok::<Seq<char>, TokenError>(access),
    ensures
        opens_as(
            access,
            keys[0],
            kind_claims(
                TokenKind::Access,
                refresh_subject(token, keys, now),
                Seq::empty(),
                now,
                created_at,
            ),
        ),
{
}

/// The key that signs is among the keys that are tried. What `current_key`
/// returned is not empty, and it is the first of what `all_valid_keys`
/// returns afterwards, for as long as it is not stale.
pub proof fn law_current_key_is_listed(aged: PoolView, later: int, again: PoolView)
    requires
        aged.wf(),
        aged.max_keys >= 1,
        aging_pass(aged, later, again),
        !is_stale(aged.newest().created_at, later, aged.rotation_days),
    ensures
        aged.newest().material.len() > 0,
        again.materials_newest_first().len() >= 1,
        again.materials_newest_first()[0] == aged.newest().material,
        again.materials_newest_first().contains(aged.newest().material),
{
    lemma_aging_keeps_newest(aged, later, again);
    assert(is_key_text(aged.keys[aged.keys.len() - 1].material));
}

/// Round trip. The access token of a pair that was issued at `now`, checked
/// as an access token at `later`, gives the claims it was made with, as long
/// as the key that signed it has not gone stale and the token has not
/// expired. Where the extra claims name no subject, the subject is the
/// identity that the pair was issued for.
pub proof fn law_round_trip(
    pool: PoolView,
    identity: Seq<char>,
    extras: Seq<(Seq<char>, Seq<char>)>,
    now: int,
    created_at: Seq<char>,
    pair: TokenPairView,
    later: int,
    aged: PoolView,
)
    requires
        pool.wf(),
        pool.max_keys >= 1,
        issue_outcome(
            pool,
            identity,
            extras,
            now,
            created_at,
            Ok::<TokenPairView, TokenError>(pair),
        ),
        aging_pass(pool, later, aged),
        !is_stale(pool.newest().created_at, later, pool.rotation_days),
        later <= expiry(now, ACCESS_MINUTES as int),
    ensures
        verdict(pair.access, aged.materials_newest_first(), TokenKind::Access, later) == Ok::<
            ClaimsView,
            TokenError,
        >(kind_claims(TokenKind::Access, identity, extras, now, created_at)),
        !names(extras, "sub"@) ==> kind_claims(
            TokenKind::Access,
            identity,
            extras,
            now,
            created_at,
        ).sub == identity,
{
    lemma_aging_keeps_newest(pool, later, aged);
    let keys = aged.materials_newest_first();
    lemma_first_live_found(pair.access, keys, later, 0, 0);
    if !names(extras, "sub"@) {
        lemma_not_overridden(identity, "sub"@, extras);
    }
}

/// Type separation. Of a pair that was issued, the refresh token does not
/// pass as an access token and the access token does not pass as a refresh
/// token: each is turned down as being of the wrong kind, for as long as it
/// would pass as what it is.
pub proof fn law_type_separation(
    pool: PoolView,
    identity: Seq<char>,
    extras: Seq<(Seq<char>, Seq<char>)>,
    now: int,
    created_at: Seq<char>,
    pair: TokenPairView,
    later: int,
    aged: PoolView,
)
    requires
        pool.wf(),
        pool.max_keys >= 1,
        issue_outcome(
            pool,
            identity,
            extras,
            now,
            created_at,
            Ok::<TokenPairView, TokenError>(pair),
        ),
        aging_pass(pool, later, aged),
        !is_stale(pool.newest().created_at, later, pool.rotation_days),
    ensures
        later <= expiry(now, REFRESH_MINUTES as int) ==> verdict(
            pair.refresh,
            aged.materials_newest_first(),
            TokenKind::Access,
            later,
        ) == Err::<ClaimsView, TokenError>(TokenError::WrongTokenType),
        later <= expiry(now, ACCESS_MINUTES as int) ==> verdict(
            pair.access,
            aged.materials_newest_first(),
            TokenKind::Refresh,
            later,
        ) == Err::<ClaimsView, TokenError>(TokenError::WrongTokenType),
{
    lemma_aging_keeps_newest(pool, later, aged);
    lemma_kinds_differ();
    let keys = aged.materials_newest_first();
    if later <= expiry(now, REFRESH_MINUTES as int) {
        lemma_first_live_found(pair.refresh, keys, later, 0, 0);
    }
    if later <= expiry(now, ACCESS_MINUTES as int) {
        lemma_first_live_found(pair.access, keys, later, 0, 0);
    }
}

/// A rotation does not remove the key that signed until then: in a pool
/// that may hold two keys, the newest key before the rotation is still held
/// after it, unless it was stale already.
pub proof fn law_rotation_keeps_signing_key(
    pool: PoolView,
    now: int,
    material: Seq<char>,
    rotated: PoolView,
)
    requires
        pool.wf(),
        pool.max_keys >= 2,
        rotation(pool, now, material, rotated),
        !is_stale(pool.newest().created_at, now, pool.rotation_days),
    ensures
        rotated.wf(),
        rotated.holds(material),
        rotated.holds(pool.newest().material),
        material != pool.newest().material ==> rotated.keys.contains(pool.newest()),
{
    let signing = pool.newest();
    lemma_rotated(pool, now, material);
    let new_key = KeyView { material, created_at: now };
    let at = choose|i: int| 0 <= i < rotated.keys.len() && rotated.keys[i] == new_key;
    assert(rotated.keys[at].material == material);
    if material != signing.material {
        let fresh_pred = |k: KeyView| !is_stale(k.created_at, now, pool.rotation_days);
        let other_pred = |k: KeyView| k.material != material;
        let fresh = keep_fresh(pool.keys, now, pool.rotation_days);
        lemma_filter_keeps_order(pool.keys, fresh_pred);
        lemma_filter_keeps_last(pool.keys, fresh_pred);
        let others = without(fresh, material);
        lemma_filter_keeps_order(fresh, other_pred);
        lemma_filter_keeps_last(fresh, other_pred);
        let room = keep_newest(others, (pool.capacity() - 1) as nat);
        assert(room.len() > 0 && room.last() == signing);
        assert(forall|i: int| 0 <= i < room.len() ==> other_pred(#[trigger] room[i])) by {
            assert forall|i: int| 0 <= i < room.len() implies other_pred(#[trigger] room[i]) by {
                if others.len() <= pool.capacity() - 1 {
                    assert(other_pred(others[i]));
                } else {
                    assert(other_pred(others[i + others.len() - (pool.capacity() - 1)]));
                }
            }
        }
        lemma_place(room, new_key);
        assert(rotated.keys.contains(room[room.len() - 1]));
        let held = choose|i: int| 0 <= i < rotated.keys.len() && rotated.keys[i] == signing;
        assert(rotated.keys[held].material == signing.material);
    }
}

/// Once a rotation is over, the key that signs is the new key or a newer
/// one, for as long as the new key is not stale.
pub proof fn law_rotation_is_seen(
    pool: PoolView,
    now: int,
    material: Seq<char>,
    rotated: PoolView,
    later: int,
    aged: PoolView,
)
    requires
        pool.wf(),
        pool.max_keys >= 1,
        rotation(pool, now, material, rotated),
        aging_pass(rotated, later, aged),
        !is_stale(now, later, pool.rotation_days),
    ensures
        aged.keys.contains(KeyView { material, created_at: now }),
        aged.newest().created_at >= now,
{
    let key = KeyView { material, created_at: now };
    lemma_rotated(pool, now, material);
    lemma_survivors(rotated, later);
    let fresh_pred = |k: KeyView| !is_stale(k.created_at, later, rotated.rotation_days);
    let fresh = keep_fresh(rotated.keys, later, rotated.rotation_days);
    let held = choose|i: int| 0 <= i < rotated.keys.len() && rotated.keys[i] == key;
    rotated.keys.lemma_filter_contains(fresh_pred, held);
    rotated.keys.lemma_filter_len(fresh_pred);
    assert(rotated.survivors(later) == fresh);
    let at = choose|i: int| 0 <= i < aged.keys.len() && aged.keys[i] == key;
    assert(aged.keys[at].created_at <= aged.keys[aged.keys.len() - 1].created_at);
}

/// Rotation continuity. A token that the newest key signed is still
/// accepted after a rotation, in a pool that may hold two keys, for as long
/// as that key is not stale and the token has not expired. The premise that
/// no other key of the pool opens the token is what a signature is for.
pub proof fn law_rotation_continuity(
    pool: PoolView,
    token: Seq<char>,
    claims: ClaimsView,
    expected: TokenKind,
    rotated_at: int,
    material: Seq<char>,
    rotated: PoolView,
    later: int,
    aged: PoolView,
)
    requires
        pool.wf(),
        pool.max_keys >= 2,
        opens_as(token, pool.newest().material, claims),
        claims.token_type == expected.text(),
        rotation(pool, rotated_at, material, rotated),
        material != pool.newest().material,
        aging_pass(rotated, later, aged),
        !is_stale(pool.newest().created_at, rotated_at, pool.rotation_days),
        !is_stale(pool.newest().created_at, later, pool.rotation_days),
        later <= claims.exp,
        forall|i: int|
            0 <= i < aged.keys.len() && (#[trigger] aged.keys[i]).material
                != pool.newest().material ==> opened_form(token, aged.keys[i].material) is Err,
    ensures
        aged.holds(pool.newest().material),
        verdict(token, aged.materials_newest_first(), expected, later) == Ok::<
            ClaimsView,
            TokenError,
        >(claims),
{
    let signing = pool.newest();
    law_rotation_keeps_signing_key(pool, rotated_at, material, rotated);
    lemma_survivors(rotated, later);
    let fresh_pred = |k: KeyView| !is_stale(k.created_at, later, rotated.rotation_days);
    let fresh = keep_fresh(rotated.keys, later, rotated.rotation_days);
    let held = choose|i: int| 0 <= i < rotated.keys.len() && rotated.keys[i] == signing;
    rotated.keys.lemma_filter_contains(fresh_pred, held);
    assert(fresh.contains(signing));
    rotated.keys.lemma_filter_len(fresh_pred);
    assert(rotated.survivors(later) == fresh);
    assert(aged.keys == fresh);
    let at = choose|i: int| 0 <= i < aged.keys.len() && aged.keys[i] == signing;
    assert(aged.keys[at].material == signing.material);
    let keys = aged.materials_newest_first();
    let index = aged.keys.len() - 1 - at;
    assert(keys[index] == signing.material);
    assert forall|j: int| 0 <= j < index implies !is_live(token, #[trigger] keys[j], later) by {
        let source = aged.keys.len() - 1 - j;
        assert(keys[j] == aged.keys[source].material);
        if aged.keys[source].material == signing.material {
            if source < at {
                assert(aged.keys[source].material != aged.keys[at].material);
            } else {
                assert(aged.keys[at].material != aged.keys[source].material);
            }
        }
    }
    lemma_first_live_found(token, keys, later, 0, index);
}

/// A key that has gone stale is not tried any more: after an aging pass it
/// is not among the keys of the pool, and where another key is left, no key
/// of the pool has its secret.
pub proof fn law_stale_key_leaves(pool: PoolView, now: int, aged: PoolView, at: int)
    requires
        pool.wf(),
        pool.rotation_days >= 0,
        aging_pass(pool, now, aged),
        0 <= at < pool.keys.len(),
        is_stale(pool.keys[at].created_at, now, pool.rotation_days),
    ensures
        !aged.keys.contains(pool.keys[at]),
        pool.survivors(now).len() > 0 ==> !aged.holds(pool.keys[at].material),
{
    lemma_survivors(pool, now);
    let gone = pool.keys[at];
    if aged.keys.contains(gone) {
        let i = choose|i: int| 0 <= i < aged.keys.len() && aged.keys[i] == gone;
        if pool.survivors(now).len() > 0 {
            assert(!is_stale(pool.survivors(now)[i].created_at, now, pool.rotation_days));
        } else {
            assert(aged.keys[0].created_at == now);
        }
    }
    if pool.survivors(now).len() > 0 && aged.holds(gone.material) {
        let i = choose|i: int| 0 <= i < aged.keys.len() && aged.keys[i].material == gone.material;
        let kept = pool.survivors(now)[i];
        assert(!is_stale(kept.created_at, now, pool.rotation_days) && pool.keys.contains(kept));
        let j = choose|j: int| 0 <= j < pool.keys.len() && pool.keys[j] == kept;
        if j < at {
            assert(pool.keys[j].material != pool.keys[at].material);
        } else if at < j {
            assert(pool.keys[at].material != pool.keys[j].material);
        }
    }
}

/// What is accepted was signed, is still good and is of the kind that was
/// expected: claims come back only where some key opens the token to
/// exactly those claims, their expiry has not passed, and they name the
/// expected kind.
pub proof fn law_accepted_is_sound(
    token: Seq<char>,
    keys: Seq<Seq<char>>,
    expected: TokenKind,
    now: int,
    claims: ClaimsView,
)
    requires
        verdict(token, keys, expected, now) == Ok::<ClaimsView, TokenError>(claims),
    ensures
        has_compact_form(token),
        exists|i: int|
            0 <= i < keys.len() && opened_form(token, #[trigger] keys[i]) == Ok::<
                ClaimsView,
                DecodeFailure,
            >(claims),
        claims.exp >= now,
        claims.token_type == expected.text(),
{
    lemma_first_live_source(token, keys, now, 0);
}

/// The first claims that are still good come from one of the keys.
pub proof fn lemma_first_live_source(token: Seq<char>, keys: Seq<Seq<char>>, now: int, from: int)
    requires
        0 <= from,
        first_live(token, keys, now, from) is Some,
    ensures
        exists|i: int|
            from <= i < keys.len() && opened_form(token, #[trigger] keys[i]) == Ok::<
                ClaimsView,
                DecodeFailure,
            >(first_live(token, keys, now, from)->0),
        first_live(token, keys, now, from)->0.exp >= now,
    decreases keys.len() - from,
{
    if from < keys.len() {
        if is_live(token, keys[from], now) {
            assert(opened_form(token, keys[from]) == Ok::<ClaimsView, DecodeFailure>(
                first_live(token, keys, now, from)->0,
            ));
        } else {
            lemma_first_live_source(token, keys, now, from + 1);
            let i = choose|i: int|
                from + 1 <= i < keys.len() && opened_form(token, #[trigger] keys[i]) == Ok::<
                    ClaimsView,
                    DecodeFailure,
                >(first_live(token, keys, now, from + 1)->0);
            assert(opened_form(token, keys[i]) == Ok::<ClaimsView, DecodeFailure>(
                first_live(token, keys, now, from)->0,
            ));
        }
    }
}

/// The kind and the two times of a token are never taken from the extra
/// claims, whatever these name.
pub proof fn law_kind_is_computed(
    identity: Seq<char>,
    kind: TokenKind,
    extras: Seq<(Seq<char>, Seq<char>)>,
    now: int,
    created_at: Seq<char>,
)
    ensures
        kind_claims(kind, identity, extras, now, created_at).token_type == kind.text(),
        kind_claims(kind, identity, extras, now, created_at).iat == now,
        kind_claims(kind, identity, extras, now, created_at).exp == expiry(now, kind.minutes()),
{
}

/// An aging pass settles: a second pass at the same time changes nothing,
/// in a pool that may hold a key and whose keys may grow old.
pub proof fn law_aging_settles(pool: PoolView, now: int, aged: PoolView, again: PoolView)
    requires
        pool.wf(),
        pool.max_keys >= 1,
        pool.rotation_days >= 0,
        aging_pass(pool, now, aged),
        aging_pass(aged, now, again),
    ensures
        again == aged,
{
    lemma_survivors(pool, now);
    let fresh_pred = |k: KeyView| !is_stale(k.created_at, now, aged.rotation_days);
    assert forall|i: int| 0 <= i < aged.keys.len() implies fresh_pred(#[trigger] aged.keys[i]) by {
        if pool.survivors(now).len() > 0 {
            assert(!is_stale(pool.survivors(now)[i].created_at, now, pool.rotation_days));
        }
    }
    lemma_filter_keeps_all(aged.keys, fresh_pred);
    assert(aged.survivors(now) == aged.keys);
    assert(again.keys == aged.keys);
}

/// A filter that every key passes keeps every key.
pub proof fn lemma_filter_keeps_all(keys: Seq<KeyView>, pred: spec_fn(KeyView) -> bool)
    requires
        forall|i: int| 0 <= i < keys.len() ==> pred(#[trigger] keys[i]),
    ensures
        keys.filter(pred) == keys,
    decreases keys.len(),
{
    reveal(Seq::filter);
    if keys.len() > 0 {
        let rest = keys.drop_last();
        assert forall|i: int| 0 <= i < rest.len() implies pred(#[trigger] rest[i]) by {
            assert(rest[i] == keys[i]);
        }
        lemma_filter_keeps_all(rest, pred);
        assert(pred(keys[keys.len() - 1]));
        assert(rest.push(keys.last()) == keys);
    }
}

/// A token that one key of the pool opens to claims which are still good
/// is decided by those claims, wherever the key stands among the others, as
/// long as no key that is tried before it opens the token to claims which
/// are still good: the claims come back where their kind is the expected
/// one, and the token is of the wrong kind where it is not.
pub proof fn law_decided_by_its_key(
    token: Seq<char>,
    keys: Seq<Seq<char>>,
    at: int,
    claims: ClaimsView,
    expected: TokenKind,
    now: int,
)
    requires
        0 <= at < keys.len(),
        opens_as(token, keys[at], claims),
        claims.exp >= now,
        forall|j: int| 0 <= j < at ==> !is_live(token, #[trigger] keys[j], now),
    ensures
        verdict(token, keys, expected, now) == if claims.token_type == expected.text() {
            Ok::<ClaimsView, TokenError>(claims)
        } else {
            Err::<ClaimsView, TokenError>(TokenError::WrongTokenType)
        },
{
    lemma_first_live_found(token, keys, now, 0, at);
}

/// A refresh token that one key of the pool opens is good for a refresh,
/// wherever the key stands among the others, under the same condition: the
/// refresh fails only where the new token cannot be signed, and the new
/// token is made for the subject of the refresh token. An access token in
/// its place is turned down as being of the wrong kind.
pub proof fn law_refresh_by_its_key(
    token: Seq<char>,
    keys: Seq<Seq<char>>,
    at: int,
    claims: ClaimsView,
    now: int,
    created_at: Seq<char>,
)
    requires
        0 <= at < keys.len(),
        opens_as(token, keys[at], claims),
        claims.exp >= now,
        forall|j: int| 0 <= j < at ==> !is_live(token, #[trigger] keys[j], now),
    ensures
        claims.token_type == TokenKind::Refresh.text() && claims.sub.len() > 0 ==> {
            &&& refresh_subject(token, keys, now) == claims.sub
            &&& refreshed(token, keys, now, created_at) matches Err(error) ==> error
                == TokenError::InternalSigningFailure
        },
        claims.token_type == TokenKind::Access.text() ==> refreshed(
            token,
            keys,
            now,
            created_at,
        ) == Err::<Seq<char>, TokenError>(TokenError::WrongTokenType),
{
    lemma_first_live_found(token, keys, now, 0, at);
    lemma_kinds_differ();
}

/// A token that the service sealed and whose time is over is turned down as
/// expired, by one second or by many, as long as no other key of the pool
/// opens it.
pub proof fn law_sealed_token_expires(
    token: Seq<char>,
    keys: Seq<Seq<char>>,
    at: int,
    claims: ClaimsView,
    expected: TokenKind,
    now: int,
)
    requires
        0 <= at < keys.len(),
        sealed_form(claims, keys[at]) == Some(token),
        claims.exp < now,
        forall|j: int|
            0 <= j < keys.len() && j != at ==> opened_form(token, #[trigger] keys[j]) is Err,
    ensures
        verdict(token, keys, expected, now) == Err::<ClaimsView, TokenError>(TokenError::Expired),
{
    assert(opened_form(token, keys[at]) is Ok);
    lemma_first_live_none(token, keys, now, 0);
}

/// Malformed input. A text that does not have the three parts of a token
/// is turned down as malformed, whatever the keys, the kind and the time.
pub proof fn law_malformed(token: Seq<char>, keys: Seq<Seq<char>>, expected: TokenKind, now: int)
    requires
        !has_compact_form(token),
    ensures
        verdict(token, keys, expected, now) == Err::<ClaimsView, TokenError>(
            TokenError::MalformedToken,
        ),
{
}

/// A well-formed token that no key of the pool signed is turned down for
/// its signature.
pub proof fn law_unknown_signature(
    token: Seq<char>,
    keys: Seq<Seq<char>>,
    expected: TokenKind,
    now: int,
)
    requires
        has_compact_form(token),
        forall|i: int|
            0 <= i < keys.len() ==> opened_form(token, #[trigger] keys[i]) == Err::<
                ClaimsView,
                DecodeFailure,
            >(DecodeFailure::BadSignature),
    ensures
        verdict(token, keys, expected, now) == Err::<ClaimsView, TokenError>(
            TokenError::InvalidSignature,
        ),
{
    lemma_first_live_none(token, keys, now, 0);
}

/// The pool after a number of rotations, each with its time and the key
/// that it brought in.
pub open spec fn after_rotations(pool: PoolView, steps: Seq<(int, Seq<char>)>) -> PoolView
    decreases steps.len(),
{
    if steps.len() == 0 {
        pool
    } else {
        let before = after_rotations(pool, steps.drop_last());
        PoolView {
            rotation_days: before.rotation_days,
            max_keys: before.max_keys,
            keys: before.rotated(steps.last().0, steps.last().1),
        }
    }
}

/// Pool bounds. After any number of rotations the pool is well formed, and
/// the keys that an aging pass then leaves are at least one and at most
/// `max_keys`.
pub proof fn law_pool_bounds(pool: PoolView, steps: Seq<(int, Seq<char>)>, now: int, aged: PoolView)
    requires
        pool.wf(),
        pool.max_keys >= 1,
        forall|i: int| 0 <= i < steps.len() ==> is_key_text((#[trigger] steps[i]).1),
        aging_pass(after_rotations(pool, steps), now, aged),
    ensures
        after_rotations(pool, steps).wf(),
        after_rotations(pool, steps).max_keys == pool.max_keys,
        aged.wf(),
        1 <= aged.materials_newest_first().len() <= pool.max_keys,
{
    lemma_after_rotations(pool, steps);
    lemma_survivors(after_rotations(pool, steps), now);
}

/// Under any number of callers at once: a pool that the lock of a manager
/// admits is not empty, and holds no more keys than the manager allows. The
/// lock hands out no other pool and takes no other pool back.
pub proof fn law_shared_pool_bounds(guard: PoolGuard, pool: PoolView)
    requires
        guard.admits(pool),
    ensures
        pool.keys.len() >= 1,
        guard.max_keys >= 1 ==> pool.keys.len() <= guard.max_keys,
{
}

/// Rotations keep a pool well formed and leave its settings alone.
pub proof fn lemma_after_rotations(pool: PoolView, steps: Seq<(int, Seq<char>)>)
    requires
        pool.wf(),
        forall|i: int| 0 <= i < steps.len() ==> is_key_text((#[trigger] steps[i]).1),
    ensures
        after_rotations(pool, steps).wf(),
        after_rotations(pool, steps).max_keys == pool.max_keys,
        after_rotations(pool, steps).rotation_days == pool.rotation_days,
    decreases steps.len(),
{
    if steps.len() > 0 {
        assert forall|i: int| 0 <= i < steps.drop_last().len() implies is_key_text(
            (#[trigger] steps.drop_last()[i]).1,
        ) by {
            assert(steps.drop_last()[i] == steps[i]);
        }
        assert(is_key_text(steps[steps.len() - 1].1));
        lemma_after_rotations(pool, steps.drop_last());
        let before = after_rotations(pool, steps.drop_last());
        lemma_rotated(before, steps.last().0, steps.last().1);
    }
}

/// Expiry. A token whose claims have expired is turned down as expired,
/// whichever kind was expected: some key opens it, and every key that opens
/// it finds the expiry in the past.
pub proof fn law_expired(token: Seq<char>, keys: Seq<Seq<char>>, expected: TokenKind, now: int)
    requires
        has_compact_form(token),
        opens_with_any(token, keys),
        forall|i: int|
            0 <= i < keys.len() ==> (opened_form(token, #[trigger] keys[i]) matches Ok(claims)
                ==> claims.exp < now),
    ensures
        verdict(token, keys, expected, now) == Err::<ClaimsView, TokenError>(TokenError::Expired),
{
    lemma_first_live_none(token, keys, now, 0);
}

/// Refresh flow, first half. The refresh token of a pair that was issued
/// for somebody is accepted for a refresh while its key is in the pool and
/// its time has not run out: the refresh fails only where the new token
/// cannot be signed.
pub proof fn law_refresh_is_owed(
    pool: PoolView,
    identity: Seq<char>,
    now: int,
    created_at: Seq<char>,
    pair: TokenPairView,
    later: int,
    created_later: Seq<char>,
    aged: PoolView,
)
    requires
        pool.wf(),
        pool.max_keys >= 1,
        identity.len() > 0,
        issue_outcome(
            pool,
            identity,
            Seq::empty(),
            now,
            created_at,
            Ok::<TokenPairView, TokenError>(pair),
        ),
        aging_pass(pool, later, aged),
        !is_stale(pool.newest().created_at, later, pool.rotation_days),
        later <= expiry(now, REFRESH_MINUTES as int),
    ensures
        refresh_subject(pair.refresh, aged.materials_newest_first(), later) == identity,
        refreshed(pair.refresh, aged.materials_newest_first(), later, created_later) matches Err(
            error,
        ) ==> error == TokenError::InternalSigningFailure,
{
    lemma_aging_keeps_newest(pool, later, aged);
    let keys = aged.materials_newest_first();
    lemma_first_live_found(pair.refresh, keys, later, 0, 0);
    assert(!names(Seq::<(Seq<char>, Seq<char>)>::empty(), "sub"@));
    lemma_not_overridden(identity, "sub"@, Seq::empty());
}

/// Refresh flow, second half. The access token that a refresh returns
/// proves the identity that the pair was issued for, and it is another
/// token than the access token of the pair unless it was made at the same
/// second with the same time written out.
pub proof fn law_refresh_flow(
    pool: PoolView,
    identity: Seq<char>,
    now: int,
    created_at: Seq<char>,
    pair: TokenPairView,
    later: int,
    created_later: Seq<char>,
    aged: PoolView,
    access: Seq<char>,
    last: int,
    aged_last: PoolView,
)
    requires
        pool.wf(),
        pool.max_keys >= 1,
        identity.len() > 0,
        issue_outcome(
            pool,
            identity,
            Seq::empty(),
            now,
            created_at,
            Ok::<TokenPairView, TokenError>(pair),
        ),
        aging_pass(pool, later, aged),
        !is_stale(pool.newest().created_at, later, pool.rotation_days),
        later <= expiry(now, REFRESH_MINUTES as int),
        refresh_outcome(
            aged,
            pair.refresh,
            later,
            created_later,
            Ok::<Seq<char>, TokenError>(access),
        ),
        aging_pass(aged, last, aged_last),
        !is_stale(pool.newest().created_at, last, pool.rotation_days),
        last <= expiry(later, ACCESS_MINUTES as int),
    ensures
        verdict(access, aged_last.materials_newest_first(), TokenKind::Access, last) matches Ok(
            claims,
        ) && claims.sub == identity,
        later != now || created_later != created_at ==> access != pair.access,
{
    law_refresh_is_owed(pool, identity, now, created_at, pair, later, created_later, aged);
    lemma_aging_keeps_newest(pool, later, aged);
    lemma_aging_keeps_newest(aged, last, aged_last);
    let keys = aged_last.materials_newest_first();
    lemma_first_live_found(access, keys, last, 0, 0);
    assert(!names(Seq::<(Seq<char>, Seq<char>)>::empty(), "sub"@));
    assert(!names(Seq::<(Seq<char>, Seq<char>)>::empty(), "created_at"@));
    lemma_not_overridden(identity, "sub"@, Seq::empty());
    lemma_not_overridden(created_at, "created_at"@, Seq::empty());
    lemma_not_overridden(created_later, "created_at"@, Seq::empty());
}

} // verus!
