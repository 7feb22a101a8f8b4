//! The pool of signing keys: which keys are acceptable right now, which one
//! signs, and how keys age out.
//!
//! A pool is modelled as the sequence of its keys from the oldest to the
//! newest. Keys created at the same second keep the order in which they
//! entered. Every operation takes the current time as an argument, in whole
//! seconds since the epoch.

use crate::keygen::{generate_key, is_key_text};
use vstd::prelude::*;

verus! {

/// Seconds in one day; the rotation period is given in days.
pub const SECONDS_PER_DAY: i64 = 86_400;

/// One signing key as the contracts see it.
pub struct KeyView {
    pub material: Seq<char>,
    pub created_at: int,
}

/// A symmetric signing secret and the second at which it was created.
#[derive(Debug)]
pub struct SigningKey {
    pub material: String,
    pub created_at: i64,
}

impl View for SigningKey {
    type V = KeyView;

    open spec fn view(&self) -> KeyView {
        KeyView { material: self.material@, created_at: self.created_at as int }
    }
}

/// The keys of a vector, each by its view.
pub open spec fn key_views(keys: Seq<SigningKey>) -> Seq<KeyView> {
    keys.map_values(|k: SigningKey| k@)
}

/// A key is stale once it is older than the rotation period: once more
/// seconds have gone by since it was made than the period has.
pub open spec fn is_stale(created_at: int, now: int, rotation_days: int) -> bool {
    now - created_at > rotation_days * (SECONDS_PER_DAY as int)
}

/// Every secret has the shape of a key that this library generates.
pub open spec fn all_key_text(keys: Seq<KeyView>) -> bool {
    forall|i: int| 0 <= i < keys.len() ==> is_key_text(#[trigger] keys[i].material)
}

/// No key is older than the one after it.
pub open spec fn sorted_by_time(keys: Seq<KeyView>) -> bool {
    forall|i: int, j: int| 0 <= i <= j < keys.len() ==> keys[i].created_at <= keys[j].created_at
}

/// No secret occurs twice.
pub open spec fn distinct_material(keys: Seq<KeyView>) -> bool {
    forall|i: int, j: int| 0 <= i < j < keys.len() ==> keys[i].material != keys[j].material
}

/// The keys that are not stale at `now`, in their order.
pub open spec fn keep_fresh(keys: Seq<KeyView>, now: int, rotation_days: int) -> Seq<KeyView> {
    keys.filter(|k: KeyView| !is_stale(k.created_at, now, rotation_days))
}

/// The `count` newest keys, or all of them where there are fewer.
pub open spec fn keep_newest(keys: Seq<KeyView>, count: nat) -> Seq<KeyView> {
    if keys.len() <= count {
        keys
    } else {
        keys.skip(keys.len() - count)
    }
}

/// The keys whose secret is not `material`.
pub open spec fn without(keys: Seq<KeyView>, material: Seq<char>) -> Seq<KeyView> {
    keys.filter(|k: KeyView| k.material != material)
}

/// `key` put behind every key that is not newer than it, and before the rest.
pub open spec fn place(keys: Seq<KeyView>, key: KeyView) -> Seq<KeyView> {
    keys.filter(|k: KeyView| k.created_at <= key.created_at).push(key) + keys.filter(
        |k: KeyView| k.created_at > key.created_at,
    )
}

/// A pool as the contracts see it: its two settings and its keys from the
/// oldest to the newest.
pub struct PoolView {
    pub rotation_days: int,
    pub max_keys: nat,
    pub keys: Seq<KeyView>,
}

impl PoolView {
    /// The most keys that the pool holds at rest. A pool is never empty, so
    /// a limit of zero is served as a limit of one.
    pub open spec fn capacity(self) -> nat {
        if self.max_keys == 0 {
            1
        } else {
            self.max_keys
        }
    }

    /// What every pool satisfies between operations.
    pub open spec fn wf(self) -> bool {
        &&& sorted_by_time(self.keys)
        &&& distinct_material(self.keys)
        &&& all_key_text(self.keys)
        &&& 1 <= self.keys.len() <= self.capacity()
    }

    /// The key that signs: the newest one.
    pub open spec fn newest(self) -> KeyView {
        self.keys.last()
    }

    /// Whether some key of the pool has this secret.
    pub open spec fn holds(self, material: Seq<char>) -> bool {
        exists|i: int| 0 <= i < self.keys.len() && #[trigger] self.keys[i].material == material
    }

    /// The secrets from the newest to the oldest: the order in which a
    /// token is tried against them.
    pub open spec fn materials_newest_first(self) -> Seq<Seq<char>> {
        Seq::new(self.keys.len(), |i: int| self.keys[self.keys.len() - 1 - i].material)
    }

    /// Whether no key of the pool is stale at `now`.
    pub open spec fn all_fresh(self, now: int) -> bool {
        forall|i: int|
            0 <= i < self.keys.len() ==> !is_stale(
                #[trigger] self.keys[i].created_at,
                now,
                self.rotation_days,
            )
    }

    /// What eviction leaves at `now`: the keys that are not stale, and of
    /// those the `max_keys` newest.
    pub open spec fn survivors(self, now: int) -> Seq<KeyView> {
        keep_newest(keep_fresh(self.keys, now, self.rotation_days), self.max_keys)
    }

    /// The keys after a rotation at `now` that brings in `material`: the
    /// stale keys leave, an older key with the same secret leaves, the oldest
    /// leave until there is room for one more, and the new key takes its
    /// place by its time.
    pub open spec fn rotated(self, now: int, material: Seq<char>) -> Seq<KeyView> {
        place(
            keep_newest(
                without(keep_fresh(self.keys, now, self.rotation_days), material),
                (self.capacity() - 1) as nat,
            ),
            KeyView { material, created_at: now },
        )
    }
}

/// The aging pass, as a relation between the pool before and after it.
/// Where eviction leaves a key, the pool holds exactly the survivors. Where
/// it leaves none, the pool holds one key made at `now`; which secret it
/// has is up to the random source.
pub open spec fn aging_pass(before: PoolView, now: int, after: PoolView) -> bool {
    &&& after.rotation_days == before.rotation_days
    &&& after.max_keys == before.max_keys
    &&& if before.survivors(now).len() > 0 {
        after.keys == before.survivors(now)
    } else {
        &&& after.keys.len() == 1
        &&& after.keys[0].created_at == now
        &&& is_key_text(after.keys[0].material)
    }
}

/// A rotation, as a relation between the pool before and after it and the
/// secret that it returned.
pub open spec fn rotation(
    before: PoolView,
    now: int,
    material: Seq<char>,
    after: PoolView,
) -> bool {
    &&& after.rotation_days == before.rotation_days
    &&& after.max_keys == before.max_keys
    &&& is_key_text(material)
    &&& after.keys == before.rotated(now, material)
}

/// Filtering keeps the order by time and keeps secrets apart.
pub proof fn lemma_filter_keeps_order(keys: Seq<KeyView>, pred: spec_fn(KeyView) -> bool)
    requires
        sorted_by_time(keys),
        distinct_material(keys),
    ensures
        sorted_by_time(keys.filter(pred)),
        distinct_material(keys.filter(pred)),
        forall|i: int|
            0 <= i < keys.filter(pred).len() ==> pred(#[trigger] keys.filter(pred)[i])
                && keys.contains(keys.filter(pred)[i]),
    decreases keys.len(),
{
    reveal(Seq::filter);
    if keys.len() > 0 {
        let rest = keys.drop_last();
        let kept = rest.filter(pred);
        assert(sorted_by_time(rest)) by {
            assert forall|i: int, j: int| 0 <= i <= j < rest.len() implies rest[i].created_at
                <= rest[j].created_at by {
                assert(rest[i] == keys[i] && rest[j] == keys[j]);
            }
        }
        assert(distinct_material(rest)) by {
            assert forall|i: int, j: int| 0 <= i < j < rest.len() implies rest[i].material
                != rest[j].material by {
                assert(rest[i] == keys[i] && rest[j] == keys[j]);
            }
        }
        lemma_filter_keeps_order(rest, pred);
        assert forall|i: int| 0 <= i < kept.len() implies keys.contains(#[trigger] kept[i]) by {
            let j = choose|j: int| 0 <= j < rest.len() && rest[j] == kept[i];
            assert(keys[j] == kept[i]);
        }
        if pred(keys.last()) {
            let out = kept.push(keys.last());
            assert(keys.filter(pred) == out);
            assert forall|i: int, j: int| 0 <= i <= j < out.len() implies out[i].created_at
                <= out[j].created_at by {
                if j == kept.len() && i < kept.len() {
                    let a = choose|a: int| 0 <= a < rest.len() && rest[a] == kept[i];
                    assert(keys[a] == kept[i]);
                }
            }
            assert forall|i: int, j: int| 0 <= i < j < out.len() implies out[i].material
                != out[j].material by {
                if j == kept.len() {
                    let a = choose|a: int| 0 <= a < rest.len() && rest[a] == kept[i];
                    assert(keys[a] == kept[i]);
                }
            }
            assert forall|i: int| 0 <= i < out.len() implies pred(#[trigger] out[i])
                && keys.contains(out[i]) by {
                if i == kept.len() {
                    assert(keys[keys.len() - 1] == out[i]);
                }
            }
        } else {
            assert(keys.filter(pred) == kept);
        }
    }
}

/// Where the newest key passes the filter, it is still the newest afterwards.
pub proof fn lemma_filter_keeps_last(keys: Seq<KeyView>, pred: spec_fn(KeyView) -> bool)
    requires
        keys.len() > 0,
        pred(keys.last()),
    ensures
        keys.filter(pred).len() > 0,
        keys.filter(pred).last() == keys.last(),
{
    reveal(Seq::filter);
}

/// Eviction leaves a pool in order, without a stale key and within the limit.
pub proof fn lemma_survivors(pool: PoolView, now: int)
    requires
        sorted_by_time(pool.keys),
        distinct_material(pool.keys),
    ensures
        sorted_by_time(pool.survivors(now)),
        distinct_material(pool.survivors(now)),
        pool.survivors(now).len() <= pool.max_keys,
        pool.survivors(now).len() <= pool.keys.len(),
        forall|i: int|
            0 <= i < pool.survivors(now).len() ==> !is_stale(
                #[trigger] pool.survivors(now)[i].created_at,
                now,
                pool.rotation_days,
            ) && pool.keys.contains(pool.survivors(now)[i]),
        all_key_text(pool.keys) ==> all_key_text(pool.survivors(now)),
{
    let pred = |k: KeyView| !is_stale(k.created_at, now, pool.rotation_days);
    let fresh = pool.keys.filter(pred);
    lemma_filter_keeps_order(pool.keys, pred);
    pool.keys.lemma_filter_len(pred);
    let kept = keep_newest(fresh, pool.max_keys);
    assert(kept == pool.survivors(now));
    assert forall|i: int| 0 <= i < kept.len() implies !is_stale(
        #[trigger] kept[i].created_at,
        now,
        pool.rotation_days,
    ) && pool.keys.contains(kept[i]) by {
        if fresh.len() <= pool.max_keys {
            assert(pred(fresh[i]));
        } else {
            assert(pred(fresh[i + fresh.len() - pool.max_keys]));
        }
    }
    if all_key_text(pool.keys) {
        assert forall|i: int| 0 <= i < kept.len() implies is_key_text(
            #[trigger] kept[i].material,
        ) by {
            let at = choose|at: int| 0 <= at < pool.keys.len() && pool.keys[at] == kept[i];
            assert(is_key_text(pool.keys[at].material));
        }
    }
}

/// A key that is the newest and not stale outlives eviction, as long as the
/// pool may hold a key at all.
pub proof fn lemma_newest_survives(pool: PoolView, now: int)
    requires
        pool.keys.len() > 0,
        pool.max_keys >= 1,
        !is_stale(pool.newest().created_at, now, pool.rotation_days),
    ensures
        pool.survivors(now).len() > 0,
        pool.survivors(now).last() == pool.newest(),
{
    let pred = |k: KeyView| !is_stale(k.created_at, now, pool.rotation_days);
    lemma_filter_keeps_last(pool.keys, pred);
}

/// After a rotation the pool is in order and within its limit, and the new
/// key is in it.
pub proof fn lemma_rotated(pool: PoolView, now: int, material: Seq<char>)
    requires
        sorted_by_time(pool.keys),
        distinct_material(pool.keys),
    ensures
        sorted_by_time(pool.rotated(now, material)),
        distinct_material(pool.rotated(now, material)),
        1 <= pool.rotated(now, material).len() <= pool.capacity(),
        pool.rotated(now, material).contains(KeyView { material, created_at: now }),
        pool.rotation_days >= 0 ==> forall|i: int|
            0 <= i < pool.rotated(now, material).len() ==> !is_stale(
                #[trigger] pool.rotated(now, material)[i].created_at,
                now,
                pool.rotation_days,
            ),
        all_key_text(pool.keys) && is_key_text(material) ==> all_key_text(
            pool.rotated(now, material),
        ),
{
    let fresh_pred = |k: KeyView| !is_stale(k.created_at, now, pool.rotation_days);
    let other_pred = |k: KeyView| k.material != material;
    let fresh = pool.keys.filter(fresh_pred);
    lemma_filter_keeps_order(pool.keys, fresh_pred);
    let others = fresh.filter(other_pred);
    lemma_filter_keeps_order(fresh, other_pred);
    let room = keep_newest(others, (pool.capacity() - 1) as nat);
    assert(forall|i: int|
        0 <= i < room.len() ==> other_pred(#[trigger] room[i]) && fresh_pred(room[i])) by {
        assert forall|i: int| 0 <= i < room.len() implies other_pred(#[trigger] room[i])
            && fresh_pred(room[i]) by {
            let source = if others.len() <= pool.capacity() - 1 {
                i
            } else {
                i + others.len() - (pool.capacity() - 1)
            };
            assert(room[i] == others[source]);
            assert(other_pred(others[source]) && fresh.contains(others[source]));
            let at = choose|at: int| 0 <= at < fresh.len() && fresh[at] == others[source];
            assert(fresh_pred(fresh[at]));
        }
    }
    let key = KeyView { material, created_at: now };
    lemma_place(room, key);
    if all_key_text(pool.keys) && is_key_text(material) {
        let rotated = pool.rotated(now, material);
        assert forall|i: int| 0 <= i < rotated.len() implies is_key_text(
            #[trigger] rotated[i].material,
        ) by {
            if rotated[i] != key {
                let at = choose|at: int| 0 <= at < room.len() && room[at] == rotated[i];
                let source = if others.len() <= pool.capacity() - 1 {
                    at
                } else {
                    at + others.len() - (pool.capacity() - 1)
                };
                assert(room[at] == others[source]);
                assert(fresh.contains(others[source]));
                let a = choose|a: int| 0 <= a < fresh.len() && fresh[a] == others[source];
                assert(pool.keys.contains(fresh[a]));
                let b = choose|b: int| 0 <= b < pool.keys.len() && pool.keys[b] == fresh[a];
                assert(is_key_text(pool.keys[b].material));
            }
        }
    }
    if pool.rotation_days >= 0 {
        let rotated = pool.rotated(now, material);
        assert forall|i: int| 0 <= i < rotated.len() implies !is_stale(
            #[trigger] rotated[i].created_at,
            now,
            pool.rotation_days,
        ) by {
            if rotated[i] != key {
                let at = choose|at: int| 0 <= at < room.len() && room[at] == rotated[i];
                assert(fresh_pred(room[at]));
            }
        }
    }
}

/// Placing a key with a new secret into an ordered sequence keeps it
/// ordered, with one key more.
pub proof fn lemma_place(keys: Seq<KeyView>, key: KeyView)
    requires
        sorted_by_time(keys),
        distinct_material(keys),
        forall|i: int| 0 <= i < keys.len() ==> (#[trigger] keys[i]).material != key.material,
    ensures
        sorted_by_time(place(keys, key)),
        distinct_material(place(keys, key)),
        place(keys, key).len() == keys.len() + 1,
        place(keys, key).contains(key),
        forall|i: int| 0 <= i < keys.len() ==> place(keys, key).contains(#[trigger] keys[i]),
        forall|i: int|
            0 <= i < place(keys, key).len() ==> (#[trigger] place(keys, key)[i]) == key
                || keys.contains(place(keys, key)[i]),
        keys.len() > 0 && keys.last().created_at > key.created_at ==> place(keys, key).last()
            == keys.last(),
        keys.len() == 0 || keys.last().created_at <= key.created_at ==> place(keys, key).last()
            == key,
{
    let early_pred = |k: KeyView| k.created_at <= key.created_at;
    let late_pred = |k: KeyView| k.created_at > key.created_at;
    let early = keys.filter(early_pred);
    let late = keys.filter(late_pred);
    lemma_filter_keeps_order(keys, early_pred);
    lemma_filter_keeps_order(keys, late_pred);
    lemma_partition_len(keys, early_pred, late_pred);
    let out = place(keys, key);
    assert(out == early.push(key) + late);
    assert(out.len() == keys.len() + 1);
    assert(out[early.len() as int] == key);
    assert forall|i: int| 0 <= i < out.len() && i != early.len() implies keys.contains(
        #[trigger] out[i],
    ) && (i < early.len() ==> early_pred(out[i])) && (i > early.len() ==> late_pred(out[i])) by {
        if i < early.len() {
            assert(out[i] == early[i]);
        } else {
            assert(out[i] == late[i - early.len() - 1]);
        }
    }
    assert forall|i: int| 0 <= i < out.len() implies (#[trigger] out[i]) == key || keys.contains(
        out[i],
    ) by {
        if i != early.len() {
            assert(keys.contains(out[i]));
        }
    }
    assert forall|i: int, j: int| 0 <= i <= j < out.len() implies out[i].created_at
        <= out[j].created_at by {
        if i < early.len() && j < early.len() {
            assert(out[i] == early[i] && out[j] == early[j]);
        } else if i > early.len() && j > early.len() {
            assert(out[i] == late[i - early.len() - 1] && out[j] == late[j - early.len() - 1]);
        }
    }
    assert forall|i: int, j: int| 0 <= i < j < out.len() implies out[i].material
        != out[j].material by {
        if i == early.len() {
            let a = choose|a: int| 0 <= a < keys.len() && keys[a] == out[j];
        } else if j == early.len() {
            let a = choose|a: int| 0 <= a < keys.len() && keys[a] == out[i];
        } else if i < early.len() && j < early.len() {
            assert(out[i] == early[i] && out[j] == early[j]);
        } else if i > early.len() && j > early.len() {
            assert(out[i] == late[i - early.len() - 1] && out[j] == late[j - early.len() - 1]);
        } else {
            let a = choose|a: int| 0 <= a < keys.len() && keys[a] == out[i];
            let b = choose|b: int| 0 <= b < keys.len() && keys[b] == out[j];
            assert(a != b);
            if a < b {
                assert(keys[a].material != keys[b].material);
            } else {
                assert(keys[b].material != keys[a].material);
            }
        }
    }
    assert forall|i: int| 0 <= i < keys.len() implies out.contains(#[trigger] keys[i]) by {
        if early_pred(keys[i]) {
            keys.lemma_filter_contains(early_pred, i);
            assert(early.contains(keys[i]));
            let a = choose|a: int| 0 <= a < early.len() && early[a] == keys[i];
            assert(out[a] == keys[i]);
        } else {
            keys.lemma_filter_contains(late_pred, i);
            assert(late.contains(keys[i]));
            let a = choose|a: int| 0 <= a < late.len() && late[a] == keys[i];
            assert(out[a + early.len() + 1] == keys[i]);
        }
    }
    if keys.len() > 0 {
        if keys.last().created_at > key.created_at {
            lemma_filter_keeps_last(keys, late_pred);
            assert(out.last() == late.last());
        } else {
            assert(late.len() == 0) by {
                if late.len() > 0 {
                    let a = choose|a: int| 0 <= a < keys.len() && keys[a] == late[0];
                    assert(late_pred(late[0]));
                    assert(keys[a].created_at <= keys[keys.len() - 1].created_at);
                }
            }
        }
    }
}

/// Two filters of which each key passes exactly one split the sequence.
pub proof fn lemma_partition_len(
    keys: Seq<KeyView>,
    pred: spec_fn(KeyView) -> bool,
    other: spec_fn(KeyView) -> bool,
)
    requires
        forall|k: KeyView| pred(k) != #[trigger] other(k),
    ensures
        keys.filter(pred).len() + keys.filter(other).len() == keys.len(),
    decreases keys.len(),
{
    reveal(Seq::filter);
    if keys.len() > 0 {
        lemma_partition_len(keys.drop_last(), pred, other);
    }
}

/// Whether a key created at `created_at` is stale at `now`.
pub fn key_is_stale(created_at: i64, now: i64, rotation_days: i64) -> (stale: bool)
    ensures
        stale == is_stale(created_at as int, now as int, rotation_days as int),
{
    let elapsed: i128 = now as i128 - created_at as i128;
    let period: i128 = (rotation_days as i128) * 86_400;
    elapsed > period
}

/// A copy of one key.
fn copy_key(key: &SigningKey) -> (copy: SigningKey)
    ensures
        copy@ == key@,
{
    SigningKey { material: key.material.clone(), created_at: key.created_at }
}

/// Copies of the keys that are not stale at `now`.
fn fresh_keys(keys: &Vec<SigningKey>, now: i64, rotation_days: i64) -> (kept: Vec<SigningKey>)
    ensures
        key_views(kept@) == keep_fresh(key_views(keys@), now as int, rotation_days as int),
{
    let ghost pred = |k: KeyView| !is_stale(k.created_at, now as int, rotation_days as int);
    let mut kept: Vec<SigningKey> = Vec::new();
    let mut i: usize = 0;
    proof {
        reveal(Seq::filter);
        assert(key_views(keys@).take(0).filter(pred) == Seq::<KeyView>::empty());
        assert(key_views(kept@) == Seq::<KeyView>::empty());
    }
    while i < keys.len()
        invariant
            i <= keys.len(),
            pred == (|k: KeyView| !is_stale(k.created_at, now as int, rotation_days as int)),
            key_views(kept@) == key_views(keys@).take(i as int).filter(pred),
        decreases keys.len() - i,
    {
        proof {
            let so_far = key_views(keys@).take(i as int);
            assert(key_views(keys@).take(i + 1) == so_far.push(keys@[i as int]@));
            so_far.lemma_filter_push(keys@[i as int]@, pred);
        }
        if !key_is_stale(keys[i].created_at, now, rotation_days) {
            let ghost before = kept@;
            kept.push(copy_key(&keys[i]));
            assert(key_views(kept@) == key_views(before).push(keys@[i as int]@));
        }
        i += 1;
    }
    assert(key_views(keys@).take(keys.len() as int) == key_views(keys@));
    kept
}

/// Copies of the keys whose secret differs from `material`.
fn keys_without(keys: &Vec<SigningKey>, material: &String) -> (kept: Vec<SigningKey>)
    ensures
        key_views(kept@) == without(key_views(keys@), material@),
{
    let ghost pred = |k: KeyView| k.material != material@;
    let mut kept: Vec<SigningKey> = Vec::new();
    let mut i: usize = 0;
    proof {
        reveal(Seq::filter);
        assert(key_views(keys@).take(0).filter(pred) == Seq::<KeyView>::empty());
        assert(key_views(kept@) == Seq::<KeyView>::empty());
    }
    while i < keys.len()
        invariant
            i <= keys.len(),
            pred == (|k: KeyView| k.material != material@),
            key_views(kept@) == key_views(keys@).take(i as int).filter(pred),
        decreases keys.len() - i,
    {
        proof {
            let so_far = key_views(keys@).take(i as int);
            assert(key_views(keys@).take(i + 1) == so_far.push(keys@[i as int]@));
            so_far.lemma_filter_push(keys@[i as int]@, pred);
        }
        if !(keys[i].material == *material) {
            let ghost before = kept@;
            kept.push(copy_key(&keys[i]));
            assert(key_views(kept@) == key_views(before).push(keys@[i as int]@));
        }
        i += 1;
    }
    assert(key_views(keys@).take(keys.len() as int) == key_views(keys@));
    kept
}

/// Copies of the `count` newest keys.
fn newest_keys(keys: &Vec<SigningKey>, count: usize) -> (kept: Vec<SigningKey>)
    ensures
        key_views(kept@) == keep_newest(key_views(keys@), count as nat),
{
    let start: usize = if keys.len() <= count {
        0
    } else {
        keys.len() - count
    };
    let mut kept: Vec<SigningKey> = Vec::new();
    let mut i: usize = start;
    assert(key_views(kept@) == key_views(keys@).subrange(start as int, i as int));
    while i < keys.len()
        invariant
            start <= i <= keys.len(),
            key_views(kept@) == key_views(keys@).subrange(start as int, i as int),
        decreases keys.len() - i,
    {
        let ghost before = kept@;
        kept.push(copy_key(&keys[i]));
        assert(key_views(kept@) == key_views(before).push(keys@[i as int]@));
        i += 1;
        assert(key_views(kept@) == key_views(keys@).subrange(start as int, i as int));
    }
    assert(key_views(keys@).subrange(start as int, keys.len() as int) == key_views(keys@).skip(
        start as int,
    ));
    assert(key_views(keys@).skip(0) == key_views(keys@));
    kept
}

/// The keys with `key` placed by its time.
fn place_key(keys: &Vec<SigningKey>, key: SigningKey) -> (placed: Vec<SigningKey>)
    ensures
        key_views(placed@) == place(key_views(keys@), key@),
{
    let ghost early_pred = |k: KeyView| k.created_at <= key@.created_at;
    let ghost late_pred = |k: KeyView| k.created_at > key@.created_at;
    let at: i64 = key.created_at;
    let mut placed: Vec<SigningKey> = Vec::new();
    let mut i: usize = 0;
    proof {
        reveal(Seq::filter);
        assert(key_views(keys@).take(0).filter(early_pred) == Seq::<KeyView>::empty());
        assert(key_views(placed@) == Seq::<KeyView>::empty());
    }
    while i < keys.len()
        invariant
            i <= keys.len(),
            at == key.created_at,
            early_pred == (|k: KeyView| k.created_at <= key@.created_at),
            key_views(placed@) == key_views(keys@).take(i as int).filter(early_pred),
        decreases keys.len() - i,
    {
        proof {
            let so_far = key_views(keys@).take(i as int);
            assert(key_views(keys@).take(i + 1) == so_far.push(keys@[i as int]@));
            so_far.lemma_filter_push(keys@[i as int]@, early_pred);
        }
        if keys[i].created_at <= at {
            let ghost before = placed@;
            placed.push(copy_key(&keys[i]));
            assert(key_views(placed@) == key_views(before).push(keys@[i as int]@));
        }
        i += 1;
    }
    assert(key_views(keys@).take(keys.len() as int) == key_views(keys@));
    let ghost head = key_views(keys@).filter(early_pred).push(key@);
    let ghost before = placed@;
    placed.push(key);
    assert(key_views(placed@) == key_views(before).push(key@));
    let mut j: usize = 0;
    proof {
        reveal(Seq::filter);
        assert(key_views(keys@).take(0).filter(late_pred) == Seq::<KeyView>::empty());
        assert(key_views(placed@) == head + Seq::<KeyView>::empty());
    }
    while j < keys.len()
        invariant
            j <= keys.len(),
            late_pred == (|k: KeyView| k.created_at > at as int),
            key_views(placed@) == head + key_views(keys@).take(j as int).filter(late_pred),
        decreases keys.len() - j,
    {
        proof {
            let so_far = key_views(keys@).take(j as int);
            assert(key_views(keys@).take(j + 1) == so_far.push(keys@[j as int]@));
            so_far.lemma_filter_push(keys@[j as int]@, late_pred);
        }
        if keys[j].created_at > at {
            let ghost before = placed@;
            placed.push(copy_key(&keys[j]));
            assert(key_views(placed@) == key_views(before).push(keys@[j as int]@));
            assert(key_views(placed@) == head + key_views(keys@).take(j as int).filter(
                late_pred,
            ).push(keys@[j as int]@));
        }
        j += 1;
    }
    assert(key_views(keys@).take(keys.len() as int) == key_views(keys@));
    placed
}

/// The rotating pool of signing keys, held by one owner.
#[derive(Debug)]
pub struct KeyPool {
    rotation_days: i64,
    max_keys: usize,
    keys: Vec<SigningKey>,
}

impl View for KeyPool {
    type V = PoolView;

    closed spec fn view(&self) -> PoolView {
        PoolView {
            rotation_days: self.rotation_days as int,
            max_keys: self.max_keys as nat,
            keys: key_views(self.keys@),
        }
    }
}

impl KeyPool {
    /// What holds of every pool at any time: it is well formed.
    #[verifier::type_invariant]
    pub open spec fn well_formed(self) -> bool {
        self@.wf()
    }

    /// A pool with one key, made at `now`.
    pub fn new(rotation_days: i64, max_keys: usize, now: i64) -> (pool: Self)
        ensures
            pool@.wf(),
            pool@.rotation_days == rotation_days,
            pool@.max_keys == max_keys,
            pool@.keys.len() == 1,
            pool@.keys[0].created_at == now,
            is_key_text(pool@.keys[0].material),
    {
        let mut keys: Vec<SigningKey> = Vec::new();
        keys.push(SigningKey { material: generate_key(), created_at: now });
        Self { rotation_days, max_keys, keys }
    }

    /// The aging pass at `now`: stale keys leave, then the oldest of the
    /// rest until at most `max_keys` are left; an empty pool gets one new key.
    pub fn clean_old_keys(&mut self, now: i64)
        ensures
            final(self)@.wf(),
            aging_pass(old(self)@, now as int, final(self)@),
            final(self)@.rotation_days >= 0 ==> final(self)@.all_fresh(now as int),
    {
        proof {
            use_type_invariant(&*self);
        }
        let fresh = fresh_keys(&self.keys, now, self.rotation_days);
        let mut kept = newest_keys(&fresh, self.max_keys);
        proof {
            lemma_survivors(self@, now as int);
        }
        if kept.len() == 0 {
            kept.push(SigningKey { material: generate_key(), created_at: now });
        }
        self.keys = kept;
    }

    /// Brings in a new random key made at `now` and returns its secret.
    /// Stale keys leave; so do the oldest, as far as the new key needs room.
    pub fn rotate(&mut self, now: i64) -> (material: String)
        ensures
            final(self)@.wf(),
            is_key_text(material@),
            rotation(old(self)@, now as int, material@, final(self)@),
            final(self)@.holds(material@),
            final(self)@.rotation_days >= 0 ==> final(self)@.all_fresh(now as int),
    {
        proof {
            use_type_invariant(&*self);
        }
        let material = generate_key();
        let fresh = fresh_keys(&self.keys, now, self.rotation_days);
        let others = keys_without(&fresh, &material);
        let room: usize = if self.max_keys == 0 {
            0
        } else {
            self.max_keys - 1
        };
        let kept = newest_keys(&others, room);
        let placed = place_key(&kept, SigningKey { material: material.clone(), created_at: now });
        proof {
            lemma_rotated(self@, now as int, material@);
            let key = KeyView { material: material@, created_at: now as int };
            let i = choose|i: int|
                0 <= i < self@.rotated(now as int, material@).len() && self@.rotated(
                    now as int,
                    material@,
                )[i] == key;
            assert(key_views(placed@)[i].material == material@);
        }
        self.keys = placed;
        material
    }

    /// The secret that signs at `now`: the newest key after an aging pass.
    pub fn current_key(&mut self, now: i64) -> (material: String)
        ensures
            final(self)@.wf(),
            aging_pass(old(self)@, now as int, final(self)@),
            material@ == final(self)@.newest().material,
            is_key_text(material@),
    {
        self.clean_old_keys(now);
        let last: usize = self.keys.len() - 1;
        self.keys[last].material.clone()
    }

    /// Every secret that is acceptable at `now`, the newest first.
    pub fn all_valid_keys(&mut self, now: i64) -> (materials: Vec<String>)
        ensures
            final(self)@.wf(),
            aging_pass(old(self)@, now as int, final(self)@),
            materials@.map_values(|m: String| m@) == final(self)@.materials_newest_first(),
            1 <= materials@.len() <= final(self)@.capacity(),
            forall|i: int| 0 <= i < materials@.len() ==> is_key_text(#[trigger] materials@[i]@),
    {
        self.clean_old_keys(now);
        let mut materials: Vec<String> = Vec::new();
        let mut left: usize = self.keys.len();
        while left > 0
            invariant
                left <= self.keys.len(),
                materials@.len() == self.keys.len() - left,
                forall|i: int|
                    0 <= i < materials@.len() ==> (#[trigger] materials@[i])@
                        == self.keys@[self.keys.len() - 1 - i].material@,
            decreases left,
        {
            left -= 1;
            materials.push(self.keys[left].material.clone());
        }
        assert(materials@.map_values(|m: String| m@) =~= self@.materials_newest_first());
        assert forall|i: int| 0 <= i < materials@.len() implies is_key_text(
            #[trigger] materials@[i]@,
        ) by {
            assert(is_key_text(self@.keys[self.keys.len() - 1 - i].material));
        }
        materials
    }

    /// The longest age, in days, that a key may reach.
    pub fn rotation_days(&self) -> (days: i64)
        ensures
            days == self@.rotation_days,
    {
        self.rotation_days
    }

    /// The most keys that the pool keeps.
    pub fn max_keys(&self) -> (count: usize)
        ensures
            count == self@.max_keys,
    {
        self.max_keys
    }

    /// How many keys the pool holds.
    pub fn key_count(&self) -> (count: usize)
        ensures
            count == self@.keys.len(),
    {
        self.keys.len()
    }
}

} // verus!
