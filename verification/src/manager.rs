//! One pool for many callers at once.
//!
//! The pool sits behind a lock that admits only well-formed pools with the
//! settings that the manager was made with. Whoever takes the lock finds
//! such a pool, and has to leave such a pool behind to give the lock back:
//! no caller, on any thread, sees a pool that is empty or over its limit.
//!
//! Between two calls another caller may have changed the pool. So a
//! contract here does not relate the pool before a call to the pool after
//! it; it says what pool the call saw.

use crate::clock::read_clock;
use crate::keygen::is_key_text;
use crate::pool::{KeyPool, PoolView};
use vstd::prelude::*;
use vstd::rwlock::{RwLock, RwLockPredicate};

verus! {

/// What the lock admits: a well-formed pool with these settings.
pub struct PoolGuard {
    pub rotation_days: int,
    pub max_keys: nat,
}

impl PoolGuard {
    /// Whether the lock admits a pool with this view.
    pub open spec fn admits(self, pool: PoolView) -> bool {
        &&& pool.wf()
        &&& pool.rotation_days == self.rotation_days
        &&& pool.max_keys == self.max_keys
    }
}

impl RwLockPredicate<KeyPool> for PoolGuard {
    open spec fn inv(self, pool: KeyPool) -> bool {
        self.admits(pool@)
    }
}

/// The rotating pool of signing keys, shared by reference.
pub struct JwtKeyManager {
    rotation_days: i64,
    max_keys: usize,
    key_dict: RwLock<KeyPool, PoolGuard>,
}

impl JwtKeyManager {
    /// What holds of every manager at any time: its lock admits the pools
    /// with its settings, and no others.
    #[verifier::type_invariant]
    spec fn guarded(self) -> bool {
        self.key_dict.pred() == self.guard()
    }

    /// The settings that the manager was made with.
    pub closed spec fn guard(self) -> PoolGuard {
        PoolGuard { rotation_days: self.rotation_days as int, max_keys: self.max_keys as nat }
    }

    /// Whether a call at `now` may have seen this pool: `now` is a reading
    /// of the clock in seconds, the pool is well formed, has the manager's
    /// settings and, an aging pass being part of every call, holds no key
    /// that is stale at `now`.
    pub open spec fn seen_at(self, pool: PoolView, now: int) -> bool {
        &&& i64::MIN <= now <= i64::MAX
        &&& self.guard().admits(pool)
        &&& pool.rotation_days >= 0 ==> pool.all_fresh(now)
    }

    /// A manager with one key, made now.
    pub fn new(rotation_days: i64, max_keys: usize) -> (manager: Self)
        ensures
            manager.guard().rotation_days == rotation_days,
            manager.guard().max_keys == max_keys,
    {
        Self::from_pool(KeyPool::new(rotation_days, max_keys, read_clock().seconds))
    }

    /// A manager for a pool that exists already.
    pub fn from_pool(pool: KeyPool) -> (manager: Self)
        ensures
            manager.guard().rotation_days == pool@.rotation_days,
            manager.guard().max_keys == pool@.max_keys,
    {
        proof {
            use_type_invariant(&pool);
        }
        let rotation_days = pool.rotation_days();
        let max_keys = pool.max_keys();
        let ghost guard = PoolGuard {
            rotation_days: rotation_days as int,
            max_keys: max_keys as nat,
        };
        Self { rotation_days, max_keys, key_dict: RwLock::new(pool, Ghost(guard)) }
    }

    /// The longest age, in days, that a key may reach.
    pub fn rotation_days(&self) -> (days: i64)
        ensures
            days == self.guard().rotation_days,
    {
        self.rotation_days
    }

    /// The most keys that the pool keeps.
    pub fn max_keys(&self) -> (count: usize)
        ensures
            count == self.guard().max_keys,
    {
        self.max_keys
    }

    /// The secret that signs at `now`: the newest key of the pool after an
    /// aging pass.
    pub fn get_current_key_at(&self, now: i64) -> (material: String)
        ensures
            exists|pool: PoolView| #[trigger]
                self.seen_at(pool, now as int) && material@ == pool.newest().material,
            is_key_text(material@),
    {
        proof {
            use_type_invariant(self);
        }
        let (mut pool, handle) = self.key_dict.acquire_write();
        let material = pool.current_key(now);
        assert(self.seen_at(pool@, now as int));
        handle.release_write(pool);
        material
    }

    /// The secret that signs now.
    pub fn get_current_key(&self) -> (material: String)
        ensures
            exists|pool: PoolView, now: int| #[trigger]
                self.seen_at(pool, now) && material@ == pool.newest().material,
            is_key_text(material@),
    {
        let now = read_clock().seconds;
        let material = self.get_current_key_at(now);
        let ghost pool = choose|pool: PoolView| #[trigger]
            self.seen_at(pool, now as int) && material@ == pool.newest().material;
        assert(self.seen_at(pool, now as int));
        material
    }

    /// Every secret that is acceptable at `now`, the newest first: at least
    /// one, and no more than the pool may hold.
    pub fn get_all_valid_keys_at(&self, now: i64) -> (materials: Vec<String>)
        ensures
            exists|pool: PoolView| #[trigger]
                self.seen_at(pool, now as int) && materials@.map_values(|m: String| m@)
                    == pool.materials_newest_first(),
            1 <= materials@.len(),
            self.guard().max_keys >= 1 ==> materials@.len() <= self.guard().max_keys,
            forall|i: int| 0 <= i < materials@.len() ==> is_key_text(#[trigger] materials@[i]@),
    {
        proof {
            use_type_invariant(self);
        }
        let (mut pool, handle) = self.key_dict.acquire_write();
        let materials = pool.all_valid_keys(now);
        assert(self.seen_at(pool@, now as int));
        handle.release_write(pool);
        materials
    }

    /// Every secret that is acceptable now, the newest first.
    pub fn get_all_valid_keys(&self) -> (materials: Vec<String>)
        ensures
            exists|pool: PoolView, now: int| #[trigger]
                self.seen_at(pool, now) && materials@.map_values(|m: String| m@)
                    == pool.materials_newest_first(),
            1 <= materials@.len(),
            self.guard().max_keys >= 1 ==> materials@.len() <= self.guard().max_keys,
            forall|i: int| 0 <= i < materials@.len() ==> is_key_text(#[trigger] materials@[i]@),
    {
        let now = read_clock().seconds;
        let materials = self.get_all_valid_keys_at(now);
        let ghost pool = choose|pool: PoolView| #[trigger]
            self.seen_at(pool, now as int) && materials@.map_values(|m: String| m@)
                == pool.materials_newest_first();
        assert(self.seen_at(pool, now as int));
        materials
    }

    /// Brings in a new random key made at `now` and returns its secret. The
    /// pool that the call leaves holds it.
    pub fn rotate_at(&self, now: i64) -> (material: String)
        ensures
            is_key_text(material@),
            exists|pool: PoolView| #[trigger]
                self.guard().admits(pool) && pool.holds(material@),
    {
        proof {
            use_type_invariant(self);
        }
        let (mut pool, handle) = self.key_dict.acquire_write();
        let material = pool.rotate(now);
        assert(self.guard().admits(pool@));
        handle.release_write(pool);
        material
    }

    /// Brings in a new random key now and returns its secret.
    pub fn rotate(&self) -> (material: String)
        ensures
            is_key_text(material@),
            exists|pool: PoolView| #[trigger]
                self.guard().admits(pool) && pool.holds(material@),
    {
        self.rotate_at(read_clock().seconds)
    }
}

} // verus!
