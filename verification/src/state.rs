//! Shared runtime state that decides: the task lock that lets one
//! trigger → generate → type session run at a time, its watchdog, and the
//! version counters that say when cached configuration must be reloaded.
use vstd::prelude::*;

use crate::error::AppError;

verus! {

/// A lock held longer than this many seconds is considered stuck.
pub const TASK_LOCK_WATCHDOG_SECS: u64 = 60;

/// The task lock: at most one session at a time.
#[derive(Debug, Clone, Copy, PartialEq, Eq)]
pub struct TaskLock {
    pub held: bool,
}

impl TaskLock {
    /// A free lock.
    pub fn new() -> (r: TaskLock)
        ensures
            !r.held,
    {
        TaskLock { held: false }
    }
}

/// The lock after an `acquire` (held, whether or not it succeeded).
pub open spec fn after_acquire(l: TaskLock) -> TaskLock {
    TaskLock { held: true }
}

/// Whether `acquire` succeeds on this lock.
pub open spec fn acquire_succeeds(l: TaskLock) -> bool {
    !l.held
}

/// The lock after a `release`.
pub open spec fn after_release(l: TaskLock) -> TaskLock {
    TaskLock { held: false }
}

/// Takes the lock; fails with `Busy`, leaving it held, when it is already held.
pub fn acquire(lock: &mut TaskLock) -> (r: Result<(), AppError>)
    ensures
        *final(lock) == after_acquire(*old(lock)),
        r is Ok <==> acquire_succeeds(*old(lock)),
        r is Err ==> r == Err::<(), AppError>(AppError::Busy),
{
    if lock.held {
        return Err(AppError::Busy);
    }
    lock.held = true;
    Ok(())
}

/// Frees the lock (freeing a free lock is harmless).
pub fn release(lock: &mut TaskLock)
    ensures
        *final(lock) == after_release(*old(lock)),
{
    lock.held = false;
}

/// Whatever its state, a lock can be taken right after a release, and
/// cannot be taken again right after being taken.
pub proof fn lemma_lock_cycle(l: TaskLock)
    ensures
        acquire_succeeds(after_release(l)),
        !acquire_succeeds(after_acquire(l)),
        acquire_succeeds(after_release(after_acquire(l))),
{
}

/// The lock together with the time (in milliseconds) it was last taken.
#[derive(Debug, Clone, Copy)]
pub struct GuardedLock {
    pub lock: TaskLock,
    pub acquired_at: Option<u64>,
}

/// The lock has been held for more than the watchdog limit at `now_ms`.
pub open spec fn is_stuck(acquired_at: Option<u64>, now_ms: u64) -> bool {
    match acquired_at {
        Some(t) => now_ms >= t && (now_ms - t) / 1000 > TASK_LOCK_WATCHDOG_SECS,
        None => false,
    }
}

impl GuardedLock {
    /// A free lock, never taken.
    pub fn new() -> (r: GuardedLock)
        ensures
            !r.lock.held,
            r.acquired_at is None,
    {
        GuardedLock { lock: TaskLock::new(), acquired_at: None }
    }

    /// Frees the lock and forgets when it was taken.
    pub fn release(&mut self)
        ensures
            !final(self).lock.held,
            final(self).acquired_at is None,
    {
        release(&mut self.lock);
        self.acquired_at = None;
    }

    /// Takes the lock at `now_ms`.  When it is held, the watchdog frees it
    /// if it has been held for more than the limit and takes it again;
    /// otherwise the trigger is refused (`false`).
    pub fn acquire_with_watchdog(&mut self, now_ms: u64) -> (r: bool)
        ensures
            r == (!old(self).lock.held || is_stuck(old(self).acquired_at, now_ms)),
            r ==> final(self).lock.held && final(self).acquired_at == Some(now_ms),
            !r ==> *final(self) == *old(self),
    {
        match acquire(&mut self.lock) {
            Ok(()) => {
                self.acquired_at = Some(now_ms);
                true
            },
            Err(_) => {
                let stuck = match self.acquired_at {
                    Some(t) => now_ms >= t && (now_ms - t) / 1000 > TASK_LOCK_WATCHDOG_SECS,
                    None => false,
                };
                if !stuck {
                    return false;
                }
                self.release();
                match acquire(&mut self.lock) {
                    Ok(()) => {
                        self.acquired_at = Some(now_ms);
                        true
                    },
                    Err(_) => false,
                }
            },
        }
    }
}

/// Version counters of the configuration and of the cached copy.
#[derive(Debug, Clone, Copy, PartialEq, Eq)]
pub struct CacheVersion {
    pub config_version: u64,
    pub loaded_version: u64,
}

impl CacheVersion {
    /// The initial counters: the cache starts out stale.
    pub fn new() -> (r: CacheVersion)
        ensures
            r.config_version == 1,
            r.loaded_version == 0,
    {
        CacheVersion { config_version: 1, loaded_version: 0 }
    }

    /// The cache must be reloaded.
    pub fn cache_stale(&self) -> (r: bool)
        ensures
            r == stale(*self),
    {
        self.loaded_version != self.config_version
    }

    /// Records that the cache now holds the current configuration.
    pub fn mark_cache_synced(&mut self)
        ensures
            *final(self) == after_sync(*old(self)),
    {
        self.loaded_version = self.config_version;
    }

    /// Records a configuration change (the counter wraps around at `u64::MAX`).
    pub fn invalidate_cache(&mut self)
        ensures
            *final(self) == after_invalidate(*old(self)),
    {
        self.config_version = if self.config_version == u64::MAX {
            0
        } else {
            self.config_version + 1
        };
    }
}

/// The counters after a sync.
pub open spec fn after_sync(v: CacheVersion) -> CacheVersion {
    CacheVersion { config_version: v.config_version, loaded_version: v.config_version }
}

/// The counters after a configuration change.
pub open spec fn after_invalidate(v: CacheVersion) -> CacheVersion {
    CacheVersion {
        config_version: if v.config_version == u64::MAX {
            0
        } else {
            (v.config_version + 1) as u64
        },
        loaded_version: v.loaded_version,
    }
}

/// The cache is stale.
pub open spec fn stale(v: CacheVersion) -> bool {
    v.loaded_version != v.config_version
}

/// After a sync the cache is fresh; a change after a sync makes it stale;
/// the initial counters are stale.
pub proof fn lemma_cache_cycle(v: CacheVersion)
    ensures
        !stale(after_sync(v)),
        stale(after_invalidate(after_sync(v))),
        !stale(after_sync(after_invalidate(v))),
        stale(CacheVersion { config_version: 1, loaded_version: 0 }),
{
}

} // verus!
