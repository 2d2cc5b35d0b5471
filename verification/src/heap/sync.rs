//! The monitor of an object: which thread holds it, how many times it entered it, and which
//! thread gave it up to wait.
//!
//! The lock decides; blocking and waking threads is left to its caller. An entry that is
//! refused is to be tried again once the monitor is released, and a release that empties the
//! monitor is to wake the threads waiting for it.

use vstd::prelude::*;

verus! {

/// The model of an object lock.
pub struct LockState {
    /// The thread holding the lock, by its reference; 0 when nobody holds it.
    pub holder: u32,
    /// The number of times the holder entered the lock without leaving it.
    pub lock_count: usize,
    /// The thread that gave up the lock to wait for a notification, 0 when none did since the
    /// lock was last taken.
    pub waiting: u32,
}

/// Whether a lock state is consistent: the lock is held exactly when it was entered.
pub open spec fn lock_wf(s: LockState) -> bool {
    (s.holder == 0) == (s.lock_count == 0)
}

/// What an attempt to enter a monitor came to.
#[derive(Debug, PartialEq, Eq, Structural)]
pub enum Entry {
    /// The monitor was free; the thread now holds it once.
    Acquired,
    /// The thread already held the monitor, and holds it once more.
    Reentered,
    /// Another thread holds the monitor; nothing changed, and the thread is to try again
    /// once the monitor is released.
    Blocked,
}

/// Entering the monitor of a lock in state `s` by `object`: the next state and the outcome.
pub open spec fn enter_spec(s: LockState, object: u32) -> (LockState, Entry) {
    if s.holder == 0 {
        (LockState { holder: object, lock_count: 1, waiting: 0 }, Entry::Acquired)
    } else if s.holder == object {
        (LockState { lock_count: (s.lock_count + 1) as usize, ..s }, Entry::Reentered)
    } else {
        (s, Entry::Blocked)
    }
}

/// Leaving the monitor of a lock in state `s` held by `object`: the next state, and whether
/// the monitor was released, so that the threads waiting for it are to be woken.
pub open spec fn exit_spec(s: LockState, object: u32) -> (LockState, bool) {
    if s.lock_count == 1 {
        (LockState { holder: 0, lock_count: 0, waiting: 0 }, true)
    } else {
        (LockState { lock_count: (s.lock_count - 1) as usize, ..s }, false)
    }
}

/// The lock of an object's monitor.
pub struct ObjectLock {
    holder: u32,
    lock_count: usize,
    waiting: u32,
}

impl View for ObjectLock {
    type V = LockState;

    closed spec fn view(&self) -> LockState {
        LockState { holder: self.holder, lock_count: self.lock_count, waiting: self.waiting }
    }
}

impl ObjectLock {
    /// A lock nobody holds.
    pub fn new() -> (l: Self)
        ensures
            l@ == (LockState { holder: 0, lock_count: 0, waiting: 0 }),
            lock_wf(l@),
    {
        ObjectLock { holder: 0, lock_count: 0, waiting: 0 }
    }

    /// Enter the monitor for the thread `object`, which must not be the null reference.
    pub fn enter_monitor(&mut self, object: u32) -> (entry: Entry)
        requires
            object != 0,
            lock_wf(old(self)@),
            old(self)@.holder == object ==> old(self)@.lock_count < usize::MAX,
        ensures
            (final(self)@, entry) == enter_spec(old(self)@, object),
            lock_wf(final(self)@),
    {
        if self.holder == 0 {
            // If not held, we hold.
            self.holder = object;
            self.lock_count = 1;
            self.waiting = 0;
            Entry::Acquired
        } else if self.holder == object {
            // If already held by us, we increment.
            self.lock_count += 1;
            Entry::Reentered
        } else {
            // We cannot hold this lock until it is released.
            Entry::Blocked
        }
    }

    /// Leave the monitor held by the thread `object`; returns whether the monitor was
    /// released, so that the threads waiting for it are to be woken.
    pub fn exit_monitor(&mut self, object: u32) -> (released: bool)
        requires
            lock_wf(old(self)@),
            old(self)@.holder == object,
            object != 0,
        ensures
            (final(self)@, released) == exit_spec(old(self)@, object),
            lock_wf(final(self)@),
    {
        if self.lock_count == 1 {
            // Drop the entire lock if this was the last entry.
            self.holder = 0;
            self.lock_count = 0;
            self.waiting = 0;
            true
        } else {
            // Drop one entry.
            self.lock_count -= 1;
            false
        }
    }

    /// Give up the monitor held by the thread `object` entirely, to wait for a notification;
    /// returns the number of entries to restore once it is taken back.
    pub fn wait(&mut self, object: u32) -> (lock_count: usize)
        requires
            lock_wf(old(self)@),
            old(self)@.holder == object,
            object != 0,
        ensures
            lock_count == old(self)@.lock_count,
            final(self)@ == (LockState { holder: 0, lock_count: 0, waiting: object }),
            lock_wf(final(self)@),
    {
        // Save the number of entries to re-establish on leaving.
        let lock_count = self.lock_count;
        self.holder = 0;
        self.lock_count = 0;
        self.waiting = object;
        lock_count
    }

    /// After a wait, take the monitor back for the thread `object` with its `lock_count`
    /// entries, if nobody holds it; returns whether it was taken.
    pub fn resume(&mut self, object: u32, lock_count: usize) -> (taken: bool)
        requires
            lock_wf(old(self)@),
            object != 0,
            lock_count > 0,
        ensures
            taken == (old(self)@.holder == 0),
            final(self)@ == if taken {
                LockState { holder: object, lock_count, waiting: 0 }
            } else {
                old(self)@
            },
            lock_wf(final(self)@),
    {
        if self.holder == 0 {
            self.holder = object;
            self.lock_count = lock_count;
            self.waiting = 0;
            true
        } else {
            false
        }
    }

    /// The thread holding the lock, 0 when nobody does, and how many times it entered it.
    pub fn state(&self) -> (s: (u32, usize))
        ensures
            s.0 == self@.holder,
            s.1 == self@.lock_count,
    {
        (self.holder, self.lock_count)
    }

    /// Check that the thread `object` holds the monitor before it notifies one waiting
    /// thread; the notification itself is the caller's to send.
    pub fn notify_one(&self, object: u32)
        requires
            self@.holder == object,
    {
    }

    /// Check that the thread `object` holds the monitor before it notifies every waiting
    /// thread; the notification itself is the caller's to send.
    pub fn notify_all(&self, object: u32)
        requires
            self@.holder == object,
    {
    }
}

/// Entering a monitor and then leaving it restores who holds it and how many times: a thread
/// that holds the monitor still holds it as often as before, and a free monitor is free again.
pub proof fn law_enter_then_exit(s: LockState, object: u32)
    requires
        lock_wf(s),
        object != 0,
        s.holder == object ==> s.lock_count < usize::MAX,
        enter_spec(s, object).1 != Entry::Blocked,
    ensures
        enter_spec(s, object).0.holder == object,
        exit_spec(enter_spec(s, object).0, object).0.holder == s.holder,
        exit_spec(enter_spec(s, object).0, object).0.lock_count == s.lock_count,
        exit_spec(enter_spec(s, object).0, object).1 == (s.holder == 0),
{
}

/// A monitor held by one thread refuses every other thread, and is left unchanged by it.
pub proof fn law_mutual_exclusion(s: LockState, holder: u32, other: u32)
    requires
        lock_wf(s),
        s.holder == holder,
        holder != 0,
        other != holder,
        other != 0,
    ensures
        enter_spec(s, other) == (s, Entry::Blocked),
{
}

} // verus!
