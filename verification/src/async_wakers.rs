use vstd::prelude::*;
use vstd::rwlock::{RwLock, RwLockPredicate, WriteHandle};
use std::sync::Arc;
use std::task::Waker;

use crate::shared::share;
use crate::wakers::WakeSignal;

verus! {

/// `std::task::Waker`, carried through as an opaque value.
#[verifier::external_type_specification]
#[verifier::external_body]
pub struct ExWaker(Waker);

/// Calls `Waker::wake_by_ref`: asks the executor to poll the waker's task
/// again. Nothing is claimed of what the executor does.
#[verifier::external_body]
fn wake_task(waker: &Waker) {
    waker.wake_by_ref();
}

/// Calls `Waker::clone`: a second waker for the same task. Nothing is
/// claimed of the result.
#[verifier::external_body]
pub(crate) fn clone_waker(waker: &Waker) -> Waker {
    waker.clone()
}

/// The lock invariant of the woken flag: any value is allowed.
pub struct WokenFlag;

impl RwLockPredicate<bool> for WokenFlag {
    open spec fn inv(self, v: bool) -> bool {
        true
    }
}

/// A wake signal for a task that waits on a channel.
///
/// Clones share one woken flag, guarded by one lock; each clone keeps its own
/// task waker.
pub struct AsyncWaker {
    woken: Arc<RwLock<bool, WokenFlag>>,
    task_waker: Arc<Waker>,
}

impl AsyncWaker {
    /// The task waker that this handle wakes.
    pub closed spec fn waker(&self) -> Waker {
        *self.task_waker
    }

    /// The lock that holds the woken flag shared by all clones.
    pub closed spec fn flag(&self) -> RwLock<bool, WokenFlag> {
        *self.woken
    }

    /// Creates a signal for `waker`'s task, not yet woken.
    pub fn new(waker: Waker) -> (r: Self)
        ensures
            r.waker() == waker,
    {
        AsyncWaker {
            woken: Arc::new(RwLock::new(false, Ghost(WokenFlag))),
            task_waker: Arc::new(waker),
        }
    }

    /// Takes the lock on the shared flag; returns the flag and the guard
    /// that [`AsyncWaker::unlock`] gives back.
    pub fn lock(&self) -> (r: (bool, WriteHandle<'_, bool, WokenFlag>))
        ensures
            r.1.rwlock() == self.flag(),
    {
        self.woken.acquire_write()
    }

    /// Stores `woken` in the shared flag and releases the lock that `guard`
    /// holds.
    pub fn unlock(&self, guard: WriteHandle<'_, bool, WokenFlag>, woken: bool) {
        guard.release_write(woken);
    }

    /// Switches to `waker`; if a wake-up has already come, `waker` is woken
    /// at once so that it is not lost.
    pub fn update_waker(&mut self, waker: Waker)
        ensures
            final(self).waker() == waker,
            final(self).flag() == old(self).flag(),
    {
        let (woken, guard) = self.lock();
        if woken {
            wake_task(&waker);
        }
        self.unlock(guard, woken);
        self.task_waker = Arc::new(waker);
    }
}

impl Clone for AsyncWaker {
    fn clone(&self) -> (r: Self)
        ensures
            r.waker() == self.waker(),
            r.flag() == self.flag(),
    {
        AsyncWaker { woken: share(&self.woken), task_waker: share(&self.task_waker) }
    }
}

impl WakeSignal for AsyncWaker {
    /// A task's wake-up is always delivered.
    open spec fn delivers(&self) -> bool {
        true
    }

    /// Marks the shared flag as woken and wakes the task; always delivered.
    fn wake(&self) -> (r: bool)
        ensures
            r,
    {
        let (_, guard) = self.lock();
        wake_task(&self.task_waker);
        self.unlock(guard, true);
        true
    }
}

impl From<AsyncWaker> for Box<dyn WakeSignal> {
    fn from(w: AsyncWaker) -> (r: Box<dyn WakeSignal>) {
        Box::new(w)
    }
}

impl vstd::std_specs::convert::FromSpecImpl<AsyncWaker> for Box<dyn WakeSignal> {
    open spec fn obeys_from_spec() -> bool {
        true
    }

    open spec fn from_spec(v: AsyncWaker) -> Box<dyn WakeSignal> {
        Box::new(v)
    }
}

} // verus!
