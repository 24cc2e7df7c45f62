//! Waiting for a lock from calls that must not block.
//!
//! A [`PollMutex`] keeps its place in the queue for a mutex from one call to the next: it holds on
//! to the future that waits in the queue until that future has the lock. `M` is a handle to the
//! mutex, `F` a future that waits for it, and `G` the mutex, locked.
use crate::poll::Poll;
use vstd::prelude::*;

verus! {

/// A mutex, and a place in the queue for it if one is held.
#[derive(Debug)]
pub struct PollMutex<M, F> {
    pub mutex: M,
    pub fut: Option<F>,
}

/// What comes next in an attempt to lock without blocking.
#[derive(Debug)]
pub enum LockStep<G> {
    /// Try to lock the mutex; if it is locked, queue up for it.
    TryLock,
    /// Poll the future that waits in the queue.
    PollFuture,
    /// Return this to the caller.
    Return(Poll<G>),
}

/// How to lock from code that can wait.
#[derive(Debug)]
pub enum LockPlan<F> {
    /// Wait on a place in the queue that is held already.
    Await(F),
    /// Queue up for the mutex.
    Lock,
}

impl<M, F> PollMutex<M, F> {
    /// No place in the queue is held.
    pub fn new(mutex: M) -> (r: Self)
        ensures
            r.mutex == mutex,
            r.fut is None,
    {
        Self { mutex, fut: None }
    }

    /// Begins an attempt to lock: from the place in the queue, if one is held.
    pub fn poll_lock<G>(&self) -> (r: LockStep<G>)
        ensures
            r == if self.fut is Some {
                LockStep::<G>::PollFuture
            } else {
                LockStep::<G>::TryLock
            },
    {
        match &self.fut {
            Some(_) => LockStep::PollFuture,
            None => LockStep::TryLock,
        }
    }

    /// Goes on after trying to lock the mutex: with the lock, or with a place in the queue.
    pub fn tried<G>(&mut self, tried: Result<G, F>) -> (r: LockStep<G>)
        requires
            old(self).fut is None,
        ensures
            final(self).mutex == old(self).mutex,
            match tried {
                Ok(guard) => {
                    &&& r == LockStep::Return(Poll::Ready(guard))
                    &&& final(self).fut is None
                },
                Err(fut) => {
                    &&& r == LockStep::<G>::PollFuture
                    &&& final(self).fut == Some(fut)
                },
            },
    {
        match tried {
            Ok(guard) => LockStep::Return(Poll::Ready(guard)),
            Err(fut) => {
                self.fut = Some(fut);
                LockStep::PollFuture
            },
        }
    }

    /// Goes on after polling the place in the queue, which is kept until it has given the lock.
    pub fn polled<G>(&mut self, outcome: Poll<G>) -> (r: LockStep<G>)
        requires
            old(self).fut is Some,
        ensures
            final(self).mutex == old(self).mutex,
            r == LockStep::Return(outcome),
            final(self).fut == match outcome {
                Poll::Ready(_) => None,
                Poll::Pending => old(self).fut,
            },
    {
        match outcome {
            Poll::Ready(guard) => {
                self.fut = None;
                LockStep::Return(Poll::Ready(guard))
            },
            Poll::Pending => LockStep::Return(Poll::Pending),
        }
    }

    /// How to lock from code that can wait. A place in the queue is used up.
    pub fn lock(&mut self) -> (r: LockPlan<F>)
        ensures
            final(self).mutex == old(self).mutex,
            final(self).fut is None,
            r == match old(self).fut {
                Some(fut) => LockPlan::Await(fut),
                None => LockPlan::Lock,
            },
    {
        match self.fut.take() {
            Some(fut) => LockPlan::Await(fut),
            None => LockPlan::Lock,
        }
    }
}

impl<M: Clone, F> PollMutex<M, F> {
    /// Passes the place in the queue on.
    pub fn take_token(&mut self) -> (r: Self)
        ensures
            cloned(old(self).mutex, r.mutex),
            r.fut == old(self).fut,
            final(self).mutex == old(self).mutex,
            final(self).fut is None,
    {
        let mutex: M = self.mutex.clone();
        Self { mutex, fut: self.fut.take() }
    }

    /// Becomes what `source` is, without its place in the queue. `same` says that both are for one
    /// mutex already.
    pub fn clone_from(&mut self, source: &Self, same: bool)
        ensures
            final(self).fut is None,
            if same {
                final(self).mutex == old(self).mutex
            } else {
                cloned(source.mutex, final(self).mutex)
            },
    {
        self.fut = None;
        if same {
            return;
        }
        self.mutex = source.mutex.clone();
    }
}

/// A clone is for the same mutex, and has no place in the queue.
impl<M: Clone, F> Clone for PollMutex<M, F> {
    fn clone(&self) -> (r: Self)
        ensures
            cloned(self.mutex, r.mutex),
            r.fut is None,
    {
        Self { mutex: self.mutex.clone(), fut: None }
    }
}

/// A place in the queue for the mutex is held from the moment in which the mutex was found locked to
/// that in which it gives the lock, and is asked first as long as it is held. The lock that a caller
/// is given is the one that was got. The mutex stays the same.
pub proof fn law_place_in_the_queue<M, F, G>(
    fresh: PollMutex<M, F>,
    mutex: M,
    begun: LockStep<G>,
    tried: Result<G, F>,
    outcome: Poll<G>,
    r: LockStep<G>,
    plan: LockPlan<F>,
)
    ensures
        call_ensures(PollMutex::<M, F>::new, (mutex,), fresh) ==> fresh.mutex == mutex && fresh.fut
            is None,
        call_ensures(PollMutex::<M, F>::poll_lock::<G>, (&fresh,), begun) ==> {
            &&& begun is PollFuture <==> fresh.fut is Some
            &&& begun is TryLock <==> fresh.fut is None
        },
        forall|lock: &mut PollMutex<M, F>| #[trigger]
            call_ensures(PollMutex::<M, F>::tried::<G>, (lock, tried), r) ==> {
                &&& final(lock).mutex == lock.mutex
                &&& r is PollFuture <==> tried is Err
                &&& final(lock).fut is Some <==> tried is Err
                &&& tried matches Err(place) ==> final(lock).fut == Some(place)
                &&& tried matches Ok(guard) ==> r == LockStep::Return(Poll::Ready(guard))
            },
        forall|lock: &mut PollMutex<M, F>| #[trigger]
            call_ensures(PollMutex::<M, F>::polled::<G>, (lock, outcome), r) ==> {
                &&& final(lock).mutex == lock.mutex
                &&& r == LockStep::Return(outcome)
                &&& outcome is Ready ==> final(lock).fut is None
                &&& outcome is Pending ==> final(lock).fut == lock.fut
            },
        forall|lock: &mut PollMutex<M, F>| #[trigger]
            call_ensures(PollMutex::<M, F>::lock, (lock,), plan) ==> {
                &&& final(lock).mutex == lock.mutex
                &&& final(lock).fut is None
                &&& plan is Lock <==> lock.fut is None
                &&& plan matches LockPlan::Await(place) ==> lock.fut == Some(place)
            },
{
}

/// A place in the queue is passed on, never copied: of two that are for one mutex only one has it.
pub proof fn law_place_is_not_copied<M: Clone, F>(
    taken: PollMutex<M, F>,
    source: PollMutex<M, F>,
    same: bool,
)
    ensures
        call_ensures(<PollMutex<M, F> as Clone>::clone, (&source,), taken) ==> taken.fut is None
            && cloned(source.mutex, taken.mutex),
        forall|lock: &mut PollMutex<M, F>| #[trigger]
            call_ensures(PollMutex::<M, F>::take_token, (lock,), taken) ==> {
                &&& taken.fut == lock.fut
                &&& cloned(lock.mutex, taken.mutex)
                &&& final(lock).fut is None
                &&& final(lock).mutex == lock.mutex
            },
        forall|lock: &mut PollMutex<M, F>| #[trigger]
            call_ensures(PollMutex::<M, F>::clone_from, (lock, &source, same), ()) ==> {
                &&& final(lock).fut is None
                &&& same ==> final(lock).mutex == lock.mutex
                &&& !same ==> cloned(source.mutex, final(lock).mutex)
            },
{
}

} // verus!
