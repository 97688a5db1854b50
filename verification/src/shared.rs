//! One observer behind a lock, driven through any number of handles.

use vstd::prelude::*;
use std::ops::DerefMut;
use std::sync::Arc;
use std::sync::Mutex;
use std::sync::MutexGuard;
use std::sync::PoisonError;
use crate::observer::Event;
use crate::observer::Observer;

verus! {

/// `std::sync::Mutex`, carried as an opaque value: nothing is said of what it
/// guards at any moment.
#[verifier::external_type_specification]
#[verifier::external_body]
#[verifier::reject_recursive_types(T)]
pub struct ExMutex<T: ?Sized>(Mutex<T>);

/// `std::sync::MutexGuard`, carried as an opaque value.
#[verifier::external_type_specification]
#[verifier::external_body]
#[verifier::reject_recursive_types(T)]
pub struct ExMutexGuard<'a, T: ?Sized + 'a>(MutexGuard<'a, T>);

/// `std::sync::PoisonError`, carried as an opaque value.
#[verifier::external_type_specification]
#[verifier::external_body]
#[verifier::reject_recursive_types(T)]
pub struct ExPoisonError<T>(PoisonError<T>);

/// `Mutex::new` makes a lock that guards `t`. Nothing is claimed of the lock.
pub assume_specification<T>[ Mutex::<T>::new ](t: T) -> (lock: Mutex<T>)
;

/// `Mutex::lock` waits until the lock is free and takes it; the error says
/// that an earlier holder panicked, and carries the guard all the same.
/// Nothing is claimed of either. The call does not return while the calling
/// thread already holds the lock.
pub assume_specification<'a, T: ?Sized>[ Mutex::<T>::lock ](lock: &'a Mutex<T>) -> (taken: Result<
    MutexGuard<'a, T>,
    PoisonError<MutexGuard<'a, T>>,
>)
;

/// `PoisonError::into_inner` gives up the guard that the error carries.
pub assume_specification<T>[ PoisonError::<T>::into_inner ](poisoned: PoisonError<T>) -> (guard: T)
;

/// `DerefMut::deref_mut` of a guard: the guarded value, for as long as the
/// guard is borrowed. Nothing is claimed of the value found there, since any
/// other holder of the lock may have changed it.
pub assume_specification<'a, 'b, T: ?Sized>[ <MutexGuard<'a, T> as DerefMut>::deref_mut ](
    guard: &'b mut MutexGuard<'a, T>,
) -> (value: &'b mut T)
;

/// `Arc::clone`: a second pointer to the same lock.
#[verifier::external_body]
fn share<O>(lock: &Arc<Mutex<O>>) -> (other: Arc<Mutex<O>>)
    ensures
        other == *lock,
{
    lock.clone()
}

/// Take the lock, also where a panic of an earlier holder has poisoned it:
/// every call through a handle reaches the observer.
fn enter<'a, O>(lock: &'a Mutex<O>) -> (guard: MutexGuard<'a, O>) {
    admitted(lock.lock())
}

/// Wrapper around an observer that allows for it to be shared, by keeping it
/// behind a reference-counted lock. Every call takes the lock, calls the
/// observer and releases the lock.
///
/// The lock is not re-entrant: an observer that, from within one of its
/// calls, calls a handle on itself waits for ever.
#[derive(Debug, Default)]
#[verifier::reject_recursive_types(O)]
pub struct SharedObserver<O>(Arc<Mutex<O>>);

impl<O> SharedObserver<O> {
    /// The lock that this handle points to.
    pub closed spec fn mutex(&self) -> Arc<Mutex<O>> {
        self.0
    }

    /// Create a new `SharedObserver` object, wrapping the provided observer.
    pub fn new(observer: O) -> Self {
        Self::over(Mutex::new(observer))
    }

    /// The first handle on `lock`.
    fn over(lock: Mutex<O>) -> (shared: Self)
        ensures
            shared.mutex() == lock,
    {
        SharedObserver(Arc::new(lock))
    }
}

/// What an attempt to take a lock has given: the guard itself where the lock
/// was sound, and the guard that the error carries where it was poisoned.
fn admitted<'a, O>(
    taken: Result<MutexGuard<'a, O>, PoisonError<MutexGuard<'a, O>>>,
) -> (guard: MutexGuard<'a, O>)
    ensures
        taken matches Ok(sound) ==> guard == sound,
{
    match taken {
        Ok(guard) => guard,
        Err(poisoned) => poisoned.into_inner(),
    }
}

impl<O> Clone for SharedObserver<O> {
    /// Another handle to the same observer.
    fn clone(&self) -> (handle: Self)
        ensures
            handle == *self,
    {
        SharedObserver(share(&self.0))
    }
}

impl<O> std::ops::Deref for SharedObserver<O> {
    type Target = Arc<Mutex<O>>;

    fn deref(&self) -> (lock: &Self::Target)
        ensures
            *lock == self.mutex(),
    {
        &self.0
    }
}

impl<O> std::ops::DerefMut for SharedObserver<O> {
    fn deref_mut(&mut self) -> (lock: &mut Self::Target)
        ensures
            *lock == old(self).mutex(),
            final(self).mutex() == *final(lock),
    {
        &mut self.0
    }
}

impl<O, T, E> Observer<T, E> for SharedObserver<O> where O: Observer<T, E>, T: Send, E: Send {
    /// Other handles may drive the observer between any two calls of this
    /// one, so a call is known to be in order only where the observer takes
    /// every event in every state.
    open spec fn accepts(&self, event: Event<T>) -> bool {
        forall|observer: O, any: Event<T>| #[trigger] observer.accepts(any)
    }

    /// The handle is unchanged, and the result is one that the observer gives
    /// to this event in some state.
    open spec fn step(pre: &Self, event: Event<T>, post: &Self, result: Result<(), E>) -> bool {
        &&& *post == *pre
        &&& exists|before: O, after: O| #[trigger] O::step(&before, event, &after, result)
    }

    fn on_start(&mut self) -> (result: Result<(), E>) {
        let mut guard = enter(&self.0);
        guard.deref_mut().on_start()
    }

    fn on_commit(&mut self) -> (result: Result<(), E>) {
        let mut guard = enter(&self.0);
        guard.deref_mut().on_commit()
    }

    fn on_updates<I: Iterator<Item = T>>(&mut self, updates: I) -> (result: Result<(), E>) {
        let mut guard = enter(&self.0);
        guard.deref_mut().on_updates(updates)
    }

    fn on_completed(&mut self) -> (result: Result<(), E>) {
        let mut guard = enter(&self.0);
        guard.deref_mut().on_completed()
    }
}

} // verus!
