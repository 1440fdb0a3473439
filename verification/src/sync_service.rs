use std::sync::{Arc, Mutex, MutexGuard, PoisonError};
use vstd::prelude::*;

verus! {

/// `std::sync::Mutex`, an opaque value.
#[verifier::external_type_specification]
#[verifier::external_body]
#[verifier::reject_recursive_types(T)]
pub struct ExMutex<T: ?Sized>(Mutex<T>);

/// `std::sync::MutexGuard`, an opaque value.
#[verifier::external_type_specification]
#[verifier::external_body]
#[verifier::reject_recursive_types(T)]
pub struct ExMutexGuard<'a, T: ?Sized + 'a>(MutexGuard<'a, T>);

/// `std::sync::PoisonError`, an opaque value.
#[verifier::external_type_specification]
#[verifier::external_body]
#[verifier::reject_recursive_types(T)]
pub struct ExPoisonError<T>(PoisonError<T>);

/// `std::sync::Mutex::new` makes a lock around a value. Nothing is claimed of the lock: what it
/// holds is whatever its users leave in it.
pub assume_specification<T>[ Mutex::<T>::new ](value: T) -> (mutex: Mutex<T>)
;

/// `std::sync::Mutex::lock` waits for a lock and takes it. Nothing is claimed of the result:
/// whether the lock is poisoned depends on what its other users did. A thread that already holds
/// the lock must not ask for it: the call does not return then, or panics.
pub assume_specification<'a, T: ?Sized>[ Mutex::<T>::lock ](mutex: &'a Mutex<T>) -> (locked: Result<
    MutexGuard<'a, T>,
    PoisonError<MutexGuard<'a, T>>,
>)
;

/// A service whose lock is poisoned: a user of it panicked while holding it.
#[derive(Debug, Clone, Copy, PartialEq, Eq, Structural)]
pub struct Poisoned;

/// Shares a service between its users, one of whom holds it at a time.
#[verifier::reject_recursive_types(T)]
pub struct SyncService<T>(Arc<Mutex<T>>);

/// A service while its lock is held.
#[verifier::reject_recursive_types(T)]
pub struct ServiceGuard<'a, T> {
    /// The handle through which the lock was taken.
    pub handle: &'a SyncService<T>,
    /// The hold on the lock, through which the service is reached.
    pub guard: MutexGuard<'a, T>,
}

impl<T> SyncService<T> {
    /// The lock that the handles of one service share.
    pub closed spec fn lock(&self) -> Mutex<T> {
        *self.0
    }

    /// Whether the lock of this service is what `Mutex::new` makes of `service`. Handles that are
    /// cloned from each other share that lock.
    pub open spec fn made_from(&self, service: T) -> bool {
        call_ensures(Mutex::<T>::new, (service,), self.lock())
    }

    /// Whether `locked` is an answer of `Mutex::lock` on the lock of this service.
    pub open spec fn answers(
        &self,
        locked: Result<MutexGuard<'_, T>, PoisonError<MutexGuard<'_, T>>>,
    ) -> bool {
        call_ensures(Mutex::<T>::lock, (&self.lock(),), locked)
    }

    /// What comes of holding the service where its lock answered `locked`.
    pub open spec fn outcome<'a>(
        &'a self,
        locked: Result<MutexGuard<'a, T>, PoisonError<MutexGuard<'a, T>>>,
    ) -> Result<ServiceGuard<'a, T>, Poisoned> {
        match locked {
            Ok(guard) => Ok(ServiceGuard { handle: self, guard }),
            Err(_) => Err(Poisoned),
        }
    }

    /// Waits until nobody else holds the service, and holds it: the lock of this very service is
    /// asked, and what it answers decides. Whether it is poisoned is up to its other users. A thread
    /// that already holds the service must not ask for it again before it has let it go.
    pub fn get(&self) -> (held: Result<ServiceGuard<'_, T>, Poisoned>)
        ensures
            exists|locked: Result<MutexGuard<'_, T>, PoisonError<MutexGuard<'_, T>>>| #[trigger]
                self.answers(locked) && held == self.outcome(locked),
    {
        let lock = Mutex::<T>::lock;
        let locked = lock(&self.0);
        assert(self.answers(locked));
        self.held(locked)
    }

    /// What `get` returns once the lock has answered.
    pub fn held<'a>(
        &'a self,
        locked: Result<MutexGuard<'a, T>, PoisonError<MutexGuard<'a, T>>>,
    ) -> (held: Result<ServiceGuard<'a, T>, Poisoned>)
        ensures
            held == self.outcome(locked),
    {
        match locked {
            Ok(guard) => Ok(ServiceGuard { handle: self, guard }),
            Err(_) => Err(Poisoned),
        }
    }
}

impl<T> Clone for SyncService<T> {
    fn clone(&self) -> (handle: Self)
        ensures
            handle == *self,
    {
        SyncService(self.0.clone())
    }
}

impl<T> From<T> for SyncService<T> {
    /// A handle on a new lock around `service`.
    fn from(service: T) -> (handle: Self)
        ensures
            handle.made_from(service),
    {
        let make = Mutex::<T>::new;
        let mutex = make(service);
        SyncService(Arc::new(mutex))
    }
}

impl<T> vstd::std_specs::convert::FromSpecImpl<T> for SyncService<T> {
    open spec fn obeys_from_spec() -> bool {
        false
    }

    open spec fn from_spec(service: T) -> Self {
        arbitrary()
    }
}

/// What is known of a handle and of an answer comes from the lock alone: a handle that was made from
/// a service has a lock that `Mutex::new` makes of it, and an answer is one that `Mutex::lock` gives
/// on the handle's lock. Handles with the same lock are made from the same and answer alike.
pub proof fn the_lock_answers<T>(
    a: SyncService<T>,
    b: SyncService<T>,
    service: T,
    locked: Result<MutexGuard<'_, T>, PoisonError<MutexGuard<'_, T>>>,
)
    ensures
        a.made_from(service) ==> call_ensures(Mutex::<T>::new, (service,), a.lock()),
        a.answers(locked) ==> call_ensures(Mutex::<T>::lock, (&a.lock(),), locked),
        a.lock() == b.lock() ==> a.made_from(service) == b.made_from(service) && a.answers(locked)
            == b.answers(locked),
{
}

/// A lock that answers with a guard gives the service through this very handle with that guard, and
/// one that is poisoned gives none.
pub proof fn answer_decides_outcome<'a, T>(
    handle: &'a SyncService<T>,
    locked: Result<MutexGuard<'a, T>, PoisonError<MutexGuard<'a, T>>>,
)
    ensures
        handle.outcome(locked) is Ok <==> locked is Ok,
        locked matches Ok(guard) ==> handle.outcome(locked)->Ok_0.guard == guard,
        locked is Ok ==> *handle.outcome(locked)->Ok_0.handle == *handle,
        locked is Err ==> handle.outcome(locked) == Err::<ServiceGuard<'a, T>, Poisoned>(Poisoned),
{
}

} // verus!
