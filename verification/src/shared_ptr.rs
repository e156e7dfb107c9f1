use vstd::prelude::*;
use std::rc::Rc;
use std::sync::Mutex;
use std::sync::MutexGuard;

verus! {

/// `std::sync::Mutex`, carried through as it is: nothing is known of what a
/// mutex holds.
#[verifier::external_type_specification]
#[verifier::external_body]
#[verifier::reject_recursive_types(T)]
pub struct ExMutex<T: ?Sized>(Mutex<T>);

/// `std::sync::MutexGuard`, carried through as it is: nothing is known of
/// what a guard gives access to.
#[verifier::external_type_specification]
#[verifier::external_body]
#[verifier::reject_recursive_types(T)]
pub struct ExMutexGuard<'a, T: ?Sized + 'a>(MutexGuard<'a, T>);

/// `std::sync::Mutex::new`: a mutex around the value. Nothing is claimed of
/// the result.
pub assume_specification<T>[ Mutex::<T>::new ](t: T) -> (mutex: Mutex<T>);

/// `std::sync::Mutex::try_lock`, with its error dropped: the guard, or
/// nothing where the mutex is held already or poisoned. The call neither
/// waits nor panics. Nothing is claimed of the result.
#[verifier::external_body]
fn try_lock<T>(mutex: &Mutex<T>) -> (guard: Option<MutexGuard<'_, T>>) {
    mutex.try_lock().ok()
}

/// A value with several owners in one thread, each of which may change it
/// while it holds the lock.
#[verifier::reject_recursive_types(T)]
pub struct SharedPtr<T>(Rc<Mutex<T>>);

impl<T> Clone for SharedPtr<T> {
    /// One more owner of the same value.
    fn clone(&self) -> (other: Self) {
        Self(self.0.clone())
    }
}

impl<T> SharedPtr<T> {
    /// A shared value with one owner.
    pub fn new(v: T) -> (shared: Self) {
        Self(Rc::new(Mutex::new(v)))
    }

    /// Takes the lock and gives access to the value until the guard is
    /// dropped. There is no guard to be had while another one is alive, or
    /// after an owner panicked while it held one.
    pub fn lock(&self) -> (guard: Option<MutexGuard<'_, T>>) {
        try_lock(&*self.0)
    }
}

} // verus!
