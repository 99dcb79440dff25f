//! The source of randomness: one generator behind a lock, so that it can be
//! shared and drawn from through a shared reference.

use rand::rngs::StdRng;
use rand::Rng;
use std::ops::Range;
use std::sync::Mutex;
use vstd::prelude::*;

verus! {

/// The generator type `rand::rngs::StdRng`. Its state is opaque here.
#[verifier::external_type_specification]
#[verifier::external_body]
pub struct ExStdRng(StdRng);

/// The lock type `std::sync::Mutex`. What it guards is opaque here.
#[verifier::external_type_specification]
#[verifier::external_body]
#[verifier::reject_recursive_types(T)]
pub struct ExMutex<T: ?Sized>(Mutex<T>);

/// `std::sync::Mutex::new` wraps a value in a lock. Nothing is claimed of the
/// lock but that it exists.
pub assume_specification<T>[ Mutex::<T>::new ](t: T) -> (lock: Mutex<T>);

/// A random number generator that several users can share. Each draw takes
/// the lock for the time of the draw.
pub struct RngResource(Mutex<StdRng>);

impl RngResource {
    /// Puts a seeded generator behind a lock.
    pub fn new(rng: StdRng) -> (resource: Self) {
        RngResource(Mutex::new(rng))
    }

    /// A uniformly distributed number of the half-open range `range`.
    ///
    /// Calls `rand::Rng::gen_range` on the generator, under the lock. That
    /// function panics on an empty range, which the precondition excludes,
    /// and returns a number of the range otherwise: this is all that is
    /// claimed of the result, for it differs from draw to draw. The lock
    /// cannot be poisoned by a draw that meets the precondition.
    #[verifier::external_body]
    pub fn random_in_range(&self, range: Range<u64>) -> (value: u64)
        requires
            range.start < range.end,
        ensures
            range.start <= value < range.end,
    {
        self.0.lock().unwrap().gen_range(range)
    }

    /// A uniformly distributed number of the whole range of `u64`.
    ///
    /// Calls `rand::Rng::gen` on the generator, under the lock. Nothing is
    /// claimed of the result.
    #[verifier::external_body]
    pub fn random(&self) -> (value: u64) {
        self.0.lock().unwrap().gen()
    }
}

} // verus!
