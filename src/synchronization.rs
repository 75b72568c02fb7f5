//! Synchronization primitives.

use vstd::prelude::*;

verus! {

/// Exclusive access to the data held inside for the duration of a closure.
///
/// The closure receives the current value and hands back the new value together with its
/// result, so the lock's contract can relate the value before and after each call.
pub trait Mutex {
    /// The type of encapsulated data.
    type Data;

    /// The value currently held.
    spec fn data(&self) -> Self::Data;

    /// Runs `f` on the held value, stores the value `f` produces and returns `f`'s result.
    fn lock<R, F: FnOnce(&Self::Data) -> (Self::Data, R)>(&mut self, f: F) -> (r: R)
        requires
            f.requires((&old(self).data(),)),
        ensures
            f.ensures((&old(self).data(),), (final(self).data(), r)),
    ;
}

/// A lock that polices nothing: it is sound only while the kernel runs on a single core
/// with interrupts masked, and must be replaced by a real mutex before more cores run.
pub struct NullLock<T> {
    data: T,
}

impl<T> NullLock<T> {
    /// Wraps `data` into a new `NullLock`.
    pub fn new(data: T) -> (r: Self)
        ensures
            r.data() == data,
    {
        NullLock { data }
    }
}

impl<T> Mutex for NullLock<T> {
    type Data = T;

    closed spec fn data(&self) -> T {
        self.data
    }

    /// Returns exactly `f`'s result, and the value `f` produced is the one that the next
    /// `lock` call receives.
    fn lock<R, F: FnOnce(&T) -> (T, R)>(&mut self, f: F) -> (r: R) {
        let (d, r) = f(&self.data);
        self.data = d;
        r
    }
}

} // verus!
