use vstd::prelude::*;

verus! {

/// Two tasks run side by side.
pub struct Join<A, B> {
    pub a: A,
    pub b: B,
}

/// Runs one future to completion.
pub struct Executor<F: core::future::Future> {
    future: F,
}

impl<F: core::future::Future> Executor<F> {
    /// The future that the executor runs.
    pub closed spec fn spec_future(&self) -> F {
        self.future
    }

    /// An executor for `future`.
    pub fn new(future: F) -> (e: Self)
        ensures
            e.spec_future() == future,
    {
        Self { future }
    }

    /// The future, taken out of the executor to be polled.
    pub fn into_future(self) -> (f: F)
        ensures
            f == self.spec_future(),
    {
        self.future
    }
}

} // verus!
