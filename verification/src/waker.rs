use vstd::prelude::*;

use core::task::Waker;

verus! {

/// The task waker of the standard library, carried through as an opaque value.
#[verifier::external_type_specification]
#[verifier::external_body]
pub struct ExWaker(Waker);

/// Calls `Waker::wake`, which schedules the task the waker belongs to. Nothing
/// is claimed of it: it returns nothing and the waker is consumed.
#[verifier::external_body]
pub(crate) fn wake(waker: Waker) {
    waker.wake()
}

/// Calls `Waker::clone`, which gives a waker for the same task. Nothing is
/// claimed of the copy.
#[verifier::external_body]
pub(crate) fn clone_waker(waker: &Waker) -> Waker {
    waker.clone()
}

/// Calls `Waker::will_wake`, which tells whether two wakers would wake the
/// same task. Nothing is claimed of the answer: it compares the wakers' data
/// and function tables, and may say `false` for wakers of one task.
#[verifier::external_body]
pub(crate) fn will_wake(waker: &Waker, other: &Waker) -> bool {
    waker.will_wake(other)
}

} // verus!
