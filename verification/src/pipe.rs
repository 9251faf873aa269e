//! A postfix helper for applying a function to a value.

use vstd::prelude::*;

verus! {

/// Feed a value through a function, written postfix.
pub trait Pipe: Sized {
    /// `f(self)`.
    fn pipe<T, F: FnOnce(Self) -> T>(self, f: F) -> (r: T)
        requires
            call_requires(f, (self,)),
        ensures
            call_ensures(f, (self,), r),
    ;
}

impl<X> Pipe for X {
    fn pipe<T, F: FnOnce(X) -> T>(self, f: F) -> (r: T) {
        f(self)
    }
}

} // verus!
