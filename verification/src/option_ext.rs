//! A test on the value of an option.

use vstd::prelude::*;

verus! {

/// Keeps the value of an option where it passes the test `f`, and drops it
/// where it does not.
pub fn and_check<T, F: FnOnce(&T) -> bool>(value: Option<T>, f: F) -> (kept: Option<T>)
    requires
        value matches Some(x) ==> call_requires(f, (&x,)),
    ensures
        match value {
            Some(x) => (kept == Some(x) && call_ensures(f, (&x,), true)) || (kept is None
                && call_ensures(f, (&x,), false)),
            None => kept is None,
        },
{
    match value {
        Some(x) => if f(&x) {
            Some(x)
        } else {
            None
        },
        None => None,
    }
}

} // verus!
