//! Calls whose outcome a contract speaks of.

use vstd::prelude::*;

verus! {

/// Calls `f` with `argument`. The result is one that `f` may give, so a contract can say of which
/// call it is the outcome, where nothing else is known of it.
pub(crate) fn apply<A, B, F>(f: F, argument: A) -> (result: B)
    where F: FnOnce(A) -> B
    requires
        call_requires(f, (argument,)),
    ensures
        call_ensures(f, (argument,), result),
{
    f(argument)
}

} // verus!
