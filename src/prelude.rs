use vstd::prelude::*;

verus! {

/// A wrapper that gives a borrowed value a type of its own.
pub struct W<T>(pub T);

} // verus!
