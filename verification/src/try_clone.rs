//! Duplication that can fail.

use vstd::prelude::*;

verus! {

/// A `clone` that reports failure instead of panicking.
pub trait TryClone: Sized {
    /// What a failed duplication is reported with.
    type Error;

    /// A duplicate of `self`, or the reason there is none.
    fn try_clone(&self) -> Result<Self, Self::Error>;

    /// Replaces `self` by a duplicate of `source`: one that `try_clone` could
    /// have returned for it. When the duplication fails `self` is as it was,
    /// and the error is the one `try_clone` gave.
    fn try_clone_from(&mut self, source: &Self) -> (r: Result<(), Self::Error>)
        ensures
            exists|made: Result<Self, Self::Error>|
                {
                    &&& call_ensures(Self::try_clone, (source,), made)
                    &&& match made {
                        Ok(copy) => r is Ok && *final(self) == copy,
                        Err(e) => r == Err::<(), Self::Error>(e) && *final(self) == *old(self),
                    }
                },
    {
        let made = source.try_clone();
        match made {
            Ok(copy) => {
                *self = copy;
                Ok(())
            },
            Err(e) => Err(e),
        }
    }
}

} // verus!
