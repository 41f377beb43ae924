use vstd::prelude::*;

verus! {

/// Wraps a fallible computation whose error is only reported, not passed
/// on: the RPC layer sees a bare failure.
#[derive(Debug)]
pub struct TowerError<Fut> {
    future: Fut,
}

impl<Fut> TowerError<Fut> {
    pub closed spec fn spec_future(&self) -> Fut {
        self.future
    }

    /// Wraps `future`.
    pub fn new(future: Fut) -> (t: TowerError<Fut>)
        ensures
            t.spec_future() == future,
    {
        TowerError { future }
    }

    /// The wrapped computation, to be driven by the caller.
    pub fn future_mut(&mut self) -> (f: &mut Fut)
        ensures
            *f == old(self).spec_future(),
            final(self).spec_future() == *final(f),
    {
        &mut self.future
    }

    /// The outcome passed on for the outcome of the wrapped computation: a
    /// value is passed on as it is, an error becomes a bare failure.
    pub fn settle<T, E>(outcome: core::result::Result<T, E>) -> (r: core::result::Result<T, ()>)
        ensures
            match outcome {
                Ok(v) => r == Ok::<T, ()>(v),
                Err(_) => r == Err::<T, ()>(()),
            },
    {
        match outcome {
            Ok(v) => Ok(v),
            Err(_) => Err(()),
        }
    }
}

} // verus!
