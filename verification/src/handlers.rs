use vstd::prelude::*;

verus! {

/// The handler of an ordinary probe: its acknowledgement needs no further
/// work.
#[derive(Clone, Copy, Debug)]
pub struct PingHandler;

} // verus!
