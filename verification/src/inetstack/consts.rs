//! Constants of the network stack.

use vstd::prelude::*;

verus! {

/// Largest number of packets that are handed over at once.
pub const MAX_BATCH_SIZE_NUM_PACKETS: usize = 4;

} // verus!
