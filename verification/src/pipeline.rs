//! Sizing of the conversion pipeline `[Source] ==> [Transformer] ==> [Sink]`.

use vstd::prelude::*;

verus! {

/// How many parcels the channel out of the source stage holds.
pub const SOURCE_OUTPUT_CHANNEL_BOUND: usize = 10000;

/// How many parcels the channel out of the transformer stage holds.
pub const TRANSFORMER_OUTPUT_CHANNEL_BOUND: usize = 10000;

/// The thread count of the source and sink stages' thread pools: three
/// threads per unit of available parallelism, or one when it is unknown.
pub fn pool_thread_count(available_parallelism: Option<usize>) -> (n: usize)
    requires
        available_parallelism matches Some(p) ==> p * 3 <= usize::MAX,
    ensures
        n == match available_parallelism {
            Some(p) => p * 3,
            None => 1,
        },
{
    match available_parallelism {
        Some(p) => p * 3,
        None => 1,
    }
}

} // verus!
