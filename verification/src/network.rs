//! Setting up the network stack of the Wi-Fi circuits.
use vstd::prelude::*;

verus! {

/// The port the web servers listen on.
pub const HTTP_PORT: u16 = 80;

/// The size of the buffer a request is read into.
pub const REQUEST_BUFFER_LEN: usize = 1024;

/// The seed of the network stack from two random words: the first gives the
/// high half, the second the low half.
pub open spec fn seed_spec(high: u32, low: u32) -> nat {
    high as nat * 0x1_0000_0000 + low as nat
}

/// The seed of the network stack from two random words.
pub fn network_seed(high: u32, low: u32) -> (seed: u64)
    ensures
        seed == seed_spec(high, low),
{
    let seed = (high as u64) << 32 | low as u64;
    assert(seed == (high as u64) * 0x1_0000_0000u64 + (low as u64)) by (bit_vector)
        requires
            seed == (high as u64) << 32 | low as u64,
    ;
    seed
}

} // verus!
