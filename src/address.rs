use vstd::prelude::*;

verus! {

/// An address that owns positions and signs requests: a 32-byte key held as
/// its two 128-bit halves.
#[derive(Debug, Clone, Copy, PartialEq, Eq, Structural)]
pub struct Address {
    pub high: u128,
    pub low: u128,
}

} // verus!
