use vstd::prelude::*;

verus! {

/// The 256-bit identity under which a connected client calls the server,
/// held as its high and low 128 bits.
#[derive(Clone, Copy, Debug, PartialEq, Eq, Structural)]
pub struct Identity {
    pub high: u128,
    pub low: u128,
}

} // verus!
