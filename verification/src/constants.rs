use vstd::prelude::*;

verus! {

/// Speed of light in vacuum, in metres per second.
pub const LIGHT_SPEED: u64 = 299_792_458;

/// Carrier frequency of the B1I signal, in hertz.
pub const BDS2_FREQ: u64 = 1_561_098_000;

/// Chips in one period of the ranging code; one period lasts a millisecond.
pub const B1I_PRN_LEN: usize = 2046;

/// Bits in the secondary (Neumann-Hoffman) code; one bit lasts a millisecond.
pub const B1I_NH_LEN: usize = 20;

/// The secondary code of the B1I signal.
pub const B1I_NH_CODE: [u8; 20] = [0, 0, 0, 0, 0, 1, 0, 0, 1, 1, 0, 1, 0, 1, 0, 0, 1, 1, 1, 0];

} // verus!
