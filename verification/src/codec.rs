//! The spreading and message codec: which chip of the ranging code, which bit
//! of the secondary code and which bit of the navigation message are on air at
//! an instant, and the sign that the three give the carrier.
//!
//! An instant is given by two counts: the whole milliseconds elapsed since the
//! satellite's time origin, and the chips elapsed within the running code
//! period. Every lookup is cyclic and keeps no cursor.

use crate::constants::{B1I_NH_CODE, B1I_NH_LEN};
use crate::satellite_loader::SatelliteModel;
use vstd::prelude::*;

verus! {

/// The bipolar value of a bit: -1 for 0, +1 for 1.
pub open spec fn bipolar(bit: u8) -> int {
    2 * bit - 1
}

/// The modulation value of three bits: the product of their bipolar values.
pub open spec fn modulation(chip: u8, overlay: u8, message: u8) -> int {
    bipolar(chip) * bipolar(overlay) * bipolar(message)
}

/// The index into the ranging code at `chip` elapsed chips.
pub open spec fn chip_index(record: SatelliteModel, chip: int) -> int {
    chip % (record.prn.len() as int)
}

/// The index into the secondary code at `millisecond` elapsed milliseconds.
pub open spec fn overlay_index(millisecond: int) -> int {
    millisecond % 20
}

/// The index into the navigation message at `millisecond` elapsed
/// milliseconds: one bit lasts as long as the secondary code.
pub open spec fn message_index(record: SatelliteModel, millisecond: int) -> int {
    (millisecond / 20) % (record.data.len() as int)
}

/// The bit of the secondary code at `index`.
pub open spec fn overlay_at(index: int) -> u8
    recommends
        0 <= index < 20,
{
    B1I_NH_CODE@[index]
}

/// The modulation value that `record` gives an instant.
pub open spec fn modulation_at(record: SatelliteModel, millisecond: int, chip: int) -> int {
    modulation(
        record.prn[chip_index(record, chip)],
        overlay_at(overlay_index(millisecond)),
        record.data[message_index(record, millisecond)],
    )
}

/// The three indices lie inside their sequences at every instant.
pub proof fn lemma_indices_in_range(record: SatelliteModel, millisecond: int, chip: int)
    requires
        record.ready(),
        0 <= millisecond,
        0 <= chip,
    ensures
        0 <= chip_index(record, chip) < record.prn.len(),
        0 <= overlay_index(millisecond) < 20,
        0 <= message_index(record, millisecond) < record.data.len(),
{
}

/// The modulation value is +1 or -1, and it is +1 exactly when an even number
/// of the three bits are 0, that is when an odd number of them are 1.
pub proof fn lemma_modulation_sign(chip: u8, overlay: u8, message: u8)
    requires
        chip <= 1,
        overlay <= 1,
        message <= 1,
    ensures
        modulation(chip, overlay, message) == 1 || modulation(chip, overlay, message) == -1,
        modulation(chip, overlay, message) == 1 <==> (chip + overlay + message) % 2 == 1,
        modulation(chip, overlay, message) == 1 <==> (3 - (chip + overlay + message)) % 2 == 0,
{
    let a = bipolar(chip);
    let b = bipolar(overlay);
    let c = bipolar(message);
    assert(a * b == if chip == overlay { 1int } else { -1int }) by (nonlinear_arith)
        requires
            a == 1 || a == -1,
            b == 1 || b == -1,
            (a == b) == (chip == overlay),
    ;
    assert((a * b) * c == if a * b == 1 { c } else { -c }) by (nonlinear_arith)
        requires
            a * b == 1 || a * b == -1,
    ;
}

/// The bipolar value of a bit.
pub fn bipolar_value(bit: u8) -> (value: i8)
    requires
        bit <= 1,
    ensures
        value == bipolar(bit),
        value == 1 || value == -1,
{
    if bit == 1 {
        1
    } else {
        -1
    }
}

/// The modulation value of a chip, a secondary-code bit and a message bit.
pub fn modulation_value(chip: u8, overlay: u8, message: u8) -> (value: i8)
    requires
        chip <= 1,
        overlay <= 1,
        message <= 1,
    ensures
        value == modulation(chip, overlay, message),
        value == 1 || value == -1,
{
    proof {
        lemma_modulation_sign(chip, overlay, message);
    }
    let a = bipolar_value(chip);
    let b = bipolar_value(overlay);
    let c = bipolar_value(message);
    assert(a * b == 1 || a * b == -1) by (nonlinear_arith)
        requires
            a == 1 || a == -1,
            b == 1 || b == -1,
    ;
    let ab: i8 = a * b;
    assert(ab * c == 1 || ab * c == -1) by (nonlinear_arith)
        requires
            ab == 1 || ab == -1,
            c == 1 || c == -1,
    ;
    ab * c
}

/// The bit of the secondary code that is on air `millisecond` milliseconds
/// after the time origin.
pub fn overlay_bit(millisecond: usize) -> (bit: u8)
    ensures
        bit == overlay_at(overlay_index(millisecond as int)),
        bit <= 1,
{
    let index: usize = millisecond % B1I_NH_LEN;
    B1I_NH_CODE[index]
}

} // verus!
