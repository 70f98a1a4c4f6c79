//! Trajectory records: what is known of one satellite for a run, how a record
//! is read, and how it is loaded from a JSON document.
//!
//! Elevations and delays are real numbers that this library stores and hands
//! on but never computes with. They are carried as IEEE-754 binary64 bit
//! patterns in a `u64`.

use crate::json::{
    error_text, items, json_document, json_error_text, json_items, json_member, json_number,
    json_text, member, number, parse_document, text,
};
use vstd::prelude::*;

verus! {

/// A trajectory record as mathematical sequences.
pub struct SatelliteModel {
    /// Chips of the ranging code, one period.
    pub prn: Seq<u8>,
    /// Elevation at each epoch.
    pub elevation: Seq<u64>,
    /// Propagation delay at each epoch.
    pub delay: Seq<u64>,
    /// Propagation delay at the moment of lock.
    pub ref_delay: u64,
    /// Bits of the navigation message.
    pub data: Seq<u8>,
}

/// The element that a cyclic read of `s` at `idx` yields.
pub open spec fn cyclic<T>(s: Seq<T>, idx: int) -> T
    recommends
        s.len() > 0,
        0 <= idx,
{
    s[idx % (s.len() as int)]
}

/// Every element of `bits` is 0 or 1.
pub open spec fn all_bits(bits: Seq<u8>) -> bool {
    forall|i: int| 0 <= i < bits.len() ==> #[trigger] bits[i] <= 1
}

impl SatelliteModel {
    /// What every loaded record satisfies: chips and message bits are bits, and
    /// each epoch has both an elevation and a delay.
    pub open spec fn wf(self) -> bool {
        &&& all_bits(self.prn)
        &&& all_bits(self.data)
        &&& self.elevation.len() == self.delay.len()
    }

    /// A record that a generator can run on: well formed, with no sequence
    /// empty.
    pub open spec fn ready(self) -> bool {
        &&& self.wf()
        &&& self.prn.len() > 0
        &&& self.data.len() > 0
        &&& self.delay.len() > 0
    }
}

/// Read access to one satellite's trajectory record. Every read is cyclic: an
/// index past the end of a sequence wraps round to its start.
pub trait SatelliteLoader {
    /// The record that the accessors read.
    spec fn record(&self) -> SatelliteModel;

    /// The chip of the ranging code at `idx`.
    fn get_prn_bit(&self, idx: usize) -> (bit: u8)
        requires
            self.record().prn.len() > 0,
        ensures
            bit == cyclic(self.record().prn, idx as int),
    ;

    /// The elevation at epoch `idx`.
    fn get_elevation(&self, idx: usize) -> (elevation: u64)
        requires
            self.record().elevation.len() > 0,
        ensures
            elevation == cyclic(self.record().elevation, idx as int),
    ;

    /// The propagation delay at epoch `idx`.
    fn get_delay(&self, idx: usize) -> (delay: u64)
        requires
            self.record().delay.len() > 0,
        ensures
            delay == cyclic(self.record().delay, idx as int),
    ;

    /// The bit of the navigation message at `idx`.
    fn get_data_bit(&self, idx: usize) -> (bit: u8)
        requires
            self.record().data.len() > 0,
        ensures
            bit == cyclic(self.record().data, idx as int),
    ;

    /// The propagation delay at the moment of lock.
    fn ref_delay(&self) -> (delay: u64)
        ensures
            delay == self.record().ref_delay,
    ;

    /// The number of epochs in the trajectory.
    fn sample_length(&self) -> (epochs: usize)
        ensures
            epochs == self.record().delay.len(),
    ;
}

/// One satellite's trajectory record.
#[derive(Clone, Debug)]
pub struct Bds2SatelliteInfo {
    pub prn: Vec<u8>,
    pub elevation: Vec<u64>,
    pub delay: Vec<u64>,
    pub ref_delay: u64,
    pub data: Vec<u8>,
}

impl View for Bds2SatelliteInfo {
    type V = SatelliteModel;

    open spec fn view(&self) -> SatelliteModel {
        SatelliteModel {
            prn: self.prn@,
            elevation: self.elevation@,
            delay: self.delay@,
            ref_delay: self.ref_delay,
            data: self.data@,
        }
    }
}

impl SatelliteLoader for Bds2SatelliteInfo {
    open spec fn record(&self) -> SatelliteModel {
        self@
    }

    fn get_prn_bit(&self, idx: usize) -> (bit: u8) {
        self.prn[idx % self.prn.len()]
    }

    fn get_elevation(&self, idx: usize) -> (elevation: u64) {
        self.elevation[idx % self.elevation.len()]
    }

    fn get_delay(&self, idx: usize) -> (delay: u64) {
        self.delay[idx % self.delay.len()]
    }

    fn get_data_bit(&self, idx: usize) -> (bit: u8) {
        self.data[idx % self.data.len()]
    }

    fn ref_delay(&self) -> (delay: u64) {
        self.ref_delay
    }

    fn sample_length(&self) -> (epochs: usize) {
        self.delay.len()
    }
}

/// An epoch inside the trajectory is read as it stands, and a read at any
/// index is the read at that index reduced by the trajectory's length: the
/// accessors are functions of the record and the index alone.
pub proof fn lemma_epoch_reads(record: SatelliteModel, epoch: int)
    requires
        record.wf(),
        0 <= epoch,
        record.delay.len() > 0,
    ensures
        epoch < record.delay.len() ==> cyclic(record.delay, epoch) == record.delay[epoch],
        epoch < record.delay.len() ==> cyclic(record.elevation, epoch) == record.elevation[epoch],
        cyclic(record.delay, epoch + record.delay.len()) == cyclic(record.delay, epoch),
        cyclic(record.elevation, epoch + record.delay.len()) == cyclic(record.elevation, epoch),
{
    let n = record.delay.len() as int;
    if epoch < n {
        vstd::arithmetic::div_mod::lemma_small_mod(epoch as nat, n as nat);
    }
    vstd::arithmetic::div_mod::lemma_mod_add_multiples_vanish(epoch, n);
}

/// The value of `c` as a hexadecimal digit, either case.
pub open spec fn hex_value(c: char) -> Option<u8> {
    if '0' <= c <= '9' {
        Some((c as u8 - 48) as u8)
    } else if 'a' <= c <= 'f' {
        Some((c as u8 - 87) as u8)
    } else if 'A' <= c <= 'F' {
        Some((c as u8 - 55) as u8)
    } else {
        None
    }
}

/// The value of `c` as an octal digit.
pub open spec fn octal_value(c: char) -> Option<u8> {
    if '0' <= c <= '7' {
        Some((c as u8 - 48) as u8)
    } else {
        None
    }
}

/// The value of `c` as a digit: hexadecimal if `hex`, octal if not.
pub open spec fn digit_value(c: char, hex: bool) -> Option<u8> {
    if hex {
        hex_value(c)
    } else {
        octal_value(c)
    }
}

/// The number of bits that one digit stands for.
pub open spec fn digit_width(hex: bool) -> int {
    if hex {
        4
    } else {
        3
    }
}

/// Bit `k` of a digit of `width` bits, counted from the most significant.
pub open spec fn digit_bit(digit: u8, width: int, k: int) -> u8 {
    let place = width - 1 - k;
    if place == 3 {
        (digit / 8) % 2
    } else if place == 2 {
        (digit / 4) % 2
    } else if place == 1 {
        (digit / 2) % 2
    } else {
        digit % 2
    }
}

/// Every character of `digits` is a digit.
pub open spec fn all_digits(digits: Seq<char>, hex: bool) -> bool {
    forall|i: int| 0 <= i < digits.len() ==> (#[trigger] digit_value(digits[i], hex)) is Some
}

/// The bits that a string of digits stands for, each digit giving its bits
/// from the most significant down; `None` if a character is not a digit.
pub open spec fn unpacked(digits: Seq<char>, hex: bool) -> Option<Seq<u8>> {
    if all_digits(digits, hex) {
        let width = digit_width(hex);
        Some(
            Seq::new(
                (width * digits.len()) as nat,
                |i: int| digit_bit(digit_value(digits[i / width], hex)->0, width, i % width),
            ),
        )
    } else {
        None
    }
}

/// The digit that the ASCII byte `byte` stands for.
fn digit_of_byte(byte: u8, hex: bool) -> (digit: Option<u8>)
    requires
        byte < 128,
    ensures
        digit == digit_value(byte as char, hex),
        digit matches Some(d) ==> d < 16 && (!hex ==> d < 8),
{
    if 48 <= byte && byte <= 55 {
        Some(byte - 48)
    } else if hex && 56 <= byte && byte <= 57 {
        Some(byte - 48)
    } else if hex && 97 <= byte && byte <= 102 {
        Some(byte - 87)
    } else if hex && 65 <= byte && byte <= 70 {
        Some(byte - 55)
    } else {
        None
    }
}

/// Unpacks a string of digits into bits, each digit giving its bits from the
/// most significant down: four for a hexadecimal digit, three for an octal
/// one. Gives `None` exactly when some character is not a digit.
pub fn unpack_digits(digits: &str, hex: bool) -> (r: Option<Vec<u8>>)
    ensures
        match r {
            Some(bits) => unpacked(digits@, hex) == Some(bits@),
            None => unpacked(digits@, hex) is None,
        },
        r matches Some(bits) ==> all_bits(bits@),
{
    if !digits.is_ascii() {
        proof {
            let i = choose|i: int|
                0 <= i < digits@.len() && !('\0' <= #[trigger] digits@[i] <= '\u{7f}');
            assert(digit_value(digits@[i], hex) is None);
        }
        return None;
    }
    let bytes = digits.as_bytes();
    proof {
        vstd::string::is_ascii_spec_bytes(digits);
    }
    let n = bytes.len();
    let ghost width = digit_width(hex);
    let mut bits: Vec<u8> = Vec::new();
    let mut i: usize = 0;
    while i < n
        invariant
            i <= n,
            n == digits@.len(),
            width == digit_width(hex),
            vstd::utf8::is_ascii_chars(digits@),
            bytes@ =~= Seq::new(digits@.len(), |k: int| digits@[k] as u8),
            forall|j: int| 0 <= j < i ==> (#[trigger] digit_value(digits@[j], hex)) is Some,
            bits@.len() == width * i,
            forall|k: int|
                0 <= k < bits@.len() ==> #[trigger] bits@[k] == digit_bit(
                    digit_value(digits@[k / width], hex)->0,
                    width,
                    k % width,
                ),
            all_bits(bits@),
        decreases n - i,
    {
        let byte = bytes[i];
        assert(byte == digits@[i as int] as u8);
        assert('\0' <= digits@[i as int] <= '\u{7f}');
        assert(byte as char == digits@[i as int]);
        match digit_of_byte(byte, hex) {
            None => {
                return None;
            },
            Some(d) => {
                let ghost before = bits@;
                if hex {
                    bits.push((d / 8) % 2);
                }
                bits.push((d / 4) % 2);
                bits.push((d / 2) % 2);
                bits.push(d % 2);
                proof {
                    assert forall|k: int| 0 <= k < bits@.len() implies #[trigger] bits@[k]
                        == digit_bit(
                        digit_value(digits@[k / width], hex)->0,
                        width,
                        k % width,
                    ) by {
                        if k < before.len() {
                            assert(bits@[k] == before[k]);
                        } else {
                            let offset = k - width * i;
                            assert(0 <= offset < width);
                            assert(k == width * i + offset);
                            lemma_position(width, i as int, offset);
                        }
                    }
                }
            },
        }
        i += 1;
    }
    Some(bits)
}

/// Position `width * i + offset`, with `offset` below `width`, lies in item
/// `i` at place `offset`.
pub(crate) proof fn lemma_position(width: int, i: int, offset: int)
    requires
        0 < width,
        0 <= i,
        0 <= offset < width,
    ensures
        (width * i + offset) / width == i,
        (width * i + offset) % width == offset,
{
    assert(width * i == i * width) by (nonlinear_arith);
    vstd::arithmetic::div_mod::lemma_fundamental_div_mod_converse(
        width * i + offset,
        width,
        i,
        offset,
    );
}

/// What looking up one member of a JSON object found.
pub enum Field<T> {
    /// The object has no such member.
    Missing,
    /// The member is there, with a value of another JSON type.
    Mistyped,
    /// The member's value.
    Present(T),
}

/// A looked-up string, as its characters.
pub open spec fn text_view(field: Field<&str>) -> Field<Seq<char>> {
    match field {
        Field::Missing => Field::Missing,
        Field::Mistyped => Field::Mistyped,
        Field::Present(digits) => Field::Present(digits@),
    }
}

/// A looked-up array, as a sequence.
pub open spec fn series_view(field: Field<Vec<Option<u64>>>) -> Field<Seq<Option<u64>>> {
    match field {
        Field::Missing => Field::Missing,
        Field::Mistyped => Field::Mistyped,
        Field::Present(entries) => Field::Present(entries@),
    }
}

/// The outcome of a load, as a model or a message.
pub open spec fn outcome_view(r: Result<Bds2SatelliteInfo, String>) -> Result<
    SatelliteModel,
    Seq<char>,
> {
    match r {
        Ok(info) => Ok(info@),
        Err(message) => Err(message@),
    }
}

/// The bits that a field of digits stands for, or the message that says what
/// is wrong with the field.
pub open spec fn bits_field(
    field: Field<Seq<char>>,
    hex: bool,
    missing: Seq<char>,
    mistyped: Seq<char>,
    invalid: Seq<char>,
) -> Result<Seq<u8>, Seq<char>> {
    match field {
        Field::Missing => Err(missing),
        Field::Mistyped => Err(mistyped),
        Field::Present(digits) => match unpacked(digits, hex) {
            Some(bits) => Ok(bits),
            None => Err(invalid),
        },
    }
}

/// Every entry of `entries` is a number.
pub open spec fn all_numbers(entries: Seq<Option<u64>>) -> bool {
    forall|i: int| 0 <= i < entries.len() ==> (#[trigger] entries[i]) is Some
}

/// The numbers of a field that holds an array, or the message that says
/// what is wrong with the field.
pub open spec fn series_field(
    field: Field<Seq<Option<u64>>>,
    missing: Seq<char>,
    mistyped: Seq<char>,
    invalid: Seq<char>,
) -> Result<Seq<u64>, Seq<char>> {
    match field {
        Field::Missing => Err(missing),
        Field::Mistyped => Err(mistyped),
        Field::Present(entries) => if all_numbers(entries) {
            Ok(Seq::new(entries.len(), |i: int| entries[i]->0))
        } else {
            Err(invalid)
        },
    }
}

/// The number of a field, or the message that says what is wrong with the
/// field.
pub open spec fn number_field(field: Field<u64>, missing: Seq<char>, mistyped: Seq<char>) -> Result<
    u64,
    Seq<char>,
> {
    match field {
        Field::Missing => Err(missing),
        Field::Mistyped => Err(mistyped),
        Field::Present(value) => Ok(value),
    }
}

/// The navigation message of a record: hexadecimal digits.
pub open spec fn data_field(field: Field<Seq<char>>) -> Result<Seq<u8>, Seq<char>> {
    bits_field(
        field,
        true,
        "Field `data` not found!"@,
        "Field `data` is not a String!"@,
        "Invalid hex digit!"@,
    )
}

/// The ranging code of a record: octal digits.
pub open spec fn prn_field(field: Field<Seq<char>>) -> Result<Seq<u8>, Seq<char>> {
    bits_field(
        field,
        false,
        "Field `prn` not found!"@,
        "Field `prn` is not a String!"@,
        "Invalid digit!"@,
    )
}

/// The elevations of a record.
pub open spec fn elevation_field(field: Field<Seq<Option<u64>>>) -> Result<Seq<u64>, Seq<char>> {
    series_field(
        field,
        "Field `elevation` not found!"@,
        "Field `elevation` is not an Array!"@,
        "Invalid elevation!"@,
    )
}

/// The delays of a record.
pub open spec fn delay_field(field: Field<Seq<Option<u64>>>) -> Result<Seq<u64>, Seq<char>> {
    series_field(
        field,
        "Field `delay` not found!"@,
        "Field `delay` is not an Array!"@,
        "Invalid delay!"@,
    )
}

/// The reference delay of a record.
pub open spec fn ref_delay_field(field: Field<u64>) -> Result<u64, Seq<char>> {
    number_field(field, "Field `ref_delay` not found!"@, "Field `ref_delay` is not a Float!"@)
}

/// The record that five looked-up fields make, or the message of the first
/// field that is at fault, taken in the order data, prn, elevation, delay,
/// reference delay. Elevations and delays of different number are the last
/// fault looked for.
pub open spec fn assembled(
    data: Field<Seq<char>>,
    prn: Field<Seq<char>>,
    elevation: Field<Seq<Option<u64>>>,
    delay: Field<Seq<Option<u64>>>,
    ref_delay: Field<u64>,
) -> Result<SatelliteModel, Seq<char>> {
    if data_field(data) is Err {
        Err(data_field(data)->Err_0)
    } else if prn_field(prn) is Err {
        Err(prn_field(prn)->Err_0)
    } else if elevation_field(elevation) is Err {
        Err(elevation_field(elevation)->Err_0)
    } else if delay_field(delay) is Err {
        Err(delay_field(delay)->Err_0)
    } else if ref_delay_field(ref_delay) is Err {
        Err(ref_delay_field(ref_delay)->Err_0)
    } else if elevation_field(elevation)->Ok_0.len() != delay_field(delay)->Ok_0.len() {
        Err("Fields `elevation` and `delay` differ in length!"@)
    } else {
        Ok(
            SatelliteModel {
                prn: prn_field(prn)->Ok_0,
                elevation: elevation_field(elevation)->Ok_0,
                delay: delay_field(delay)->Ok_0,
                ref_delay: ref_delay_field(ref_delay)->Ok_0,
                data: data_field(data)->Ok_0,
            },
        )
    }
}

/// Unpacks a field of digits, or says what is wrong with it.
fn bits_of_field(field: Field<&str>, hex: bool, missing: &str, mistyped: &str, invalid: &str) -> (r:
    Result<Vec<u8>, String>)
    ensures
        match r {
            Ok(bits) => bits_field(text_view(field), hex, missing@, mistyped@, invalid@) == Ok::<
                Seq<u8>,
                Seq<char>,
            >(bits@),
            Err(message) => bits_field(text_view(field), hex, missing@, mistyped@, invalid@) == Err::<
                Seq<u8>,
                Seq<char>,
            >(message@),
        },
        r matches Ok(bits) ==> all_bits(bits@),
{
    match field {
        Field::Missing => Err(missing.to_owned()),
        Field::Mistyped => Err(mistyped.to_owned()),
        Field::Present(digits) => match unpack_digits(digits, hex) {
            Some(bits) => Ok(bits),
            None => Err(invalid.to_owned()),
        },
    }
}

/// Takes the numbers out of a field that holds an array, or says what is
/// wrong with it.
fn numbers_of_field(
    field: Field<Vec<Option<u64>>>,
    missing: &str,
    mistyped: &str,
    invalid: &str,
) -> (r: Result<Vec<u64>, String>)
    ensures
        match r {
            Ok(numbers) => series_field(series_view(field), missing@, mistyped@, invalid@) == Ok::<
                Seq<u64>,
                Seq<char>,
            >(numbers@),
            Err(message) => series_field(series_view(field), missing@, mistyped@, invalid@) == Err::<
                Seq<u64>,
                Seq<char>,
            >(message@),
        },
{
    match field {
        Field::Missing => Err(missing.to_owned()),
        Field::Mistyped => Err(mistyped.to_owned()),
        Field::Present(entries) => {
            let mut numbers: Vec<u64> = Vec::new();
            let mut i: usize = 0;
            while i < entries.len()
                invariant
                    series_view(field) == Field::Present(entries@),
                    i <= entries@.len(),
                    numbers@.len() == i,
                    forall|j: int| 0 <= j < i ==> (#[trigger] entries@[j]) == Some(numbers@[j]),
                decreases entries@.len() - i,
            {
                match entries[i] {
                    Some(value) => {
                        numbers.push(value);
                    },
                    None => {
                        assert(entries@[i as int] is None);
                        return Err(invalid.to_owned());
                    },
                }
                i += 1;
            }
            assert(numbers@ =~= Seq::new(entries@.len(), |i: int| entries@[i]->0));
            Ok(numbers)
        },
    }
}

/// Takes the number out of a field, or says what is wrong with it.
fn number_of_field(field: Field<u64>, missing: &str, mistyped: &str) -> (r: Result<u64, String>)
    ensures
        match r {
            Ok(value) => number_field(field, missing@, mistyped@) == Ok::<u64, Seq<char>>(value),
            Err(message) => number_field(field, missing@, mistyped@) == Err::<u64, Seq<char>>(
                message@,
            ),
        },
{
    match field {
        Field::Missing => Err(missing.to_owned()),
        Field::Mistyped => Err(mistyped.to_owned()),
        Field::Present(value) => Ok(value),
    }
}

/// Builds a trajectory record from the five fields of a JSON record as they
/// were looked up: `data` holds hexadecimal digits, four message bits each;
/// `prn` holds octal digits, three chips each; `elevation` and `delay` hold
/// one number for each epoch. The first field at fault, in the order of
/// `assembled`, decides the message.
pub fn assemble(
    data: Field<&str>,
    prn: Field<&str>,
    elevation: Field<Vec<Option<u64>>>,
    delay: Field<Vec<Option<u64>>>,
    ref_delay: Field<u64>,
) -> (r: Result<Bds2SatelliteInfo, String>)
    ensures
        outcome_view(r) == assembled(
            text_view(data),
            text_view(prn),
            series_view(elevation),
            series_view(delay),
            ref_delay,
        ),
        r matches Ok(info) ==> info@.wf(),
{
    let data_bits = match bits_of_field(
        data,
        true,
        "Field `data` not found!",
        "Field `data` is not a String!",
        "Invalid hex digit!",
    ) {
        Ok(bits) => bits,
        Err(message) => {
            return Err(message);
        },
    };
    let prn_bits = match bits_of_field(
        prn,
        false,
        "Field `prn` not found!",
        "Field `prn` is not a String!",
        "Invalid digit!",
    ) {
        Ok(bits) => bits,
        Err(message) => {
            return Err(message);
        },
    };
    let elevations = match numbers_of_field(
        elevation,
        "Field `elevation` not found!",
        "Field `elevation` is not an Array!",
        "Invalid elevation!",
    ) {
        Ok(numbers) => numbers,
        Err(message) => {
            return Err(message);
        },
    };
    let delays = match numbers_of_field(
        delay,
        "Field `delay` not found!",
        "Field `delay` is not an Array!",
        "Invalid delay!",
    ) {
        Ok(numbers) => numbers,
        Err(message) => {
            return Err(message);
        },
    };
    let reference = match number_of_field(
        ref_delay,
        "Field `ref_delay` not found!",
        "Field `ref_delay` is not a Float!",
    ) {
        Ok(value) => value,
        Err(message) => {
            return Err(message);
        },
    };
    if elevations.len() != delays.len() {
        return Err("Fields `elevation` and `delay` differ in length!".to_owned());
    }
    Ok(
        Bds2SatelliteInfo {
            prn: prn_bits,
            elevation: elevations,
            delay: delays,
            ref_delay: reference,
            data: data_bits,
        },
    )
}

/// What looking up a string under `key` in `json` finds.
pub open spec fn text_member(json: serde_json::Value, key: Seq<char>) -> Field<Seq<char>> {
    match json_member(json, key) {
        None => Field::Missing,
        Some(found) => match json_text(found) {
            None => Field::Mistyped,
            Some(digits) => Field::Present(digits),
        },
    }
}

/// What looking up an array of numbers under `key` in `json` finds: for each
/// element its number, or `None` where the element is no number.
pub open spec fn series_member(json: serde_json::Value, key: Seq<char>) -> Field<
    Seq<Option<u64>>,
> {
    match json_member(json, key) {
        None => Field::Missing,
        Some(found) => match json_items(found) {
            None => Field::Mistyped,
            Some(elements) => Field::Present(
                Seq::new(elements.len(), |i: int| json_number(elements[i])),
            ),
        },
    }
}

/// What looking up a number under `key` in `json` finds.
pub open spec fn number_member(json: serde_json::Value, key: Seq<char>) -> Field<u64> {
    match json_member(json, key) {
        None => Field::Missing,
        Some(found) => match json_number(found) {
            None => Field::Mistyped,
            Some(value) => Field::Present(value),
        },
    }
}

/// The record that the JSON value `json` describes, or the message that says
/// why it describes none.
pub open spec fn loaded(json: serde_json::Value) -> Result<SatelliteModel, Seq<char>> {
    assembled(
        text_member(json, "data"@),
        text_member(json, "prn"@),
        series_member(json, "elevation"@),
        series_member(json, "delay"@),
        number_member(json, "refDelay"@),
    )
}

/// Record `at` of `values` is the first that describes no trajectory.
pub open spec fn first_failure(values: Seq<serde_json::Value>, at: int) -> bool {
    &&& 0 <= at < values.len()
    &&& loaded(values[at]) is Err
    &&& forall|j: int| 0 <= j < at ==> (#[trigger] loaded(values[j])) is Ok
}

/// Looks up a string under `key`.
fn text_of<'a>(json: &'a serde_json::Value, key: &str) -> (field: Field<&'a str>)
    ensures
        text_view(field) == text_member(*json, key@),
{
    match member(json, key) {
        None => Field::Missing,
        Some(found) => match text(found) {
            None => Field::Mistyped,
            Some(digits) => Field::Present(digits),
        },
    }
}

/// Looks up an array of numbers under `key`.
fn series_of(json: &serde_json::Value, key: &str) -> (field: Field<Vec<Option<u64>>>)
    ensures
        series_view(field) == series_member(*json, key@),
{
    match member(json, key) {
        None => Field::Missing,
        Some(found) => match items(found) {
            None => Field::Mistyped,
            Some(elements) => {
                let mut entries: Vec<Option<u64>> = Vec::new();
                let mut i: usize = 0;
                while i < elements.len()
                    invariant
                        i <= elements@.len(),
                        entries@.len() == i,
                        forall|j: int|
                            0 <= j < i ==> #[trigger] entries@[j] == json_number(elements@[j]),
                    decreases elements@.len() - i,
                {
                    entries.push(number(&elements[i]));
                    i += 1;
                }
                assert(entries@ =~= Seq::new(
                    elements@.len(),
                    |i: int| json_number(elements@[i]),
                ));
                Field::Present(entries)
            },
        },
    }
}

/// Looks up a number under `key`.
fn number_of(json: &serde_json::Value, key: &str) -> (field: Field<u64>)
    ensures
        field == number_member(*json, key@),
{
    match member(json, key) {
        None => Field::Missing,
        Some(found) => match number(found) {
            None => Field::Mistyped,
            Some(value) => Field::Present(value),
        },
    }
}

/// Whether every element of `bits` is 0 or 1.
fn only_bits(bits: &Vec<u8>) -> (b: bool)
    ensures
        b == all_bits(bits@),
{
    let mut i: usize = 0;
    while i < bits.len()
        invariant
            i <= bits@.len(),
            forall|j: int| 0 <= j < i ==> #[trigger] bits@[j] <= 1,
        decreases bits@.len() - i,
    {
        if bits[i] > 1 {
            return false;
        }
        i += 1;
    }
    true
}

impl Bds2SatelliteInfo {
    /// Whether a generator can run on this record: chips and message bits
    /// are bits, each epoch has both an elevation and a delay, and no
    /// sequence is empty.
    pub fn is_ready(&self) -> (ready: bool)
        ensures
            ready == self@.ready(),
    {
        self.prn.len() > 0 && self.data.len() > 0 && self.delay.len() > 0 && self.elevation.len()
            == self.delay.len() && only_bits(&self.prn) && only_bits(&self.data)
    }

    /// Reads one trajectory record from a JSON object with the members `data`,
    /// `prn`, `elevation`, `delay` and `refDelay`.
    pub fn new_from_json(json: &serde_json::Value) -> (r: Result<Self, String>)
        ensures
            outcome_view(r) == loaded(*json),
            r matches Ok(info) ==> info@.wf(),
    {
        let data = text_of(json, "data");
        let prn = text_of(json, "prn");
        let elevation = series_of(json, "elevation");
        let delay = series_of(json, "delay");
        let ref_delay = number_of(json, "refDelay");
        assemble(data, prn, elevation, delay, ref_delay)
    }

    /// Loads the trajectory records of a document: a JSON array with one
    /// object for each satellite. `contents` is the document's text. The
    /// records come in the document's order; where the text is no such
    /// document the message is the reader's, and otherwise the first record at
    /// fault decides it.
    pub fn from_file(contents: &[u8]) -> (r: Result<Vec<Self>, String>)
        ensures
            match r {
                Ok(records) => {
                    &&& json_document(contents@) matches Ok(values)
                    &&& values.len() == records@.len()
                    &&& forall|i: int|
                        0 <= i < values.len() ==> #[trigger] loaded(values[i]) == Ok::<
                            SatelliteModel,
                            Seq<char>,
                        >(records@[i]@)
                },
                Err(message) => match json_document(contents@) {
                    Err(error) => message@ == json_error_text(error),
                    Ok(values) => exists|at: int| #[trigger]
                        first_failure(values, at) && loaded(values[at]) == Err::<
                            SatelliteModel,
                            Seq<char>,
                        >(message@),
                },
            },
            r matches Ok(records) ==> forall|i: int|
                0 <= i < records@.len() ==> (#[trigger] records@[i])@.wf(),
    {
        let values = match parse_document(contents) {
            Ok(values) => values,
            Err(error) => {
                return Err(error_text(&error));
            },
        };
        let mut satellites: Vec<Bds2SatelliteInfo> = Vec::new();
        let mut i: usize = 0;
        while i < values.len()
            invariant
                json_document(contents@) == Ok::<Seq<serde_json::Value>, serde_json::Error>(
                    values@,
                ),
                i <= values@.len(),
                satellites@.len() == i,
                forall|j: int|
                    0 <= j < i ==> #[trigger] loaded(values@[j]) == Ok::<
                        SatelliteModel,
                        Seq<char>,
                    >(satellites@[j]@),
                forall|j: int| 0 <= j < i ==> (#[trigger] satellites@[j])@.wf(),
            decreases values@.len() - i,
        {
            match Bds2SatelliteInfo::new_from_json(&values[i]) {
                Ok(info) => {
                    satellites.push(info);
                },
                Err(message) => {
                    assert(first_failure(values@, i as int));
                    return Err(message);
                },
            }
            i += 1;
        }
        Ok(satellites)
    }
}

} // verus!
