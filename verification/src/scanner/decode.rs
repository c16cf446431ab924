//! Decoding of the vendor payload: the first byte names the format, the
//! payload decoder reads the fields, and the readings are brought to the
//! units that a measurement holds.

use crate::decimal::{decimal_value, times_hundred_of, Decimal};
use crate::mac_address::MacAddress;
use crate::measurement::Measurement;
use crate::scanner::{DecodeError, DecodeErrorView};
use crate::text::{digits, push_unsigned};
use vstd::prelude::*;
use vstd::string::StringExecFns;

verus! {

/// The fields of a format 5 payload as the payload decoder hands them out.
/// Readings with decimal places come as plain decimal text.
#[derive(Debug, Clone, PartialEq)]
pub struct Format5Values {
    /// Temperature in degrees Celsius.
    pub temperature: Option<String>,
    /// Relative humidity in percent.
    pub humidity: Option<String>,
    /// Pressure in pascals.
    pub pressure: Option<String>,
    /// Acceleration along x in thousandths of g.
    pub acceleration_x: Option<i16>,
    /// Acceleration along y in thousandths of g.
    pub acceleration_y: Option<i16>,
    /// Acceleration along z in thousandths of g.
    pub acceleration_z: Option<i16>,
    /// Battery voltage in millivolts.
    pub battery_voltage: Option<u16>,
    /// Transmit power in dBm.
    pub tx_power: Option<i8>,
    /// Movement counter.
    pub movement_counter: Option<u8>,
    /// Measurement sequence number.
    pub measurement_sequence: Option<u16>,
}

/// `Format5Values` with its texts as sequences of characters.
pub struct Format5View {
    pub temperature: Option<Seq<char>>,
    pub humidity: Option<Seq<char>>,
    pub pressure: Option<Seq<char>>,
    pub acceleration_x: Option<i16>,
    pub acceleration_y: Option<i16>,
    pub acceleration_z: Option<i16>,
    pub battery_voltage: Option<u16>,
    pub tx_power: Option<i8>,
    pub movement_counter: Option<u8>,
    pub measurement_sequence: Option<u16>,
}

/// The characters of an optional text.
pub open spec fn text_view(t: Option<String>) -> Option<Seq<char>> {
    match t {
        Some(s) => Some(s@),
        None => None,
    }
}

impl View for Format5Values {
    type V = Format5View;

    open spec fn view(&self) -> Format5View {
        Format5View {
            temperature: text_view(self.temperature),
            humidity: text_view(self.humidity),
            pressure: text_view(self.pressure),
            acceleration_x: self.acceleration_x,
            acceleration_y: self.acceleration_y,
            acceleration_z: self.acceleration_z,
            battery_voltage: self.battery_voltage,
            tx_power: self.tx_power,
            movement_counter: self.movement_counter,
            measurement_sequence: self.measurement_sequence,
        }
    }
}

/// The fields of a format 6 payload as the payload decoder hands them out.
/// Readings with decimal places come as plain decimal text.
#[derive(Debug, Clone, PartialEq)]
pub struct Format6Values {
    /// Temperature in degrees Celsius.
    pub temperature: Option<String>,
    /// Relative humidity in percent.
    pub humidity: Option<String>,
    /// Pressure in hectopascals.
    pub pressure: Option<String>,
    /// Particulate matter in micrograms per cubic metre.
    pub pm2_5: Option<String>,
    /// Carbon dioxide in parts per million.
    pub co2: Option<u16>,
    /// Volatile organic compounds index.
    pub voc_index: Option<u16>,
    /// Nitrogen oxides index.
    pub nox_index: Option<u16>,
    /// Luminosity in lux.
    pub luminosity: Option<String>,
    /// Measurement sequence number.
    pub measurement_sequence: Option<u8>,
}

/// `Format6Values` with its texts as sequences of characters.
pub struct Format6View {
    pub temperature: Option<Seq<char>>,
    pub humidity: Option<Seq<char>>,
    pub pressure: Option<Seq<char>>,
    pub pm2_5: Option<Seq<char>>,
    pub co2: Option<u16>,
    pub voc_index: Option<u16>,
    pub nox_index: Option<u16>,
    pub luminosity: Option<Seq<char>>,
    pub measurement_sequence: Option<u8>,
}

impl View for Format6Values {
    type V = Format6View;

    open spec fn view(&self) -> Format6View {
        Format6View {
            temperature: text_view(self.temperature),
            humidity: text_view(self.humidity),
            pressure: text_view(self.pressure),
            pm2_5: text_view(self.pm2_5),
            co2: self.co2,
            voc_index: self.voc_index,
            nox_index: self.nox_index,
            luminosity: text_view(self.luminosity),
            measurement_sequence: self.measurement_sequence,
        }
    }
}

/// The fields of a format 6 payload that its bytes decide: all but the
/// luminosity, which the payload decoder computes with a logarithm and an
/// exponential whose last digit may differ from machine to machine.
pub struct Format6Fields {
    pub temperature: Option<Seq<char>>,
    pub humidity: Option<Seq<char>>,
    pub pressure: Option<Seq<char>>,
    pub pm2_5: Option<Seq<char>>,
    pub co2: Option<u16>,
    pub voc_index: Option<u16>,
    pub nox_index: Option<u16>,
    pub measurement_sequence: Option<u8>,
}

/// The fields of `v` that the bytes decide.
pub open spec fn decided_fields(v: Format6View) -> Format6Fields {
    Format6Fields {
        temperature: v.temperature,
        humidity: v.humidity,
        pressure: v.pressure,
        pm2_5: v.pm2_5,
        co2: v.co2,
        voc_index: v.voc_index,
        nox_index: v.nox_index,
        measurement_sequence: v.measurement_sequence,
    }
}

/// The fields `f` together with the luminosity `luminosity`.
pub open spec fn with_luminosity(f: Format6Fields, luminosity: Option<Seq<char>>) -> Format6View {
    Format6View {
        temperature: f.temperature,
        humidity: f.humidity,
        pressure: f.pressure,
        pm2_5: f.pm2_5,
        co2: f.co2,
        voc_index: f.voc_index,
        nox_index: f.nox_index,
        luminosity,
        measurement_sequence: f.measurement_sequence,
    }
}

/// What the payload decoder makes of a format 5 payload: its fields, or the
/// text of its refusal.
pub uninterp spec fn format5_fields(data: Seq<u8>) -> Result<Format5View, Seq<char>>;

/// What the payload decoder makes of a format 6 payload: its fields but for
/// the luminosity, or the text of its refusal.
pub uninterp spec fn format6_fields(data: Seq<u8>) -> Result<Format6Fields, Seq<char>>;

/// A result of the format 5 decoder with its texts as sequences of characters.
pub open spec fn fields5_view(r: Result<Format5Values, String>) -> Result<Format5View, Seq<char>> {
    match r {
        Ok(v) => Ok(v@),
        Err(e) => Err(e@),
    }
}

/// A result of the format 6 decoder, without the luminosity, with its texts
/// as sequences of characters.
pub open spec fn fields6_view(r: Result<Format6Values, String>) -> Result<
    Format6Fields,
    Seq<char>,
> {
    match r {
        Ok(v) => Ok(decided_fields(v@)),
        Err(e) => Err(e@),
    }
}

/// The length of a format 5 payload: 18 bytes of fields and the 6-byte address.
pub const FORMAT5_LENGTH: usize = 24;

/// The length of a format 6 payload: 17 bytes of fields and 3 bytes of address.
pub const FORMAT6_LENGTH: usize = 20;

/// A payload of the length of format 5 that begins with the byte 5.
pub open spec fn is_format5_payload(data: Seq<u8>) -> bool {
    data.len() == FORMAT5_LENGTH && data[0] == 5
}

/// A payload of the length of format 6 that begins with the byte 6.
pub open spec fn is_format6_payload(data: Seq<u8>) -> bool {
    data.len() == FORMAT6_LENGTH && data[0] == 6
}

/// The 16-bit number whose two bytes, most significant first, stand at `i`.
pub open spec fn be16(data: Seq<u8>, i: int) -> int {
    data[i] * 256 + data[i + 1]
}

/// The signed 16-bit number whose two bytes, most significant first, stand
/// at `i`.
pub open spec fn be16_signed(data: Seq<u8>, i: int) -> int {
    if be16(data, i) >= 0x8000 {
        be16(data, i) - 0x1_0000
    } else {
        be16(data, i)
    }
}

/// An acceleration axis of format 5: a signed 16-bit number of thousandths
/// of g; the least such number says that the axis was not measured.
pub open spec fn axis_at(data: Seq<u8>, i: int) -> Option<i16> {
    if be16_signed(data, i) == -0x8000 {
        None
    } else {
        Some(be16_signed(data, i) as i16)
    }
}

/// An unsigned 16-bit field that is absent when it is more than `most`.
pub open spec fn bounded_at(data: Seq<u8>, i: int, most: int) -> Option<u16> {
    if be16(data, i) > most {
        None
    } else {
        Some(be16(data, i) as u16)
    }
}

/// A 9-bit index of format 6: eight bits in a byte of its own and the lowest
/// bit in the flags byte; absent when it is more than 500.
pub open spec fn index_at(high: u8, low_bit: int) -> Option<u16> {
    if 2 * high + low_bit > 500 {
        None
    } else {
        Some((2 * high + low_bit) as u16)
    }
}

/// Whether an optional text is absent or reads as a decimal number.
pub open spec fn is_readable(t: Option<Seq<char>>) -> bool {
    reading_of(t) is Some
}

/// What the layout of format 5 says of the fields of a payload.
///
/// After the format byte come, each most significant byte first:
/// temperature (signed, the least number for "not measured"), humidity and
/// pressure (unsigned, the greatest number for "not measured"), three
/// acceleration axes, then 16 bits that hold the battery voltage in the
/// upper eleven (millivolts above 1600, all ones for "not measured") and the
/// transmit power in the lower five (steps of 2 dBm from -40, all ones for
/// "not measured"), the movement counter (255 for "not measured") and the
/// sequence number (the greatest number for "not measured"). A reading that
/// is there comes as text that reads as a decimal number.
pub open spec fn has_format5_layout(v: Format5View, data: Seq<u8>) -> bool {
    &&& v.temperature is None <==> be16_signed(data, 1) == -0x8000
    &&& v.humidity is None <==> be16(data, 3) == 0xFFFF
    &&& v.pressure is None <==> be16(data, 5) == 0xFFFF
    &&& is_readable(v.temperature) && is_readable(v.humidity) && is_readable(v.pressure)
    &&& v.acceleration_x == axis_at(data, 7)
    &&& v.acceleration_y == axis_at(data, 9)
    &&& v.acceleration_z == axis_at(data, 11)
    &&& v.battery_voltage == if be16(data, 13) / 32 == 2047 {
        None
    } else {
        Some((be16(data, 13) / 32 + 1600) as u16)
    }
    &&& v.tx_power == if be16(data, 13) % 32 == 31 {
        None
    } else {
        Some((2 * (be16(data, 13) % 32) - 40) as i8)
    }
    &&& v.movement_counter == if data[15] == 255 {
        None
    } else {
        Some(data[15])
    }
    &&& v.measurement_sequence == bounded_at(data, 16, 0xFFFE)
}

/// What the layout of format 6 says of the fields that the bytes decide.
///
/// After the format byte come, each most significant byte first:
/// temperature (signed, the least number for "not measured"), humidity
/// (absent above 40000), pressure (the greatest number for "not measured"),
/// particulate matter (absent above 10000), carbon dioxide (absent above
/// 40000), the upper eight bits of the two indices, the luminosity code, a
/// byte that is not used, the sequence number and the flags, whose bit 6 is
/// the lowest bit of the first index and whose bit 7 that of the second. A
/// reading that is there comes as text that reads as a decimal number, the
/// pressure as one of which a hundred times can be held.
pub open spec fn has_format6_layout(f: Format6Fields, data: Seq<u8>) -> bool {
    &&& f.temperature is None <==> be16_signed(data, 1) == -0x8000
    &&& f.humidity is None <==> be16(data, 3) > 40000
    &&& f.pressure is None <==> be16(data, 5) == 0xFFFF
    &&& f.pm2_5 is None <==> be16(data, 7) > 10000
    &&& is_readable(f.temperature) && is_readable(f.humidity) && is_readable(f.pm2_5)
    &&& pascals_of(f.pressure) is Some
    &&& f.co2 == bounded_at(data, 9, 40000)
    &&& f.voc_index == index_at(data[11], (data[16] as int / 64) % 2)
    &&& f.nox_index == index_at(data[12], data[16] as int / 128)
    &&& f.measurement_sequence == Some(data[15])
}

/// What holds of the luminosity of a format 6 payload, whatever the machine:
/// it is absent exactly when its code is 255, and else comes as text that
/// reads as a decimal number.
pub open spec fn is_luminosity_of(data: Seq<u8>, luminosity: Option<Seq<char>>) -> bool {
    &&& luminosity is None <==> data[13] == 255
    &&& is_readable(luminosity)
}

/// Calls `ruuvi_decoders::v5::decode`. The result is a function of the bytes
/// alone and is named `format5_fields`; readings that the decoder returns as
/// floating-point numbers are taken as their shortest decimal text, a refusal
/// as its debug text. The decoder accepts exactly the payloads of 24 bytes
/// that begin with the byte 5. Of the fields of an accepted payload the
/// contract states the whole-number fields and which readings are there, as
/// the decoder reads them from the bytes, and that each reading's text, the
/// text of a finite number of at most 17 significant digits, reads as a
/// decimal number.
#[verifier::external_body]
fn decode_format5(data: &[u8]) -> (r: Result<Format5Values, String>)
    ensures
        fields5_view(r) == format5_fields(data@),
        r is Ok <==> is_format5_payload(data@),
        r is Ok ==> has_format5_layout(r->Ok_0@, data@),
{
    match ruuvi_decoders::v5::decode(data) {
        Ok(v) => Ok(Format5Values {
            temperature: v.temperature.map(|x| format!("{x}")),
            humidity: v.humidity.map(|x| format!("{x}")),
            pressure: v.pressure.map(|x| format!("{x}")),
            acceleration_x: v.acceleration_x,
            acceleration_y: v.acceleration_y,
            acceleration_z: v.acceleration_z,
            battery_voltage: v.battery_voltage,
            tx_power: v.tx_power,
            movement_counter: v.movement_counter,
            measurement_sequence: v.measurement_sequence,
        }),
        Err(e) => Err(format!("{e:?}")),
    }
}

/// Calls `ruuvi_decoders::v6::decode`. But for the luminosity the result is
/// a function of the bytes alone and is named `format6_fields`; readings that
/// the decoder returns as floating-point numbers are taken as their shortest
/// decimal text, a refusal as its debug text. The decoder accepts exactly the
/// payloads of 20 bytes that begin with the byte 6. Of the fields of an
/// accepted payload the contract states the whole-number fields and which
/// readings are there, as the decoder reads them from the bytes, and that
/// each reading's text, the text of a finite number of at most 17
/// significant digits, reads as a decimal number; the pressure lies between
/// 500 and 1156, so that a hundred times it can be held. Of the luminosity,
/// which the decoder computes with `ln` and `exp`, only that is stated which
/// holds of every outcome.
#[verifier::external_body]
fn decode_format6(data: &[u8]) -> (r: Result<Format6Values, String>)
    ensures
        fields6_view(r) == format6_fields(data@),
        r is Ok <==> is_format6_payload(data@),
        r is Ok ==> has_format6_layout(decided_fields(r->Ok_0@), data@),
        r is Ok ==> is_luminosity_of(data@, r->Ok_0@.luminosity),
{
    match ruuvi_decoders::v6::decode(data) {
        Ok(v) => Ok(Format6Values {
            temperature: v.temperature.map(|x| format!("{x}")),
            humidity: v.humidity.map(|x| format!("{x}")),
            pressure: v.pressure.map(|x| format!("{x}")),
            pm2_5: v.pm2_5.map(|x| format!("{x}")),
            co2: v.co2,
            voc_index: v.voc_index,
            nox_index: v.nox_index,
            luminosity: v.luminosity.map(|x| format!("{x}")),
            measurement_sequence: v.measurement_sequence,
        }),
        Err(e) => Err(format!("{e:?}")),
    }
}

/// Reads the system clock (`std::time::SystemTime::now`) and gives the time
/// since the Unix epoch in nanoseconds, or nothing when the clock stands
/// before the epoch. Nothing is claimed of the value.
#[verifier::external_body]
fn unix_time_nanos() -> (t: Option<u128>) {
    match std::time::SystemTime::now().duration_since(std::time::UNIX_EPOCH) {
        Ok(d) => Some(d.as_nanos()),
        Err(_) => None,
    }
}

/// The timestamp that stands for any time before the Unix epoch.
pub const BEFORE_EPOCH: i128 = -1;

/// The current time as a timestamp: nanoseconds from the Unix epoch, or
/// `BEFORE_EPOCH` when the clock stands before it.
fn timestamp_now() -> (t: i128)
    ensures
        exists|reading: Option<u128>| t == #[trigger] timestamp_of(reading),
        t >= BEFORE_EPOCH,
{
    let reading = unix_time_nanos();
    let t = timestamp_from(reading);
    assert(t == timestamp_of(reading));
    t
}

/// The timestamp of a reading of the system clock: the nanoseconds since
/// the Unix epoch, held at the largest timestamp when they are more than
/// that, and `BEFORE_EPOCH` for a clock that stands before the epoch.
pub open spec fn timestamp_of(reading: Option<u128>) -> i128 {
    match reading {
        Some(n) => if n <= i128::MAX {
            n as i128
        } else {
            i128::MAX
        },
        None => BEFORE_EPOCH,
    }
}

/// Turns a reading of the system clock into a timestamp.
pub fn timestamp_from(reading: Option<u128>) -> (t: i128)
    ensures
        t == timestamp_of(reading),
{
    match reading {
        Some(n) => {
            if n <= i128::MAX as u128 {
                n as i128
            } else {
                i128::MAX
            }
        },
        None => BEFORE_EPOCH,
    }
}

/// An optional reading that arrived as text: absent, a number, or unreadable
/// (the outer `None`).
pub open spec fn reading_of(t: Option<Seq<char>>) -> Option<Option<Decimal>> {
    match t {
        None => Some(None),
        Some(s) => match decimal_value(s) {
            Some((units, scale)) => Some(Some(Decimal { units: units as i64, scale: scale as u8 })),
            None => None,
        },
    }
}

/// A whole number as a reading.
pub open spec fn whole(n: int) -> Decimal {
    Decimal { units: n as i64, scale: 0 }
}

/// Thousandths as a reading: millivolts in volts, thousandths of g in g.
pub open spec fn thousandths(n: int) -> Decimal {
    Decimal { units: n as i64, scale: 3 }
}

/// The message of the error for a payload whose format byte is `format`.
pub open spec fn unsupported_format_text(format: u8) -> Seq<char> {
    "RuuviTag data format "@ + digits(format as nat) + " (only V5 and V6 supported)"@
}

/// The message of the error for a payload that the payload decoder refused
/// with the text `refusal`.
pub open spec fn decoder_failure_text(refusal: Seq<char>) -> Seq<char> {
    "Failed to decode RuuviTag data: "@ + refusal
}

/// The refusal that stands for a reading whose text is not a number that a
/// measurement can hold.
pub open spec fn unreadable_text() -> Seq<char> {
    "reading is not a decimal number"@
}

/// The measurement that format 5 fields give.
///
/// Temperature, humidity and pressure are taken as they are. Millivolts
/// become volts. The three axes become one vector, in g, only when all three
/// are there. The counters are widened. Format 5 carries nothing else.
pub open spec fn format5_measurement(
    mac: MacAddress,
    timestamp: i128,
    v: Format5View,
) -> Result<Measurement, DecodeErrorView> {
    match (reading_of(v.temperature), reading_of(v.humidity), reading_of(v.pressure)) {
        (Some(temperature), Some(humidity), Some(pressure)) => Ok(
            Measurement {
                mac,
                timestamp,
                temperature,
                humidity,
                pressure,
                battery: match v.battery_voltage {
                    Some(mv) => Some(thousandths(mv as int)),
                    None => None,
                },
                tx_power: v.tx_power,
                movement_counter: match v.movement_counter {
                    Some(c) => Some(c as u32),
                    None => None,
                },
                measurement_sequence: match v.measurement_sequence {
                    Some(n) => Some(n as u32),
                    None => None,
                },
                acceleration: match (v.acceleration_x, v.acceleration_y, v.acceleration_z) {
                    (Some(x), Some(y), Some(z)) => Some(
                        (thousandths(x as int), thousandths(y as int), thousandths(z as int)),
                    ),
                    _ => None,
                },
                pm2_5: None,
                co2: None,
                voc_index: None,
                nox_index: None,
                luminosity: None,
            },
        ),
        _ => Err(DecodeErrorView::DecoderError(decoder_failure_text(unreadable_text()))),
    }
}

/// The pressure in pascals of a reading in hectopascals; the outer `None`
/// when it is unreadable or too large to hold.
pub open spec fn pascals_of(hpa: Option<Seq<char>>) -> Option<Option<Decimal>> {
    match reading_of(hpa) {
        Some(Some(d)) => match times_hundred_of(d) {
            Some(pa) => Some(Some(pa)),
            None => None,
        },
        Some(None) => Some(None),
        None => None,
    }
}

/// A whole-number field as an optional reading.
pub open spec fn whole_reading(n: Option<u16>) -> Option<Decimal> {
    match n {
        Some(v) => Some(whole(v as int)),
        None => None,
    }
}

/// The measurement that format 6 fields give.
///
/// Pressure comes in hectopascals and is held in pascals. Format 6 carries
/// no acceleration, battery voltage, transmit power or movement counter.
pub open spec fn format6_measurement(
    mac: MacAddress,
    timestamp: i128,
    v: Format6View,
) -> Result<Measurement, DecodeErrorView> {
    match (
        reading_of(v.temperature),
        reading_of(v.humidity),
        pascals_of(v.pressure),
        reading_of(v.pm2_5),
        reading_of(v.luminosity),
    ) {
        (Some(temperature), Some(humidity), Some(pressure), Some(pm2_5), Some(luminosity)) => Ok(
            Measurement {
                mac,
                timestamp,
                temperature,
                humidity,
                pressure,
                battery: None,
                tx_power: None,
                movement_counter: None,
                measurement_sequence: match v.measurement_sequence {
                    Some(n) => Some(n as u32),
                    None => None,
                },
                acceleration: None,
                pm2_5,
                co2: whole_reading(v.co2),
                voc_index: whole_reading(v.voc_index),
                nox_index: whole_reading(v.nox_index),
                luminosity,
            },
        ),
        _ => Err(DecodeErrorView::DecoderError(decoder_failure_text(unreadable_text()))),
    }
}

/// A decode result with the error's message as a sequence of characters.
pub open spec fn result_view(r: Result<Measurement, DecodeError>) -> Result<
    Measurement,
    DecodeErrorView,
> {
    match r {
        Ok(m) => Ok(m),
        Err(e) => Err(e@),
    }
}

/// What is known of the payload decoder's results for `data`: a payload of
/// the right length for its format is accepted, and its fields are those
/// that the layout of the format says.
pub open spec fn decoder_keeps_layout(data: Seq<u8>) -> bool {
    &&& is_format5_payload(data) ==> format5_fields(data) is Ok && has_format5_layout(
        format5_fields(data)->Ok_0,
        data,
    )
    &&& is_format6_payload(data) ==> format6_fields(data) is Ok && has_format6_layout(
        format6_fields(data)->Ok_0,
        data,
    )
}

/// What decoding the payload `data` of the device `mac` gives at the time
/// `timestamp`, when the payload decoder hands out `luminosity` for a
/// payload of format 6.
///
/// An empty payload is invalid data. The first byte names the format: 5 and
/// 6 go to the payload decoder, whose refusal becomes a decoder error and
/// whose fields become the measurement; any other byte is an unsupported
/// format, named in the message.
pub open spec fn decoding(
    mac: MacAddress,
    data: Seq<u8>,
    timestamp: i128,
    luminosity: Option<Seq<char>>,
) -> Result<Measurement, DecodeErrorView> {
    if data.len() == 0 {
        Err(DecodeErrorView::InvalidData("Empty data"@))
    } else if data[0] == 5 {
        match format5_fields(data) {
            Ok(v) => format5_measurement(mac, timestamp, v),
            Err(refusal) => Err(DecodeErrorView::DecoderError(decoder_failure_text(refusal))),
        }
    } else if data[0] == 6 {
        match format6_fields(data) {
            Ok(f) => format6_measurement(mac, timestamp, with_luminosity(f, luminosity)),
            Err(refusal) => Err(DecodeErrorView::DecoderError(decoder_failure_text(refusal))),
        }
    } else {
        Err(DecodeErrorView::UnsupportedFormat(unsupported_format_text(data[0])))
    }
}

/// Whether `r` is what decoding `data` gives.
///
/// A payload of the right length for format 5 or 6 gives a measurement, any
/// other an error. A measurement is that of `decoding` at the time that it
/// bears and, for format 6, with a luminosity that fits the payload's
/// luminosity code; an error is that of `decoding` at any time and with any
/// luminosity.
pub open spec fn is_decoding(r: Result<Measurement, DecodeError>, mac: MacAddress, data: Seq<u8>) -> bool {
    &&& decoder_keeps_layout(data)
    &&& r is Ok <==> is_format5_payload(data) || is_format6_payload(data)
    &&& match r {
        Ok(m) => exists|luminosity: Option<Seq<char>>|
            {
                &&& is_format6_payload(data) ==> is_luminosity_of(data, luminosity)
                &&& #[trigger] decoding(mac, data, m.timestamp, luminosity) == result_view(r)
            },
        Err(e) => forall|t: i128, luminosity: Option<Seq<char>>| #[trigger]
            decoding(mac, data, t, luminosity) == result_view(r),
    }
}

fn read_text(t: &Option<String>) -> (r: Option<Option<Decimal>>)
    ensures
        r == reading_of(text_view(*t)),
{
    match t {
        None => Some(None),
        Some(s) => match Decimal::parse(s.as_str()) {
            Some(d) => Some(Some(d)),
            None => None,
        },
    }
}

fn unreadable() -> (e: DecodeError)
    ensures
        e@ == DecodeErrorView::DecoderError(decoder_failure_text(unreadable_text())),
{
    DecodeError::DecoderError(
        "Failed to decode RuuviTag data: ".to_owned().concat("reading is not a decimal number"),
    )
}

/// Builds the measurement of a device from format 5 fields.
pub fn measurement_from_format5(mac: MacAddress, timestamp: i128, v: &Format5Values) -> (r: Result<
    Measurement,
    DecodeError,
>)
    ensures
        result_view(r) == format5_measurement(mac, timestamp, v@),
{
    let temperature = read_text(&v.temperature);
    let humidity = read_text(&v.humidity);
    let pressure = read_text(&v.pressure);
    match (temperature, humidity, pressure) {
        (Some(temperature), Some(humidity), Some(pressure)) => {
            let acceleration = match (v.acceleration_x, v.acceleration_y, v.acceleration_z) {
                (Some(x), Some(y), Some(z)) => Some(
                    (
                        Decimal::new(x as i64, 3),
                        Decimal::new(y as i64, 3),
                        Decimal::new(z as i64, 3),
                    ),
                ),
                _ => None,
            };
            Ok(
                Measurement {
                    mac,
                    timestamp,
                    temperature,
                    humidity,
                    pressure,
                    battery: match v.battery_voltage {
                        Some(mv) => Some(Decimal::new(mv as i64, 3)),
                        None => None,
                    },
                    tx_power: v.tx_power,
                    movement_counter: match v.movement_counter {
                        Some(c) => Some(c as u32),
                        None => None,
                    },
                    measurement_sequence: match v.measurement_sequence {
                        Some(n) => Some(n as u32),
                        None => None,
                    },
                    acceleration,
                    pm2_5: None,
                    co2: None,
                    voc_index: None,
                    nox_index: None,
                    luminosity: None,
                },
            )
        },
        _ => Err(unreadable()),
    }
}

fn whole_of(n: Option<u16>) -> (r: Option<Decimal>)
    ensures
        r == whole_reading(n),
{
    match n {
        Some(v) => Some(Decimal::new(v as i64, 0)),
        None => None,
    }
}

fn read_pascals(hpa: &Option<String>) -> (r: Option<Option<Decimal>>)
    ensures
        r == pascals_of(text_view(*hpa)),
{
    match read_text(hpa) {
        Some(Some(d)) => match d.times_hundred() {
            Some(pa) => Some(Some(pa)),
            None => None,
        },
        Some(None) => Some(None),
        None => None,
    }
}

/// Builds the measurement of a device from format 6 fields.
pub fn measurement_from_format6(mac: MacAddress, timestamp: i128, v: &Format6Values) -> (r: Result<
    Measurement,
    DecodeError,
>)
    ensures
        result_view(r) == format6_measurement(mac, timestamp, v@),
{
    let temperature = read_text(&v.temperature);
    let humidity = read_text(&v.humidity);
    let pressure = read_pascals(&v.pressure);
    let pm2_5 = read_text(&v.pm2_5);
    let luminosity = read_text(&v.luminosity);
    match (temperature, humidity, pressure, pm2_5, luminosity) {
        (Some(temperature), Some(humidity), Some(pressure), Some(pm2_5), Some(luminosity)) => Ok(
            Measurement {
                mac,
                timestamp,
                temperature,
                humidity,
                pressure,
                battery: None,
                tx_power: None,
                movement_counter: None,
                measurement_sequence: match v.measurement_sequence {
                    Some(n) => Some(n as u32),
                    None => None,
                },
                acceleration: None,
                pm2_5,
                co2: whole_of(v.co2),
                voc_index: whole_of(v.voc_index),
                nox_index: whole_of(v.nox_index),
                luminosity,
            },
        ),
        _ => Err(unreadable()),
    }
}

fn decoder_failure(refusal: &String) -> (e: DecodeError)
    ensures
        e@ == DecodeErrorView::DecoderError(decoder_failure_text(refusal@)),
{
    DecodeError::DecoderError("Failed to decode RuuviTag data: ".to_owned().concat(refusal.as_str()))
}

fn unsupported_format(format: u8) -> (e: DecodeError)
    ensures
        e@ == DecodeErrorView::UnsupportedFormat(unsupported_format_text(format)),
{
    let mut m = "RuuviTag data format ".to_owned();
    push_unsigned(&mut m, format as u128);
    m.append(" (only V5 and V6 supported)");
    DecodeError::UnsupportedFormat(m)
}

/// Decodes the vendor payload of an advertisement (vendor identifier
/// stripped) of the device `mac` into a measurement stamped with the current
/// time.
///
/// Succeeds exactly on the payloads that begin with 5 and are 24 bytes long,
/// or begin with 6 and are 20 bytes long.
pub fn decode_ruuvi_data(mac: MacAddress, data: &[u8]) -> (r: Result<Measurement, DecodeError>)
    ensures
        is_decoding(r, mac, data@),
        r is Ok <==> is_format5_payload(data@) || is_format6_payload(data@),
        r is Ok ==> r->Ok_0.timestamp >= BEFORE_EPOCH,
{
    if data.len() == 0 {
        return Err(DecodeError::InvalidData("Empty data".to_owned()));
    }
    let format: u8 = data[0];
    if format == 5 {
        match decode_format5(data) {
            Ok(v) => {
                let r = measurement_from_format5(mac, timestamp_now(), &v);
                assert(r is Ok);
                assert(decoding(mac, data@, r->Ok_0.timestamp, None) == result_view(r));
                r
            },
            Err(refusal) => Err(decoder_failure(&refusal)),
        }
    } else if format == 6 {
        match decode_format6(data) {
            Ok(v) => {
                let r = measurement_from_format6(mac, timestamp_now(), &v);
                assert(with_luminosity(decided_fields(v@), v@.luminosity) == v@);
                assert(r is Ok);
                assert(decoding(mac, data@, r->Ok_0.timestamp, v@.luminosity) == result_view(r));
                r
            },
            Err(refusal) => Err(decoder_failure(&refusal)),
        }
    } else {
        Err(unsupported_format(format))
    }
}

} // verus!
