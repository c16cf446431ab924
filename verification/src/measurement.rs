//! One decoded sensor reading.

use crate::decimal::Decimal;
use crate::mac_address::MacAddress;
use vstd::prelude::*;

verus! {

/// A measurement from one advertisement.
///
/// Every reading is optional: `None` means that the advertisement did not
/// carry the quantity, which is not the same as a reading of zero.
#[derive(Debug, Clone, PartialEq)]
pub struct Measurement {
    /// Address of the device that sent the advertisement.
    pub mac: MacAddress,
    /// When the measurement was taken, in nanoseconds from the Unix epoch
    /// (negative before it).
    pub timestamp: i128,
    /// Temperature in degrees Celsius.
    pub temperature: Option<Decimal>,
    /// Relative humidity in percent.
    pub humidity: Option<Decimal>,
    /// Atmospheric pressure in pascals.
    pub pressure: Option<Decimal>,
    /// Battery voltage in volts.
    pub battery: Option<Decimal>,
    /// Transmit power in dBm.
    pub tx_power: Option<i8>,
    /// Movement counter.
    pub movement_counter: Option<u32>,
    /// Measurement sequence number.
    pub measurement_sequence: Option<u32>,
    /// Acceleration along x, y and z, in g.
    pub acceleration: Option<(Decimal, Decimal, Decimal)>,
    /// Particulate matter up to 2.5 micrometres, in micrograms per cubic metre.
    pub pm2_5: Option<Decimal>,
    /// Carbon dioxide in parts per million.
    pub co2: Option<Decimal>,
    /// Volatile organic compounds index.
    pub voc_index: Option<Decimal>,
    /// Nitrogen oxides index.
    pub nox_index: Option<Decimal>,
    /// Luminosity in lux.
    pub luminosity: Option<Decimal>,
}

/// The measurement of `mac` at `timestamp` that carries no reading at all.
pub open spec fn no_readings(mac: MacAddress, timestamp: i128) -> Measurement {
    Measurement {
        mac,
        timestamp,
        temperature: None,
        humidity: None,
        pressure: None,
        battery: None,
        tx_power: None,
        movement_counter: None,
        measurement_sequence: None,
        acceleration: None,
        pm2_5: None,
        co2: None,
        voc_index: None,
        nox_index: None,
        luminosity: None,
    }
}

/// A measurement with every reading absent, to fill in from there.
pub fn base_measurement(mac: MacAddress, timestamp: i128) -> (m: Measurement)
    ensures
        m == no_readings(mac, timestamp),
{
    Measurement {
        mac,
        timestamp,
        temperature: None,
        humidity: None,
        pressure: None,
        battery: None,
        tx_power: None,
        movement_counter: None,
        measurement_sequence: None,
        acceleration: None,
        pm2_5: None,
        co2: None,
        voc_index: None,
        nox_index: None,
        luminosity: None,
    }
}

} // verus!
