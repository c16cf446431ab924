//! Listener core for environmental sensor beacons: device identifiers,
//! payload decoding, kernel packet filtering, advertisement parsing,
//! per-device throttling and line-protocol encoding.

pub mod alias;
pub mod decimal;
pub mod mac_address;
pub mod measurement;
pub mod output;
pub mod pipeline;
pub mod scanner;
pub mod text;
pub mod throttle;

pub use alias::{parse_alias, resolve_name, to_map, Alias, AliasMap};
pub use mac_address::MacAddress;
pub use measurement::Measurement;
pub use output::influxdb::InfluxDbFormatter;
pub use output::OutputFormatter;
pub use scanner::{decode_ruuvi_data, Backend, DecodeError, MeasurementResult, ScanError};
pub use throttle::{parse_duration, Throttle};
