//! Formatters that turn a measurement into one line of output.

pub mod influxdb;

use crate::measurement::Measurement;
use vstd::prelude::*;

verus! {

/// A way to write a measurement as one line of text.
pub trait OutputFormatter {
    /// The line for `measurement`, sent by the device known as `name`.
    fn format(&self, measurement: &Measurement, name: &str) -> String;
}

} // verus!
