//! Scanner results: decoding of the vendor payload into measurements, the
//! errors of scanning, and the choice of backend.

pub mod decode;
pub mod filter;
pub mod hci;

use crate::mac_address::{address_text, MacAddress};
use crate::text::{ascii_lowercase, chars_of, is_word};
use std::str::FromStr;
use vstd::prelude::*;
use vstd::string::StringExecFns;

pub use decode::decode_ruuvi_data;

verus! {

/// Why a payload gave no measurement.
#[derive(Debug, Clone, PartialEq)]
pub enum DecodeError {
    /// The payload's format byte names a format that is not decoded.
    UnsupportedFormat(String),
    /// The payload cannot be a sensor payload at all.
    InvalidData(String),
    /// The payload decoder refused the payload.
    DecoderError(String),
}

/// A decode error with its message as a sequence of characters.
pub enum DecodeErrorView {
    UnsupportedFormat(Seq<char>),
    InvalidData(Seq<char>),
    DecoderError(Seq<char>),
}

impl View for DecodeError {
    type V = DecodeErrorView;

    open spec fn view(&self) -> DecodeErrorView {
        match self {
            DecodeError::UnsupportedFormat(m) => DecodeErrorView::UnsupportedFormat(m@),
            DecodeError::InvalidData(m) => DecodeErrorView::InvalidData(m@),
            DecodeError::DecoderError(m) => DecodeErrorView::DecoderError(m@),
        }
    }
}

/// The one-line text of a decode error.
pub open spec fn decode_error_text(e: DecodeErrorView) -> Seq<char> {
    match e {
        DecodeErrorView::UnsupportedFormat(m) => "Unsupported format: "@ + m,
        DecodeErrorView::InvalidData(m) => "Invalid data: "@ + m,
        DecodeErrorView::DecoderError(m) => "Decoder error: "@ + m,
    }
}

impl DecodeError {
    /// The error as one line of text.
    pub fn to_string(&self) -> (s: String)
        ensures
            s@ == decode_error_text(self@),
    {
        match self {
            DecodeError::UnsupportedFormat(m) => "Unsupported format: ".to_owned().concat(
                m.as_str(),
            ),
            DecodeError::InvalidData(m) => "Invalid data: ".to_owned().concat(m.as_str()),
            DecodeError::DecoderError(m) => "Decoder error: ".to_owned().concat(m.as_str()),
        }
    }
}

/// The address of a device as text: `AA:BB:CC:DD:EE:FF`.
pub fn format_address(addr: MacAddress) -> (s: String)
    ensures
        s@ == address_text(addr@),
{
    addr.to_string()
}

/// What a scan hands on for one advertisement: a measurement, or why there
/// is none.
pub type MeasurementResult = Result<crate::measurement::Measurement, DecodeError>;

/// How many scan results may wait between the scanner and its reader.
pub const MEASUREMENT_CHANNEL_BUFFER_SIZE: usize = 100;

/// The vendor identifier of the sensors.
pub const RUUVI_MANUFACTURER_ID: u16 = 0x0499;

/// Why scanning failed.
#[derive(Debug)]
pub enum ScanError {
    /// The controller or its sockets could not be set up.
    Bluetooth(String),
    /// A payload gave no measurement.
    Decode(DecodeError),
    /// The named backend is not part of this build.
    BackendNotAvailable(String),
}

/// A scan error with its message as a sequence of characters.
pub enum ScanErrorView {
    Bluetooth(Seq<char>),
    Decode(DecodeErrorView),
    BackendNotAvailable(Seq<char>),
}

impl View for ScanError {
    type V = ScanErrorView;

    open spec fn view(&self) -> ScanErrorView {
        match self {
            ScanError::Bluetooth(m) => ScanErrorView::Bluetooth(m@),
            ScanError::Decode(e) => ScanErrorView::Decode(e@),
            ScanError::BackendNotAvailable(m) => ScanErrorView::BackendNotAvailable(m@),
        }
    }
}

/// The one-line text of a scan error.
pub open spec fn scan_error_text(e: ScanErrorView) -> Seq<char> {
    match e {
        ScanErrorView::Bluetooth(m) => "Bluetooth error: "@ + m,
        ScanErrorView::Decode(d) => "Decode error: "@ + decode_error_text(d),
        ScanErrorView::BackendNotAvailable(name) => "Backend '"@ + name
            + "' not available (not compiled in)"@,
    }
}

impl ScanError {
    /// The error as one line of text.
    pub fn to_string(&self) -> (s: String)
        ensures
            s@ == scan_error_text(self@),
    {
        match self {
            ScanError::Bluetooth(m) => "Bluetooth error: ".to_owned().concat(m.as_str()),
            ScanError::Decode(e) => {
                let inner = e.to_string();
                "Decode error: ".to_owned().concat(inner.as_str())
            },
            ScanError::BackendNotAvailable(name) => "Backend '".to_owned().concat(
                name.as_str(),
            ).concat("' not available (not compiled in)"),
        }
    }
}

impl From<DecodeError> for ScanError {
    fn from(err: DecodeError) -> (e: Self) {
        ScanError::Decode(err)
    }
}

impl vstd::std_specs::convert::FromSpecImpl<DecodeError> for ScanError {
    open spec fn obeys_from_spec() -> bool {
        true
    }

    open spec fn from_spec(err: DecodeError) -> Self {
        ScanError::Decode(err)
    }
}

/// The ways to listen for advertisements.
#[derive(Debug, Clone, Copy, PartialEq, Eq, Structural)]
pub enum Backend {
    /// Through the system's Bluetooth daemon.
    Bluer,
    /// Through a raw socket to the controller, without a daemon.
    Hci,
}

/// The backend that a name stands for, whatever the case of its ASCII letters.
pub open spec fn backend_named(name: Seq<char>) -> Option<Backend> {
    let lower = ascii_lowercase(name);
    if lower == "bluer"@ || lower == "bluez"@ {
        Some(Backend::Bluer)
    } else if lower == "hci"@ || lower == "raw"@ {
        Some(Backend::Hci)
    } else {
        None
    }
}

impl Backend {
    /// The name of the backend.
    pub open spec fn name_text(&self) -> Seq<char> {
        match self {
            Backend::Bluer => "bluer"@,
            Backend::Hci => "hci"@,
        }
    }

    /// The name of the backend: `bluer` or `hci`.
    pub fn to_string(&self) -> (s: String)
        ensures
            s@ == self.name_text(),
    {
        match self {
            Backend::Bluer => "bluer".to_owned(),
            Backend::Hci => "hci".to_owned(),
        }
    }

    /// Resolves a backend name: `bluer` or `bluez`, `hci` or `raw`, in any
    /// case. Any other name is an error that quotes it.
    pub fn parse(s: &str) -> (r: Result<Backend, String>)
        ensures
            match r {
                Ok(b) => backend_named(s@) == Some(b),
                Err(m) => backend_named(s@) is None && m@ == "Unknown backend: "@ + s@,
            },
    {
        let cs = chars_of(s);
        if is_word(&cs, "bluer") || is_word(&cs, "bluez") {
            Ok(Backend::Bluer)
        } else if is_word(&cs, "hci") || is_word(&cs, "raw") {
            Ok(Backend::Hci)
        } else {
            Err("Unknown backend: ".to_owned().concat(s))
        }
    }
}

/// Whether a backend is part of this build: the raw-socket backend is, the
/// one that goes through the system's Bluetooth daemon is not.
pub open spec fn is_available(backend: Backend) -> bool {
    backend == Backend::Hci
}

/// Tells whether scanning can start with the backend asked for. A backend
/// that is not part of this build is an error that names it.
pub fn check_backend(backend: Backend) -> (r: Result<(), ScanError>)
    ensures
        r is Ok <==> is_available(backend),
        r is Err ==> r->Err_0@ == ScanErrorView::BackendNotAvailable(backend.name_text()),
{
    match backend {
        Backend::Hci => Ok(()),
        Backend::Bluer => Err(ScanError::BackendNotAvailable(backend.to_string())),
    }
}

impl Default for Backend {
    fn default() -> (b: Self)
        ensures
            b == Backend::Bluer,
    {
        Backend::Bluer
    }
}

impl FromStr for Backend {
    type Err = String;

    fn from_str(s: &str) -> (r: Result<Self, String>)
        ensures
            match r {
                Ok(b) => backend_named(s@) == Some(b),
                Err(m) => backend_named(s@) is None && m@ == "Unknown backend: "@ + s@,
            },
    {
        Backend::parse(s)
    }
}

} // verus!
