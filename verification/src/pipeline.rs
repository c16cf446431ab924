//! The processing of scan results: each decoded measurement passes the
//! throttle, is given its name and becomes a line; each decode error becomes
//! a diagnostic when diagnostics are wanted.

use crate::alias::{alias_names, resolve_name, resolved_name, to_map, Alias, AliasMap};
use crate::mac_address::address_number;
use crate::measurement::Measurement;
use crate::output::influxdb::{line_text, InfluxDbFormatter};
use crate::scanner::{decode_error_text, Backend, DecodeError, ScanError};
use crate::throttle::{Throttle, ThrottleState};
use vstd::prelude::*;

verus! {

/// `std::io::Error`, what a failed write gives; nothing of its inside is
/// known here.
#[verifier::external_type_specification]
#[verifier::external_body]
pub struct ExIoError(std::io::Error);

/// The settings of a run.
#[derive(Debug, Clone)]
pub struct Options {
    /// The name of the series that lines are written to.
    pub influxdb_measurement: String,
    /// Names for devices.
    pub aliases: Vec<Alias>,
    /// Whether decode errors are reported.
    pub verbose: bool,
    /// The least time between two lines of one device, in nanoseconds; none
    /// for no limit.
    pub throttle: Option<u128>,
    /// The way to listen.
    pub backend: Backend,
}

/// Why a run ended early.
#[derive(Debug)]
pub enum RunError {
    /// Scanning could not be started.
    Scan(ScanError),
    /// A line could not be written.
    Io(std::io::Error),
}

impl From<ScanError> for RunError {
    fn from(err: ScanError) -> (e: Self) {
        RunError::Scan(err)
    }
}

impl vstd::std_specs::convert::FromSpecImpl<ScanError> for RunError {
    open spec fn obeys_from_spec() -> bool {
        true
    }

    open spec fn from_spec(err: ScanError) -> Self {
        RunError::Scan(err)
    }
}

impl From<std::io::Error> for RunError {
    fn from(err: std::io::Error) -> (e: Self) {
        RunError::Io(err)
    }
}

impl vstd::std_specs::convert::FromSpecImpl<std::io::Error> for RunError {
    open spec fn obeys_from_spec() -> bool {
        true
    }

    open spec fn from_spec(err: std::io::Error) -> Self {
        RunError::Io(err)
    }
}

/// What is to be written for one scan result.
#[derive(Debug, Clone, PartialEq)]
pub enum Output {
    /// A line for the output stream.
    Line(String),
    /// A line for the error stream.
    Diagnostic(String),
    /// Nothing.
    Nothing,
}

/// An output with its text as a sequence of characters.
pub enum OutputView {
    Line(Seq<char>),
    Diagnostic(Seq<char>),
    Nothing,
}

impl View for Output {
    type V = OutputView;

    open spec fn view(&self) -> OutputView {
        match self {
            Output::Line(s) => OutputView::Line(s@),
            Output::Diagnostic(s) => OutputView::Diagnostic(s@),
            Output::Nothing => OutputView::Nothing,
        }
    }
}

/// The stages that a scan result passes: throttle, naming, encoding.
pub struct Pipeline {
    formatter: InfluxDbFormatter,
    aliases: AliasMap,
    throttle: Option<Throttle>,
    verbose: bool,
}

/// What a pipeline is made of, as far as its outputs depend on it.
pub struct PipelineState {
    pub series: Seq<char>,
    pub names: Map<u64, Seq<char>>,
    pub throttle: Option<ThrottleState>,
    pub verbose: bool,
}

impl PipelineState {
    /// Whether a measurement of the device `key` is let through at `now`:
    /// always without a throttle, else as the throttle decides.
    pub open spec fn lets_through(self, key: u64, now: u128) -> bool {
        match self.throttle {
            Some(t) => t.emits(key, now),
            None => true,
        }
    }

    /// What is written for a scan result at `now`: for a measurement that is
    /// let through its line, under the device's alias or else its address;
    /// for a decode error its text when diagnostics are wanted; else
    /// nothing.
    pub open spec fn output(self, result: Result<Measurement, DecodeError>, now: u128) -> OutputView {
        match result {
            Ok(m) => if self.lets_through(address_number(m.mac@) as u64, now) {
                OutputView::Line(line_text(self.series, m, resolved_name(m.mac@, self.names)))
            } else {
                OutputView::Nothing
            },
            Err(e) => if self.verbose {
                OutputView::Diagnostic(decode_error_text(e@))
            } else {
                OutputView::Nothing
            },
        }
    }

    /// The pipeline after a scan result at `now`: only the throttle changes,
    /// and only on a measurement.
    pub open spec fn next(self, result: Result<Measurement, DecodeError>, now: u128) -> PipelineState {
        PipelineState {
            series: self.series,
            names: self.names,
            throttle: match (self.throttle, result) {
                (Some(t), Ok(m)) => Some(t.observed(address_number(m.mac@) as u64, now)),
                (t, _) => t,
            },
            verbose: self.verbose,
        }
    }
}

/// Without a throttle every measurement becomes a line, and the pipeline
/// stays as it is.
pub proof fn lemma_no_throttle_writes_every_measurement(
    p: PipelineState,
    m: Measurement,
    now: u128,
)
    requires
        p.throttle is None,
    ensures
        p.output(Ok(m), now) is Line,
        p.next(Ok(m), now) == p,
{
}

/// A decode error never changes the pipeline, and is written only when
/// diagnostics are wanted.
pub proof fn lemma_decode_error_leaves_pipeline(p: PipelineState, e: DecodeError, now: u128)
    ensures
        p.next(Err(e), now) == p,
        p.output(Err(e), now) is Diagnostic <==> p.verbose,
        !(p.output(Err(e), now) is Line),
{
}

impl Pipeline {
    /// What the pipeline is made of.
    pub closed spec fn view(&self) -> PipelineState {
        PipelineState {
            series: self.formatter.series(),
            names: self.aliases@,
            throttle: match self.throttle {
                Some(t) => Some(t@),
                None => None,
            },
            verbose: self.verbose,
        }
    }

    /// The pipeline that the settings ask for. Its throttle, if any,
    /// remembers no device yet.
    pub fn new(options: &Options) -> (p: Pipeline)
        ensures
            p@ == (PipelineState {
                series: options.influxdb_measurement@,
                names: alias_names(options.aliases@),
                throttle: match options.throttle {
                    Some(interval) => Some(
                        ThrottleState { interval, last_seen: Map::empty(), check_count: 0 },
                    ),
                    None => None,
                },
                verbose: options.verbose,
            }),
    {
        let throttle = match options.throttle {
            Some(interval) => Some(Throttle::new(interval)),
            None => None,
        };
        Pipeline {
            formatter: InfluxDbFormatter::new(options.influxdb_measurement.clone()),
            aliases: to_map(options.aliases.as_slice()),
            throttle,
            verbose: options.verbose,
        }
    }

    /// Passes one scan result through the pipeline at the time `now`.
    pub fn handle_at(&mut self, result: &Result<Measurement, DecodeError>, now: u128) -> (out: Output)
        ensures
            out@ == old(self)@.output(*result, now),
            final(self)@ == old(self)@.next(*result, now),
    {
        match result {
            Ok(m) => {
                let through = match &mut self.throttle {
                    Some(t) => t.should_emit_at(m.mac, now),
                    None => true,
                };
                if through {
                    let name = resolve_name(&m.mac, &self.aliases);
                    Output::Line(self.formatter.format_line(m, name.as_str()))
                } else {
                    Output::Nothing
                }
            },
            Err(e) => {
                if self.verbose {
                    Output::Diagnostic(e.to_string())
                } else {
                    Output::Nothing
                }
            },
        }
    }

    /// Passes one scan result through the pipeline, with the throttle's own
    /// clock. What holds of `handle_at` holds of the time that the clock
    /// gave.
    pub fn handle(&mut self, result: &Result<Measurement, DecodeError>) -> (out: Output)
        ensures
            exists|now: u128|
                out@ == #[trigger] old(self)@.output(*result, now) && final(self)@ == old(
                    self,
                )@.next(*result, now),
    {
        match result {
            Ok(m) => {
                let ghost before = self@;
                let through = match &mut self.throttle {
                    Some(t) => t.should_emit(m.mac),
                    None => true,
                };
                let ghost now: u128 = match before.throttle {
                    Some(t) => choose|now: u128|
                        through == #[trigger] t.emits(address_number(m.mac@) as u64, now)
                            && self@.throttle == Some(
                            t.observed(address_number(m.mac@) as u64, now),
                        ),
                    None => 0,
                };
                let out = if through {
                    let name = resolve_name(&m.mac, &self.aliases);
                    Output::Line(self.formatter.format_line(m, name.as_str()))
                } else {
                    Output::Nothing
                };
                assert(out@ == before.output(*result, now));
                assert(self@ == before.next(*result, now));
                out
            },
            Err(e) => {
                let out = if self.verbose {
                    Output::Diagnostic(e.to_string())
                } else {
                    Output::Nothing
                };
                assert(out@ == old(self)@.output(*result, 0));
                assert(self@ == old(self)@.next(*result, 0));
                out
            },
        }
    }
}

} // verus!
