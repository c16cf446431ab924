use ruuvitag_listener::alias::Alias;
use ruuvitag_listener::decimal::Decimal;
use ruuvitag_listener::mac_address::MacAddress;
use ruuvitag_listener::measurement::{base_measurement, Measurement};
use ruuvitag_listener::pipeline::{Options, Output, Pipeline, RunError};
use ruuvitag_listener::scanner::{decode_ruuvi_data, Backend, DecodeError, MeasurementResult, ScanError};
use std::time::Duration;

fn measurement(mac: MacAddress, timestamp: i128) -> Measurement {
    Measurement {
        temperature: Some(Decimal::new(255, 1)),
        humidity: Some(Decimal::new(60, 0)),
        pressure: Some(Decimal::new(101_325, 0)),
        battery: Some(Decimal::new(3, 0)),
        tx_power: Some(4),
        movement_counter: Some(10),
        measurement_sequence: Some(100),
        ..base_measurement(mac, timestamp)
    }
}

fn options() -> Options {
    Options {
        influxdb_measurement: "ruuvi_measurement".to_string(),
        aliases: vec![],
        verbose: false,
        throttle: None,
        backend: Backend::Bluer,
    }
}

/// Runs the results through a pipeline and collects what would be written
/// to the output stream and to the error stream.
fn run(options: &Options, results: &[MeasurementResult]) -> (String, String) {
    let mut pipeline = Pipeline::new(options);
    let mut out = String::new();
    let mut err = String::new();
    for result in results {
        match pipeline.handle(result) {
            Output::Line(line) => {
                out.push_str(&line);
                out.push('\n');
            }
            Output::Diagnostic(line) => {
                err.push_str(&line);
                err.push('\n');
            }
            Output::Nothing => {}
        }
    }
    (out, err)
}

#[test]
fn run_writes_measurements_to_out() {
    let mac = MacAddress([0xAA, 0xBB, 0xCC, 0xDD, 0xEE, 0xFF]);
    let timestamp = Duration::from_secs(1).as_nanos() as i128;
    let m = measurement(mac, timestamp);

    let (out, err) = run(&options(), &[Ok(m)]);

    assert!(err.is_empty());

    assert!(out.contains("ruuvi_measurement,"));
    assert!(out.contains("mac=AA:BB:CC:DD:EE:FF"));
    assert!(out.contains("temperature=25.5"));
    assert!(out.ends_with('\n'));
}

#[test]
fn run_applies_throttle() {
    let mac = MacAddress([0xAA, 0xBB, 0xCC, 0xDD, 0xEE, 0xFF]);
    let timestamp = Duration::from_secs(1).as_nanos() as i128;
    let m1 = measurement(mac, timestamp);
    let m2 = measurement(mac, timestamp);

    let options = Options {
        throttle: Some(Duration::from_secs(3600).as_nanos()),
        ..options()
    };
    let (out, _err) = run(&options, &[Ok(m1), Ok(m2)]);

    // only first should pass (no waiting in test, so second is within interval)
    assert_eq!(out.lines().count(), 1);
}

#[test]
fn run_prints_decode_errors_only_when_verbose() {
    let results = [Err(DecodeError::InvalidData("bad packet".to_string()))];

    let base = options();

    // non-verbose: nothing written
    let (out, err) = run(&base, &results);
    assert!(out.is_empty());
    assert!(err.is_empty());

    // verbose: error is written to err
    let mut verbose = base;
    verbose.verbose = true;
    let (out, err) = run(&verbose, &results);

    assert!(out.is_empty());
    assert!(err.contains("Invalid data: bad packet"));
}

fn v5_payload() -> Vec<u8> {
    vec![
        0x05, 0x12, 0xFC, 0x53, 0x94, 0xC3, 0x7C, 0x00, 0x04, 0xFF, 0xFC, 0x04, 0x0C, 0xAC, 0x36,
        0x42, 0x00, 0xCD, 0xCB, 0xB8, 0x33, 0x4C, 0x88, 0x4F,
    ]
}

#[test]
fn hundred_advertisements_of_one_device_give_one_line() {
    let mac = MacAddress([0xAA, 0xBB, 0xCC, 0xDD, 0xEE, 0xFF]);
    let results: Vec<MeasurementResult> =
        (0..100).map(|_| decode_ruuvi_data(mac, &v5_payload())).collect();
    let options = Options {
        throttle: Some(Duration::from_secs(3600).as_nanos()),
        ..options()
    };
    let (out, err) = run(&options, &results);
    assert_eq!(out.lines().count(), 1);
    assert!(err.is_empty());
    let line = out.lines().next().unwrap();
    assert!(line.starts_with("ruuvi_measurement,mac=AA:BB:CC:DD:EE:FF,name=AA:BB:CC:DD:EE:FF "));
    assert!(line.contains("pressure=100.044,battery_potential=2.977,tx_power=4"));
    assert!(line.contains(",movement_counter=66,measurement_sequence_number=205,"));
    assert!(line.contains("acceleration_x=0.004,acceleration_y=-0.004,acceleration_z=1.036 "));
}

#[test]
fn ten_devices_without_throttle_give_ten_lines() {
    let results: Vec<MeasurementResult> = (0..10u8)
        .map(|i| decode_ruuvi_data(MacAddress([0xAA, 0xBB, 0xCC, 0xDD, 0xEE, i]), &v5_payload()))
        .collect();
    let (out, err) = run(&options(), &results);
    assert_eq!(out.lines().count(), 10);
    assert!(err.is_empty());
    for (i, line) in out.lines().enumerate() {
        assert!(line.contains(&format!("mac=AA:BB:CC:DD:EE:{:02X},", i)), "{line}");
    }
}

#[test]
fn ten_devices_with_throttle_give_ten_lines_once() {
    let mut results: Vec<MeasurementResult> = Vec::new();
    for _ in 0..3 {
        for i in 0..10u8 {
            results.push(Ok(measurement(MacAddress([1, 2, 3, 4, 5, i]), 0)));
        }
    }
    let options = Options {
        throttle: Some(Duration::from_secs(3600).as_nanos()),
        ..options()
    };
    let (out, _err) = run(&options, &results);
    assert_eq!(out.lines().count(), 10);
}

#[test]
fn alias_names_the_device_in_the_line() {
    let mac = MacAddress([0xDE, 0xAD, 0xBE, 0xEF, 0x00, 0x00]);
    let options = Options {
        aliases: vec![Alias { address: mac, name: "Sauna, upper".to_string() }],
        ..options()
    };
    let mut pipeline = Pipeline::new(&options);
    let line = pipeline.handle_at(&Ok(base_measurement(mac, 9)), 0);
    assert_eq!(
        line,
        Output::Line(
            "ruuvi_measurement,mac=DE:AD:BE:EF:00:00,name=Sauna\\,\\ upper  9".to_string()
        )
    );
    let other = MacAddress([0xDE, 0xAD, 0xBE, 0xEF, 0x00, 0x01]);
    assert_eq!(
        pipeline.handle_at(&Ok(base_measurement(other, 9)), 0),
        Output::Line(
            "ruuvi_measurement,mac=DE:AD:BE:EF:00:01,name=DE:AD:BE:EF:00:01  9".to_string()
        )
    );
}

#[test]
fn throttle_decides_by_the_time_given() {
    let mac = MacAddress([1, 2, 3, 4, 5, 6]);
    let options = Options { throttle: Some(100), ..options() };
    let mut pipeline = Pipeline::new(&options);
    let m: MeasurementResult = Ok(base_measurement(mac, 0));
    assert!(matches!(pipeline.handle_at(&m, 1000), Output::Line(_)));
    assert_eq!(pipeline.handle_at(&m, 1099), Output::Nothing);
    assert!(matches!(pipeline.handle_at(&m, 1100), Output::Line(_)));
    // a decode error does not touch the throttle
    let e: MeasurementResult = Err(DecodeError::InvalidData("x".to_string()));
    assert_eq!(pipeline.handle_at(&e, 5000), Output::Nothing);
    assert_eq!(pipeline.handle_at(&m, 1199), Output::Nothing);
}

#[test]
fn diagnostics_carry_the_error_text() {
    let options = Options { verbose: true, ..options() };
    let mut pipeline = Pipeline::new(&options);
    let e: MeasurementResult = Err(DecodeError::UnsupportedFormat("V2".to_string()));
    assert_eq!(
        pipeline.handle_at(&e, 0),
        Output::Diagnostic("Unsupported format: V2".to_string())
    );
}

#[test]
fn run_errors_wrap_their_cause() {
    let scan: RunError = ScanError::Bluetooth("down".to_string()).into();
    assert!(matches!(scan, RunError::Scan(ScanError::Bluetooth(_))));
    let io: RunError = std::io::Error::other("closed").into();
    assert!(matches!(io, RunError::Io(_)));
}
