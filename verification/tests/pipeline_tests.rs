//! The batch pipeline end to end: expansion, matching, the caller-side
//! calibration step, assembly, and the sink outcome combination.

use iot_ingest::decode::{classify_key, decode_plan, DecodePlan};
use iot_ingest::keys::{ModbusRemoteFields, SensorDeviceData, TempSensorFields};
use iot_ingest::service::{
    complete_metrics, distinct_macs, expand_payloads, prepare_metrics, MetricJob,
    SensorDeviceInsert, SensorDevicesSettings,
};
use iot_ingest::sink::{combine_sink_results, ndjson_join};

fn probe_payload(mac: &str, sn: &str, sample: &str) -> SensorDeviceData {
    SensorDeviceData {
        mac: String::from(mac),
        model: String::from("logger9"),
        ip: String::from("10.0.0.7"),
        batery: 88,
        time_stamp: String::from("2023-05-06T07:08:09"),
        temp: Some(TempSensorFields {
            number: 1,
            value: vec![String::from(sample)],
            sn: vec![String::from(sn)],
        }),
        modbus: None,
    }
}

fn config(key: &str, offset: f64, factor: f64) -> SensorDevicesSettings {
    SensorDevicesSettings {
        device_location_id: 42,
        model_mac: String::from("logger9@AA:BB:CC"),
        sensor_id: String::from(key),
        location_name: String::from("cold room"),
        client_name: String::from("acme"),
        variable_name: String::from("temperature"),
        unit: String::from("C"),
        min: (-40.0f64).to_bits(),
        max: (125.0f64).to_bits(),
        offset: offset.to_bits(),
        calibration_factor: factor.to_bits(),
        alarms_details: None,
    }
}

/// The caller-side float step: parse where the plan asks for it, then
/// apply the linear calibration.
fn answers_for(
    maps: &Vec<Vec<iot_ingest::keys::SensorDeviceRecive>>,
    devices: &Vec<SensorDevicesSettings>,
    jobs: &Vec<MetricJob>,
) -> Vec<u64> {
    let mut answers = Vec::new();
    for job in jobs {
        let reading = &maps[job.map_index][job.reading_index];
        let dev = &devices[job.device_index];
        let class = classify_key(dev.sensor_id.as_str());
        let plan = decode_plan(&class, &reading.value);
        let raw: f64 = match plan {
            DecodePlan::Calibrate { raw_bits } => f64::from_bits(raw_bits),
            DecodePlan::ParseCalibrate { text } => text.parse::<f64>().unwrap_or(0.0),
            _ => 0.0,
        };
        let factor = f64::from_bits(dev.calibration_factor);
        let offset = f64::from_bits(dev.offset);
        answers.push((raw * factor + offset).to_bits());
    }
    answers
}

fn run_pipeline(
    payloads: Vec<SensorDeviceData>,
    devices: &Vec<SensorDevicesSettings>,
) -> Vec<SensorDeviceInsert> {
    let maps = expand_payloads(payloads);
    let jobs = prepare_metrics(&maps, devices);
    let answers = answers_for(&maps, devices, &jobs);
    complete_metrics(&maps, devices, &jobs, &answers)
}

#[test]
fn one_probe_reading_end_to_end() {
    // P8: one probe reading of "23.5" with offset 0, factor 1, no rules
    // yields value 23.5, state "OK"/Normal, class code 0.
    let devices = vec![config("probe-kind@28FF01", 0.0, 1.0)];
    let metrics = run_pipeline(vec![probe_payload("AA:BB:CC", "28FF01", "23.5")], &devices);
    assert_eq!(metrics.len(), 1);
    let m = &metrics[0];
    assert_eq!(m.value, (23.5f64).to_bits());
    assert_eq!(m.state, "OK");
    assert_eq!(m.alarm_type, 0);
    assert_eq!(m.device_location_id, 42);
    assert_eq!(m.sensor_name, "probe-kind@28FF01");
    assert_eq!(m.model_mac, "logger9@AA:BB:CC");
    assert_eq!(m.location_name, "cold room");
    assert_eq!(m.client_name, "acme");
    assert_eq!(m.variable_name, "temperature");
    assert_eq!(m.unit, "C");
    assert_eq!(m.ip, "10.0.0.7");
    assert_eq!(m.timestamp, 1_683_356_889);
}

#[test]
fn failed_relational_sink_fails_the_batch() {
    // P9: the batch fails when the relational sink fails, even though the
    // object-store sink succeeded — and the error is not swallowed.
    let r = combine_sink_results(Err(String::from("connection reset")), Ok(()));
    assert_eq!(r, Err(String::from("connection reset")));
    let r = combine_sink_results(Ok(()), Err(String::from("denied")));
    assert_eq!(r, Err(String::from("denied")));
    let r = combine_sink_results(
        Err(String::from("connection reset")),
        Err(String::from("denied")),
    );
    assert_eq!(r, Err(String::from("connection reset")));
    assert_eq!(combine_sink_results(Ok(()), Ok(())), Ok(()));
}

#[test]
fn unmatched_readings_are_dropped() {
    let devices = vec![config("probe-kind@OTHER", 0.0, 1.0)];
    let metrics = run_pipeline(vec![probe_payload("AA:BB:CC", "28FF01", "23.5")], &devices);
    assert_eq!(metrics.len(), 0);
}

#[test]
fn empty_device_identifier_rejects_the_payload() {
    let devices = vec![config("probe-kind@28FF01", 0.0, 1.0)];
    let metrics = run_pipeline(vec![probe_payload("", "28FF01", "23.5")], &devices);
    assert_eq!(metrics.len(), 0);
}

#[test]
fn calibration_is_applied_per_channel() {
    let devices = vec![config("probe-kind@28FF01", -2.5, 10.0)];
    let metrics = run_pipeline(vec![probe_payload("AA:BB:CC", "28FF01", "23.5")], &devices);
    assert_eq!(metrics.len(), 1);
    assert_eq!(metrics[0].value, (23.5f64 * 10.0 - 2.5).to_bits());
}

#[test]
fn modbus_batch_end_to_end_with_battery() {
    let payload = SensorDeviceData {
        mac: String::from("AA:BB:CC"),
        model: String::from("logger9"),
        ip: String::from("10.0.0.7"),
        batery: 88,
        time_stamp: String::from("2023-05-06T07:08:09"),
        temp: None,
        modbus: Some(ModbusRemoteFields {
            number: 1,
            value: vec![String::from("01A4")],
            slave: vec![1],
            funct: vec![3],
            addr: vec![202],
            bytes: vec![2],
        }),
    };
    let devices = vec![
        config("modbus@AA:BB:CC@010300CA02", 1.5, 0.5),
        config("battery@AA:BB:CC", 0.0, 1.0),
    ];
    let metrics = run_pipeline(vec![payload], &devices);
    assert_eq!(metrics.len(), 2);
    assert_eq!(metrics[0].value, (420.0f64 * 0.5 + 1.5).to_bits());
    assert_eq!(metrics[0].state, "OK");
    assert_eq!(metrics[1].value, (88.0f64).to_bits());
    assert_eq!(metrics[1].sensor_name, "battery@AA:BB:CC");
}

#[test]
fn infinite_calibration_of_a_register_clamps_to_timeout() {
    let payload = SensorDeviceData {
        mac: String::from("AA:BB:CC"),
        model: String::from("logger9"),
        ip: String::from("10.0.0.7"),
        batery: 88,
        time_stamp: String::from("2023-05-06T07:08:09"),
        temp: None,
        modbus: Some(ModbusRemoteFields {
            number: 1,
            value: vec![String::from("01A4")],
            slave: vec![1],
            funct: vec![3],
            addr: vec![202],
            bytes: vec![2],
        }),
    };
    let devices = vec![
        config("modbus@AA:BB:CC@010300CA02", 0.0, f64::INFINITY),
        config("battery@AA:BB:CC", 0.0, 1.0),
    ];
    let metrics = run_pipeline(vec![payload], &devices);
    assert_eq!(metrics[0].value, (9999.0f64).to_bits());
    assert_eq!(metrics[0].state, "TIMEOUT");
    assert_eq!(metrics[0].alarm_type, 1);
}

#[test]
fn distinct_macs_across_payloads() {
    let payloads = vec![
        probe_payload("AA", "S1", "1.0"),
        probe_payload("BB", "S2", "2.0"),
        probe_payload("AA", "S3", "3.0"),
    ];
    let maps = expand_payloads(payloads);
    let macs = distinct_macs(&maps);
    assert_eq!(macs.len(), 2);
    assert!(macs.contains(&String::from("AA")));
    assert!(macs.contains(&String::from("BB")));
}

#[test]
fn unparsable_timestamp_defaults_to_epoch() {
    let mut payload = probe_payload("AA:BB:CC", "28FF01", "23.5");
    payload.time_stamp = String::from("yesterday");
    let devices = vec![config("probe-kind@28FF01", 0.0, 1.0)];
    let metrics = run_pipeline(vec![payload], &devices);
    assert_eq!(metrics.len(), 1);
    assert_eq!(metrics[0].timestamp, 0);
}

#[test]
fn ndjson_body_is_one_line_per_metric() {
    let lines = vec![String::from("{\"a\":1}"), String::from("{\"b\":2}")];
    assert_eq!(ndjson_join(&lines), "{\"a\":1}\n{\"b\":2}\n");
    assert_eq!(ndjson_join(&Vec::new()), "");
}
