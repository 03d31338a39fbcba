//! Channel key derivation: key formats, the battery rule, missing samples,
//! last-write-wins, and idempotence.

use iot_ingest::keys::{
    ModbusRemoteFields, SensorDeviceData, SensorDeviceRecive, TempSensorFields,
};

fn probe_payload(sn: Vec<&str>, samples: Vec<&str>) -> SensorDeviceData {
    SensorDeviceData {
        mac: String::from("AA:BB:CC"),
        model: String::from("logger9"),
        ip: String::from("10.0.0.7"),
        batery: 77,
        time_stamp: String::from("2023-05-06T07:08:09"),
        temp: Some(TempSensorFields {
            number: sn.len() as u8,
            value: samples.into_iter().map(String::from).collect(),
            sn: sn.into_iter().map(String::from).collect(),
        }),
        modbus: None,
    }
}

fn modbus_payload() -> SensorDeviceData {
    SensorDeviceData {
        mac: String::from("AA:BB:CC"),
        model: String::from("logger9"),
        ip: String::from("10.0.0.7"),
        batery: 77,
        time_stamp: String::from("2023-05-06T07:08:09"),
        temp: None,
        modbus: Some(ModbusRemoteFields {
            number: 2,
            value: vec![String::from("01A4"), String::from("42F6E979")],
            slave: vec![1, 16],
            funct: vec![3, 4],
            addr: vec![202, 4660],
            bytes: vec![2, 4],
        }),
    }
}

fn keys_of(readings: &[SensorDeviceRecive]) -> Vec<String> {
    readings.iter().map(|r| r.sensor_id.clone()).collect()
}

#[test]
fn probe_keys_and_missing_samples() {
    let out = SensorDeviceData::generate_sensor_map(probe_payload(
        vec!["28FF01", "28FF02"],
        vec!["21.5"],
    ));
    assert_eq!(out.len(), 2);
    assert_eq!(out[0].sensor_id, "probe-kind@28FF01");
    assert_eq!(out[0].value, "21.5");
    assert_eq!(out[0].model_mac, "logger9@AA:BB:CC");
    assert_eq!(out[0].mac, "AA:BB:CC");
    assert_eq!(out[0].ip, "10.0.0.7");
    assert_eq!(out[0].time_stamp, "2023-05-06T07:08:09");
    // The second serial has no sample at its position.
    assert_eq!(out[1].sensor_id, "probe-kind@28FF02");
    assert_eq!(out[1].value, "N/A");
}

#[test]
fn probe_only_payload_has_no_battery_reading() {
    let out = SensorDeviceData::generate_sensor_map(probe_payload(vec!["28FF01"], vec!["1.0"]));
    assert_eq!(out.len(), 1);
    assert!(!keys_of(&out).iter().any(|k| k.starts_with("battery@")));
}

#[test]
fn modbus_keys_are_fixed_width_uppercase_hex() {
    let out = SensorDeviceData::generate_sensor_map(modbus_payload());
    assert_eq!(out.len(), 3);
    assert_eq!(out[0].sensor_id, "modbus@AA:BB:CC@010300CA02");
    assert_eq!(out[0].value, "01A4");
    assert_eq!(out[1].sensor_id, "modbus@AA:BB:CC@1004123404");
    assert_eq!(out[1].value, "42F6E979");
    // Modbus telemetry always brings exactly one battery reading.
    assert_eq!(out[2].sensor_id, "battery@AA:BB:CC");
    assert_eq!(out[2].value, "77");
    assert_eq!(out[2].model_mac, "logger9@AA:BB:CC");
}

#[test]
fn colliding_keys_keep_the_last_value() {
    let out = SensorDeviceData::generate_sensor_map(probe_payload(
        vec!["28FF01", "28FF01"],
        vec!["1.5", "2.5"],
    ));
    assert_eq!(out.len(), 1);
    assert_eq!(out[0].sensor_id, "probe-kind@28FF01");
    assert_eq!(out[0].value, "2.5");
}

#[test]
fn derived_keys_are_unique_per_payload() {
    let mut payload = modbus_payload();
    payload.temp = Some(TempSensorFields {
        number: 2,
        value: vec![String::from("1.0"), String::from("2.0")],
        sn: vec![String::from("A"), String::from("A")],
    });
    let out = SensorDeviceData::generate_sensor_map(payload);
    let keys = keys_of(&out);
    for i in 0..keys.len() {
        for j in (i + 1)..keys.len() {
            assert_ne!(keys[i], keys[j]);
        }
    }
}

#[test]
fn key_derivation_is_idempotent() {
    // P7: re-deriving keys from the same payload twice yields byte-identical
    // key strings.
    let first = SensorDeviceData::generate_sensor_map(modbus_payload());
    let second = SensorDeviceData::generate_sensor_map(modbus_payload());
    let a = keys_of(&first);
    let b = keys_of(&second);
    assert_eq!(a, b);
    for (x, y) in a.iter().zip(b.iter()) {
        assert_eq!(x.as_bytes(), y.as_bytes());
    }
    let first = SensorDeviceData::generate_sensor_map(probe_payload(vec!["28FF01"], vec![]));
    let second = SensorDeviceData::generate_sensor_map(probe_payload(vec!["28FF01"], vec![]));
    assert_eq!(keys_of(&first), keys_of(&second));
}

#[test]
fn empty_groups_derive_nothing() {
    let payload = SensorDeviceData {
        mac: String::from("AA"),
        model: String::from("m"),
        ip: String::from("ip"),
        batery: 1,
        time_stamp: String::from("t"),
        temp: None,
        modbus: None,
    };
    let out = SensorDeviceData::generate_sensor_map(payload);
    assert_eq!(out.len(), 0);
}
