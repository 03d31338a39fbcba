//! The value decoder: hex register payloads, probe text, sentinels, and
//! exact calibration pass-through.

use iot_ingest::alarm::{alarm_class_code, evaluate_alarms, state_label, SensorDeviceAlarm};
use iot_ingest::decode::{classify_key, decode_plan, finish_value, ChannelClass, DecodePlan};
use iot_ingest::floatbits::{DISCONNECT_BITS, TIMEOUT_BITS};

fn mul_add(raw_bits: u64, factor: f64, offset: f64) -> u64 {
    (f64::from_bits(raw_bits) * factor + offset).to_bits()
}

fn parse_then_calibrate(text: &str, factor: f64, offset: f64) -> u64 {
    (text.parse::<f64>().unwrap_or(0.0) * factor + offset).to_bits()
}

#[test]
fn classify_by_prefix() {
    assert!(matches!(classify_key("probe-kind@28FF4A"), ChannelClass::Probe));
    assert!(matches!(classify_key("modbus@AA:BB@010300CA02"), ChannelClass::Modbus));
    assert!(matches!(classify_key("battery@AA:BB"), ChannelClass::Battery));
    assert!(matches!(classify_key("something-else@x"), ChannelClass::Battery));
    assert!(matches!(classify_key("noseparator"), ChannelClass::Battery));
}

#[test]
fn two_byte_register_decodes_to_exact_u16_value() {
    // P1: the decoded value is raw_u16 * calibration_factor + offset,
    // exactly.
    let plan = decode_plan(&ChannelClass::Modbus, &String::from("01A4"));
    match plan {
        DecodePlan::Calibrate { raw_bits } => {
            assert_eq!(raw_bits, (420.0f64).to_bits());
            let answer = mul_add(raw_bits, 2.5, -3.25);
            assert_eq!(finish_value(&plan, answer), (420.0f64 * 2.5 - 3.25).to_bits());
            let answer = mul_add(raw_bits, 1.0, 0.0);
            assert_eq!(finish_value(&plan, answer), (420.0f64).to_bits());
            let answer = mul_add(raw_bits, 0.001, 0.07);
            assert_eq!(finish_value(&plan, answer), (420.0f64 * 0.001 + 0.07).to_bits());
        },
        _ => panic!("expected a calibration plan"),
    }
}

#[test]
fn two_byte_register_accepts_lower_case_and_extremes() {
    let plan = decode_plan(&ChannelClass::Modbus, &String::from("ffff"));
    match plan {
        DecodePlan::Calibrate { raw_bits } => assert_eq!(raw_bits, (65535.0f64).to_bits()),
        _ => panic!("expected a calibration plan"),
    }
    let plan = decode_plan(&ChannelClass::Modbus, &String::from("0000"));
    match plan {
        DecodePlan::Calibrate { raw_bits } => assert_eq!(raw_bits, (0.0f64).to_bits()),
        _ => panic!("expected a calibration plan"),
    }
}

#[test]
fn four_byte_register_decodes_to_exact_f32_value() {
    // P2: the decoded value is float32(raw_bytes) * calibration_factor +
    // offset, promoted to double.
    let plan = decode_plan(&ChannelClass::Modbus, &String::from("42F6E979"));
    let expected_raw = f32::from_bits(0x42F6_E979) as f64;
    match plan {
        DecodePlan::Calibrate { raw_bits } => {
            assert_eq!(raw_bits, expected_raw.to_bits());
            let answer = mul_add(raw_bits, 10.0, 1.5);
            assert_eq!(finish_value(&plan, answer), (expected_raw * 10.0 + 1.5).to_bits());
        },
        _ => panic!("expected a calibration plan"),
    }
}

#[test]
fn unreadable_register_payloads_time_out() {
    // P3: any other length or a hex-decode failure ends as exactly 9999.0
    // with the TIMEOUT state.
    let bad = ["", "0", "123", "XYZW", "ABCDEF", "ABCDEF0011", "01A", "01 4", "Ā4A4"];
    for raw in bad {
        let plan = decode_plan(&ChannelClass::Modbus, &String::from(raw));
        assert!(matches!(plan, DecodePlan::Timeout), "payload {:?}", raw);
        // No calibration answer can change a timed-out reading.
        let v = finish_value(&plan, (123.0f64).to_bits());
        assert_eq!(v, (9999.0f64).to_bits());
        let st = evaluate_alarms(v, &None);
        assert_eq!(state_label(&st), "TIMEOUT");
        assert!(matches!(st, SensorDeviceAlarm::ERROR(_)));
        assert_eq!(alarm_class_code(&st), 1);
    }
}

#[test]
fn nan_or_infinite_calibration_clamps_to_timeout() {
    let plan = decode_plan(&ChannelClass::Modbus, &String::from("0001"));
    let answer = mul_add((1.0f64).to_bits(), f64::INFINITY, 0.0);
    assert_eq!(finish_value(&plan, answer), TIMEOUT_BITS);
    let answer = mul_add((1.0f64).to_bits(), f64::NAN, 0.0);
    assert_eq!(finish_value(&plan, answer), TIMEOUT_BITS);
}

#[test]
fn disconnected_probe_bypasses_calibration() {
    // P4: raw text "-127" gives exactly -127.0, uncalibrated, state
    // DISCONNECT — whatever offset and factor are configured.
    let plan = decode_plan(&ChannelClass::Probe, &String::from("-127"));
    assert!(matches!(plan, DecodePlan::Disconnected));
    for (factor, offset) in [(1.0, 0.0), (2.0, 10.0), (-0.5, 1e9)] {
        let answer = parse_then_calibrate("-127", factor, offset);
        let v = finish_value(&plan, answer);
        assert_eq!(v, DISCONNECT_BITS);
        assert_eq!(v, (-127.0f64).to_bits());
        let st = evaluate_alarms(v, &None);
        assert_eq!(state_label(&st), "DISCONNECT");
        assert_eq!(alarm_class_code(&st), 1);
    }
}

#[test]
fn probe_text_is_parsed_and_calibrated() {
    let plan = decode_plan(&ChannelClass::Probe, &String::from("23.5"));
    match &plan {
        DecodePlan::ParseCalibrate { text } => assert_eq!(text, "23.5"),
        _ => panic!("expected a parse plan"),
    }
    let answer = parse_then_calibrate("23.5", 2.0, 1.0);
    assert_eq!(finish_value(&plan, answer), (23.5f64 * 2.0 + 1.0).to_bits());
}

#[test]
fn unparsable_probe_text_reads_as_zero() {
    let plan = decode_plan(&ChannelClass::Probe, &String::from("N/A"));
    match &plan {
        DecodePlan::ParseCalibrate { text } => assert_eq!(text, "N/A"),
        _ => panic!("expected a parse plan"),
    }
    // The caller parses with a 0.0 fallback, then calibrates: the result is
    // the offset.
    let answer = parse_then_calibrate("N/A", 3.0, 1.25);
    assert_eq!(finish_value(&plan, answer), (1.25f64).to_bits());
}

#[test]
fn battery_text_is_parsed_and_calibrated() {
    let plan = decode_plan(&ChannelClass::Battery, &String::from("77"));
    match &plan {
        DecodePlan::ParseCalibrate { text } => assert_eq!(text, "77"),
        _ => panic!("expected a parse plan"),
    }
    let answer = parse_then_calibrate("77", 1.0, 0.0);
    assert_eq!(finish_value(&plan, answer), (77.0f64).to_bits());
}
