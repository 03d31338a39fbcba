//! The alarm evaluator: severity ordering, tie-breaking, operators,
//! disabled rules and the class codes.

use iot_ingest::alarm::{
    alarm_class_code, evaluate_alarms, state_label, AlarmsDetails, SensorDeviceAlarm,
};

fn rule(op: u32, severity: u32, set_point: f64, status: u8) -> AlarmsDetails {
    AlarmsDetails {
        alarm_id: 1,
        device_location_id: 7,
        type_: op,
        severity,
        alarm_role: 0,
        set_point: set_point.to_bits(),
        every: (60.0f64).to_bits(),
        status,
    }
}

fn eval(value: f64, rules: Vec<AlarmsDetails>) -> SensorDeviceAlarm {
    evaluate_alarms(value.to_bits(), &Some(rules))
}

#[test]
fn ranked_rules_pick_the_most_severe_match() {
    // P5: {rank 0: value > 90} and {rank 1: value > 70}; 95 is CRITICAL,
    // 75 is WARNING, 50 is NORMAL. Declaration order deliberately has the
    // less severe rule first.
    let rules = || vec![rule(2, 1, 70.0, 1), rule(2, 0, 90.0, 1)];
    let st = eval(95.0, rules());
    assert!(matches!(st, SensorDeviceAlarm::CRITICAL(_)));
    assert_eq!(state_label(&st), "CRITICAL");
    assert_eq!(alarm_class_code(&st), 3);
    let st = eval(75.0, rules());
    assert!(matches!(st, SensorDeviceAlarm::WARNING(_)));
    assert_eq!(state_label(&st), "WARNING");
    assert_eq!(alarm_class_code(&st), 2);
    let st = eval(50.0, rules());
    assert!(matches!(st, SensorDeviceAlarm::NORMAL(_)));
    assert_eq!(state_label(&st), "OK");
    assert_eq!(alarm_class_code(&st), 0);
}

#[test]
fn same_severity_ties_are_deterministic() {
    // P6: with two enabled rules at the same rank both matching, the
    // outcome is deterministic and repeats across evaluations.
    let rules = || vec![rule(2, 1, 10.0, 1), rule(2, 1, 20.0, 1)];
    let first = eval(50.0, rules());
    for _ in 0..10 {
        let again = eval(50.0, rules());
        assert_eq!(state_label(&again), state_label(&first));
        assert_eq!(alarm_class_code(&again), alarm_class_code(&first));
    }
    assert_eq!(state_label(&first), "WARNING");
}

#[test]
fn disabled_rules_are_excluded() {
    let st = eval(100.0, vec![rule(2, 0, 90.0, 0)]);
    assert!(matches!(st, SensorDeviceAlarm::NORMAL(_)));
    assert_eq!(state_label(&st), "OK");
    // An enabled lower-priority rule still wins over a disabled higher one.
    let st = eval(100.0, vec![rule(2, 0, 90.0, 0), rule(2, 3, 50.0, 1)]);
    assert!(matches!(st, SensorDeviceAlarm::MINOR(_)));
    assert_eq!(state_label(&st), "MINOR");
    assert_eq!(alarm_class_code(&st), 2);
}

#[test]
fn each_severity_rank_maps_to_its_state() {
    assert_eq!(state_label(&eval(1.0, vec![rule(2, 0, 0.0, 1)])), "CRITICAL");
    assert_eq!(state_label(&eval(1.0, vec![rule(2, 1, 0.0, 1)])), "WARNING");
    assert_eq!(state_label(&eval(1.0, vec![rule(2, 2, 0.0, 1)])), "MAJOR");
    assert_eq!(state_label(&eval(1.0, vec![rule(2, 3, 0.0, 1)])), "MINOR");
    let st = eval(1.0, vec![rule(2, 9, 0.0, 1)]);
    assert!(matches!(st, SensorDeviceAlarm::ERROR(_)));
    assert_eq!(state_label(&st), "UNKNOW");
    assert_eq!(alarm_class_code(&st), 1);
}

#[test]
fn each_operator_compares_as_ieee() {
    // equal
    assert_eq!(state_label(&eval(5.0, vec![rule(0, 0, 5.0, 1)])), "CRITICAL");
    assert_eq!(state_label(&eval(5.1, vec![rule(0, 0, 5.0, 1)])), "OK");
    // less-than
    assert_eq!(state_label(&eval(4.9, vec![rule(1, 0, 5.0, 1)])), "CRITICAL");
    assert_eq!(state_label(&eval(5.0, vec![rule(1, 0, 5.0, 1)])), "OK");
    // greater-than
    assert_eq!(state_label(&eval(5.1, vec![rule(2, 0, 5.0, 1)])), "CRITICAL");
    assert_eq!(state_label(&eval(5.0, vec![rule(2, 0, 5.0, 1)])), "OK");
    // less-or-equal
    assert_eq!(state_label(&eval(5.0, vec![rule(3, 0, 5.0, 1)])), "CRITICAL");
    assert_eq!(state_label(&eval(5.1, vec![rule(3, 0, 5.0, 1)])), "OK");
    // greater-or-equal
    assert_eq!(state_label(&eval(5.0, vec![rule(4, 0, 5.0, 1)])), "CRITICAL");
    assert_eq!(state_label(&eval(4.9, vec![rule(4, 0, 5.0, 1)])), "OK");
    // an unknown operator code never matches
    assert_eq!(state_label(&eval(5.0, vec![rule(9, 0, 5.0, 1)])), "OK");
}

#[test]
fn signed_zero_equality_matches() {
    let st = eval(-0.0, vec![rule(0, 0, 0.0, 1)]);
    assert_eq!(state_label(&st), "CRITICAL");
}

#[test]
fn nan_threshold_never_matches() {
    for op in 0..5 {
        let st = eval(5.0, vec![rule(op, 0, f64::NAN, 1)]);
        assert_eq!(state_label(&st), "OK", "operator {}", op);
    }
}

#[test]
fn sentinels_preempt_rules() {
    // Even an always-true rule loses to the sentinel checks.
    let st = evaluate_alarms((-127.0f64).to_bits(), &Some(vec![rule(4, 0, -1000.0, 1)]));
    assert_eq!(state_label(&st), "DISCONNECT");
    assert_eq!(alarm_class_code(&st), 1);
    let st = evaluate_alarms((9999.0f64).to_bits(), &Some(vec![rule(4, 0, -1000.0, 1)]));
    assert_eq!(state_label(&st), "TIMEOUT");
    assert_eq!(alarm_class_code(&st), 1);
}

#[test]
fn no_rules_is_normal() {
    let st = evaluate_alarms((42.0f64).to_bits(), &None);
    assert_eq!(state_label(&st), "OK");
    assert_eq!(alarm_class_code(&st), 0);
    let st = evaluate_alarms((42.0f64).to_bits(), &Some(vec![]));
    assert_eq!(state_label(&st), "OK");
}
