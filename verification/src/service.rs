//! The batch pipeline: expands payloads, matches readings against fetched
//! channel configurations, and assembles the metric records.
//!
//! The pipeline has two verified phases around the caller-supplied float
//! step. `prepare_metrics` pairs every reading that has a matching
//! configuration with that configuration, in order, as index triples
//! (`MetricJob`). For each job the caller computes the calibration answer
//! — parse the raw text where the decode plan asks for it, then
//! `raw * calibration_factor + offset` — and `complete_metrics` turns jobs
//! and answers into the final metric records: sentinel handling, alarm
//! evaluation and timestamp parsing are all verified against the decode and
//! alarm specifications.

use vstd::prelude::*;
use crate::alarm::{
    AlarmsDetails, spec_alarms_view, spec_state_of, spec_state_label, spec_class_code,
    evaluate_alarms, state_label, alarm_class_code,
};
use crate::decode::{spec_class_of, spec_plan_of, spec_final_bits, classify_key, decode_plan, finish_value};
use crate::keys::{SensorDeviceData, SensorDeviceRecive, spec_payload_wf, spec_lww, spec_emitted, spec_views};
use crate::text::str_eq_chars;
use crate::timestamp::{spec_epoch_or_zero, epoch_or_zero};

verus! {

/// One configured channel, as fetched by the configuration collaborator:
/// the channel key, identifiers and display names, the unit, advisory
/// bounds, the linear correction coefficients, and the channel's alarm
/// rules. The numeric fields carry binary64 bit patterns.
pub struct SensorDevicesSettings {
    pub device_location_id: i32,
    pub model_mac: String,
    pub sensor_id: String,
    pub location_name: String,
    pub client_name: String,
    pub variable_name: String,
    pub unit: String,
    /// Advisory lower bound, as a binary64 bit pattern (not an alarm
    /// trigger).
    pub min: u64,
    /// Advisory upper bound, as a binary64 bit pattern (not an alarm
    /// trigger).
    pub max: u64,
    /// Additive correction, as a binary64 bit pattern.
    pub offset: u64,
    /// Multiplicative correction, as a binary64 bit pattern.
    pub calibration_factor: u64,
    pub alarms_details: Option<Vec<AlarmsDetails>>,
}

/// One assembled metric record, ready for the storage sinks. `value`
/// carries the calibrated measurement's binary64 bit pattern; `timestamp`
/// its Unix epoch seconds.
pub struct SensorDeviceInsert {
    pub device_location_id: i32,
    pub model_mac: String,
    pub sensor_name: String,
    pub location_name: String,
    pub client_name: String,
    pub variable_name: String,
    pub unit: String,
    pub state: String,
    pub ip: String,
    pub value: u64,
    pub timestamp: i64,
    pub alarm_type: u16,
}

/// One matched reading, as index triples into the expanded maps and the
/// configuration list.
#[derive(Clone, Copy)]
pub struct MetricJob {
    pub map_index: usize,
    pub reading_index: usize,
    pub device_index: usize,
}

/// The index of the first configuration at or after `i` whose channel key
/// equals `key`, if any.
pub open spec fn spec_first_match(
    devs: Seq<SensorDevicesSettings>,
    key: Seq<char>,
    i: nat,
) -> Option<int>
    decreases devs.len() - i,
{
    if i >= devs.len() {
        Option::None
    } else if devs[i as int].sensor_id@ == key {
        Option::Some(i as int)
    } else {
        spec_first_match(devs, key, i + 1)
    }
}

/// The job triples of one expanded map from reading `ri` on: one triple per
/// reading with a matching configuration, readings in order, unmatched
/// readings dropped.
pub open spec fn spec_jobs_from_reading(
    readings: Seq<SensorDeviceRecive>,
    devs: Seq<SensorDevicesSettings>,
    mi: int,
    ri: nat,
) -> Seq<(int, int, int)>
    decreases readings.len() - ri,
{
    if ri >= readings.len() {
        Seq::empty()
    } else {
        let rest = spec_jobs_from_reading(readings, devs, mi, ri + 1);
        match spec_first_match(devs, readings[ri as int].sensor_id@, 0) {
            Option::None => rest,
            Option::Some(di) => seq![(mi, ri as int, di)] + rest,
        }
    }
}

/// The job triples of all maps from map `mi` on, maps in order.
pub open spec fn spec_jobs_from_map(
    maps: Seq<Vec<SensorDeviceRecive>>,
    devs: Seq<SensorDevicesSettings>,
    mi: nat,
) -> Seq<(int, int, int)>
    decreases maps.len() - mi,
{
    if mi >= maps.len() {
        Seq::empty()
    } else {
        spec_jobs_from_reading(maps[mi as int]@, devs, mi as int, 0) + spec_jobs_from_map(
            maps,
            devs,
            mi + 1,
        )
    }
}

/// All job triples of a batch: every reading with a matching configuration,
/// maps in order, readings in order within each map.
pub open spec fn spec_jobs(
    maps: Seq<Vec<SensorDeviceRecive>>,
    devs: Seq<SensorDevicesSettings>,
) -> Seq<(int, int, int)> {
    spec_jobs_from_map(maps, devs, 0)
}

/// The triples of a job vector.
pub open spec fn spec_job_tuples(jobs: Seq<MetricJob>) -> Seq<(int, int, int)> {
    jobs.map_values(
        |j: MetricJob| (j.map_index as int, j.reading_index as int, j.device_index as int),
    )
}

/// Every job's indices are in range for the maps and configurations they
/// point into.
pub open spec fn spec_jobs_wf(
    jobs: Seq<MetricJob>,
    maps: Seq<Vec<SensorDeviceRecive>>,
    devs: Seq<SensorDevicesSettings>,
) -> bool {
    forall|i: int|
        0 <= i < jobs.len() ==> {
            &&& (#[trigger] jobs[i]).map_index < maps.len()
            &&& jobs[i].reading_index < maps[jobs[i].map_index as int]@.len()
            &&& jobs[i].device_index < devs.len()
        }
}

/// The index of the first configuration whose channel key equals `key`.
fn first_device_match(devs: &Vec<SensorDevicesSettings>, key: &str) -> (r: Option<usize>)
    ensures
        match r {
            Option::Some(d) => d < devs@.len() && spec_first_match(devs@, key@, 0)
                == Option::Some(d as int),
            Option::None => spec_first_match(devs@, key@, 0) is None,
        },
{
    let n = devs.len();
    let mut i: usize = 0;
    while i < n
        invariant
            n == devs@.len(),
            i <= n,
            spec_first_match(devs@, key@, 0) == spec_first_match(devs@, key@, i as nat),
        decreases n - i,
    {
        if str_eq_chars(devs[i].sensor_id.as_str(), key) {
            return Some(i);
        }
        i = i + 1;
    }
    None
}

/// Pairs every reading that has a matching channel configuration with the
/// first such configuration, in batch order; readings without one are
/// dropped (they are reported by the caller, never defaulted).
pub fn prepare_metrics(
    maps: &Vec<Vec<SensorDeviceRecive>>,
    sensor_devices: &Vec<SensorDevicesSettings>,
) -> (jobs: Vec<MetricJob>)
    ensures
        spec_job_tuples(jobs@) == spec_jobs(maps@, sensor_devices@),
        spec_jobs_wf(jobs@, maps@, sensor_devices@),
{
    let mut jobs: Vec<MetricJob> = Vec::new();
    proof {
        assert(spec_job_tuples(jobs@) =~= Seq::<(int, int, int)>::empty());
    }
    let nm = maps.len();
    let mut mi: usize = 0;
    while mi < nm
        invariant
            nm == maps@.len(),
            mi <= nm,
            spec_jobs_wf(jobs@, maps@, sensor_devices@),
            spec_job_tuples(jobs@) + spec_jobs_from_map(maps@, sensor_devices@, mi as nat)
                == spec_jobs(maps@, sensor_devices@),
        decreases nm - mi,
    {
        let readings = &maps[mi];
        let nr = readings.len();
        let mut ri: usize = 0;
        while ri < nr
            invariant
                nm == maps@.len(),
                mi < nm,
                readings == &maps@[mi as int],
                nr == readings@.len(),
                ri <= nr,
                spec_jobs_wf(jobs@, maps@, sensor_devices@),
                spec_job_tuples(jobs@) + spec_jobs_from_reading(
                    readings@,
                    sensor_devices@,
                    mi as int,
                    ri as nat,
                ) + spec_jobs_from_map(maps@, sensor_devices@, (mi + 1) as nat) == spec_jobs(
                    maps@,
                    sensor_devices@,
                ),
            decreases nr - ri,
        {
            match first_device_match(sensor_devices, readings[ri].sensor_id.as_str()) {
                Option::Some(di) => {
                    let job = MetricJob { map_index: mi, reading_index: ri, device_index: di };
                    proof {
                        assert(spec_job_tuples(jobs@.push(job)) =~= spec_job_tuples(jobs@) + seq![
                            (mi as int, ri as int, di as int),
                        ]);
                        assert(spec_job_tuples(jobs@) + (seq![(mi as int, ri as int, di as int)]
                            + spec_jobs_from_reading(
                            readings@,
                            sensor_devices@,
                            mi as int,
                            (ri + 1) as nat,
                        )) =~= (spec_job_tuples(jobs@) + seq![(mi as int, ri as int, di as int)])
                            + spec_jobs_from_reading(
                            readings@,
                            sensor_devices@,
                            mi as int,
                            (ri + 1) as nat,
                        ));
                    }
                    jobs.push(job);
                },
                Option::None => {
                },
            }
            ri = ri + 1;
        }
        mi = mi + 1;
    }
    jobs
}

/// What one metric record must hold, given its configuration, its
/// originating reading, and the caller-computed calibration answer: the
/// identifiers and names of the configuration, the reading's source
/// address, the decoded-and-clamped value, the alarm state's text and class
/// code, and the reading's timestamp as epoch seconds (the epoch itself
/// when it does not parse).
pub open spec fn spec_metric_matches(
    m: SensorDeviceInsert,
    dev: SensorDevicesSettings,
    r: SensorDeviceRecive,
    answer: u64,
) -> bool {
    let plan = spec_plan_of(spec_class_of(dev.sensor_id@), r.value@);
    let v = spec_final_bits(plan, answer);
    let st = spec_state_of(v, spec_alarms_view(dev.alarms_details));
    &&& m.device_location_id == dev.device_location_id
    &&& m.model_mac@ == dev.model_mac@
    &&& m.sensor_name@ == dev.sensor_id@
    &&& m.location_name@ == dev.location_name@
    &&& m.client_name@ == dev.client_name@
    &&& m.variable_name@ == dev.variable_name@
    &&& m.unit@ == dev.unit@
    &&& m.ip@ == r.ip@
    &&& m.state@ == spec_state_label(st)
    &&& m.value == v
    &&& m.alarm_type == spec_class_code(st)
    &&& m.timestamp == spec_epoch_or_zero(r.time_stamp@)
}

/// Assembles the metric record of every job from its caller-computed
/// calibration answer. Each record is fully determined by its job's
/// reading, its configuration and its answer.
pub fn complete_metrics(
    maps: &Vec<Vec<SensorDeviceRecive>>,
    sensor_devices: &Vec<SensorDevicesSettings>,
    jobs: &Vec<MetricJob>,
    answers: &Vec<u64>,
) -> (out: Vec<SensorDeviceInsert>)
    requires
        spec_jobs_wf(jobs@, maps@, sensor_devices@),
        answers@.len() == jobs@.len(),
    ensures
        out@.len() == jobs@.len(),
        forall|i: int|
            0 <= i < jobs@.len() ==> spec_metric_matches(
                #[trigger] out@[i],
                sensor_devices@[jobs@[i].device_index as int],
                maps@[jobs@[i].map_index as int]@[jobs@[i].reading_index as int],
                answers@[i],
            ),
{
    let mut out: Vec<SensorDeviceInsert> = Vec::new();
    let n = jobs.len();
    let mut i: usize = 0;
    while i < n
        invariant
            n == jobs@.len(),
            i <= n,
            spec_jobs_wf(jobs@, maps@, sensor_devices@),
            answers@.len() == jobs@.len(),
            out@.len() == i,
            forall|k: int|
                0 <= k < i ==> spec_metric_matches(
                    #[trigger] out@[k],
                    sensor_devices@[jobs@[k].device_index as int],
                    maps@[jobs@[k].map_index as int]@[jobs@[k].reading_index as int],
                    answers@[k],
                ),
        decreases n - i,
    {
        let job = jobs[i];
        let reading = &maps[job.map_index][job.reading_index];
        let dev = &sensor_devices[job.device_index];
        let class = classify_key(dev.sensor_id.as_str());
        let plan = decode_plan(&class, &reading.value);
        let value = finish_value(&plan, answers[i]);
        let st = evaluate_alarms(value, &dev.alarms_details);
        let state = state_label(&st);
        let alarm_type = alarm_class_code(&st);
        let timestamp = epoch_or_zero(reading.time_stamp.as_str());
        let metric = SensorDeviceInsert {
            device_location_id: dev.device_location_id,
            model_mac: dev.model_mac.clone(),
            sensor_name: dev.sensor_id.clone(),
            location_name: dev.location_name.clone(),
            client_name: dev.client_name.clone(),
            variable_name: dev.variable_name.clone(),
            unit: dev.unit.clone(),
            state,
            ip: reading.ip.clone(),
            value,
            timestamp,
            alarm_type,
        };
        out.push(metric);
        i = i + 1;
    }
    out
}

/// The expanded maps of a payload batch: one deduplicated reading map per
/// payload whose device identifier is non-empty; a payload with an empty
/// identifier is rejected entirely.
pub open spec fn spec_expand_batch(ps: Seq<SensorDeviceData>) -> Seq<Seq<crate::keys::ReadingView>>
    decreases ps.len(),
{
    if ps.len() == 0 {
        Seq::empty()
    } else {
        let rest = spec_expand_batch(ps.drop_last());
        if ps.last().mac@.len() == 0 {
            rest
        } else {
            rest.push(spec_lww(spec_emitted(ps.last())))
        }
    }
}

/// The views of a vector of expanded maps.
pub open spec fn spec_map_views(maps: Seq<Vec<SensorDeviceRecive>>) -> Seq<
    Seq<crate::keys::ReadingView>,
> {
    maps.map_values(|m: Vec<SensorDeviceRecive>| spec_views(m@))
}

/// Expands every payload of a batch into its keyed readings, dropping
/// payloads whose device identifier is empty (they are reported by the
/// caller, not expanded). Expansion is independent per payload: order in,
/// order out.
pub fn expand_payloads(payloads: Vec<SensorDeviceData>) -> (maps: Vec<Vec<SensorDeviceRecive>>)
    requires
        forall|i: int| 0 <= i < payloads@.len() ==> spec_payload_wf(#[trigger] payloads@[i]),
    ensures
        spec_map_views(maps@) == spec_expand_batch(payloads@),
{
    let mut maps: Vec<Vec<SensorDeviceRecive>> = Vec::new();
    let mut rest = payloads;
    let ghost all = rest@;
    let ghost k: int = 0;
    proof {
        assert(spec_map_views(maps@) =~= spec_expand_batch(all.take(0)));
    }
    while rest.len() > 0
        invariant
            0 <= k <= all.len(),
            rest@ =~= all.skip(k),
            forall|i: int| 0 <= i < all.len() ==> spec_payload_wf(#[trigger] all[i]),
            spec_map_views(maps@) == spec_expand_batch(all.take(k)),
        decreases rest@.len(),
    {
        let p = rest.remove(0);
        proof {
            assert(p == all[k]);
            assert(all.take(k + 1).drop_last() =~= all.take(k));
            assert(all.take(k + 1).last() == all[k]);
        }
        if p.mac.as_str().is_empty() {
            proof {
                k = k + 1;
            }
        } else {
            let map = crate::keys::SensorDeviceData::generate_sensor_map(p);
            maps.push(map);
            proof {
                assert(spec_map_views(maps@) =~= spec_expand_batch(all.take(k)).push(
                    spec_lww(spec_emitted(all[k])),
                ));
                k = k + 1;
            }
        }
        proof {
            assert(rest@ =~= all.skip(k));
        }
    }
    proof {
        assert(all.take(k) =~= all);
    }
    maps
}

/// Whether some string in `s` views as `x`.
pub open spec fn spec_contains_str(s: Seq<String>, x: Seq<char>) -> bool {
    exists|i: int| 0 <= i < s.len() && s[i]@ == x
}

/// All strings in `s` are pairwise distinct.
pub open spec fn spec_unique_strs(s: Seq<String>) -> bool {
    forall|i: int, j: int| 0 <= i < j < s.len() ==> (#[trigger] s[i]@) != (#[trigger] s[j]@)
}

/// Whether `out` holds a string viewing as `key`.
fn contains_str(out: &Vec<String>, key: &str) -> (r: bool)
    ensures
        r == spec_contains_str(out@, key@),
{
    let n = out.len();
    let mut i: usize = 0;
    while i < n
        invariant
            n == out@.len(),
            i <= n,
            forall|k: int| 0 <= k < i ==> out@[k]@ != key@,
        decreases n - i,
    {
        if str_eq_chars(out[i].as_str(), key) {
            return true;
        }
        i = i + 1;
    }
    false
}

/// Membership after a push: the pushed string's view, or anything already
/// present.
proof fn lemma_contains_push(s: Seq<String>, v: String, x: Seq<char>)
    ensures
        spec_contains_str(s.push(v), x) <==> (spec_contains_str(s, x) || v@ == x),
{
    if spec_contains_str(s.push(v), x) {
        let i = choose|i: int| 0 <= i < s.push(v).len() && s.push(v)[i]@ == x;
        if i < s.len() {
            assert(s[i]@ == x);
        } else {
            assert(v@ == x);
        }
    }
    if spec_contains_str(s, x) {
        let i = choose|i: int| 0 <= i < s.len() && s[i]@ == x;
        assert(s.push(v)[i]@ == x);
    }
    if v@ == x {
        assert(s.push(v)[s.len() as int]@ == x);
    }
}

/// The distinct device identifiers referenced by the readings of a batch:
/// each identifier exactly once, and exactly those that some reading
/// carries. The configuration collaborator is asked once for this set.
pub fn distinct_macs(maps: &Vec<Vec<SensorDeviceRecive>>) -> (out: Vec<String>)
    ensures
        spec_unique_strs(out@),
        forall|x: Seq<char>|
            #[trigger] spec_contains_str(out@, x) <==> exists|mi: int, ri: int|
                0 <= mi < maps@.len() && 0 <= ri < maps@[mi]@.len() && (#[trigger] maps@[mi]@[ri].mac@)
                    == x,
{
    let mut out: Vec<String> = Vec::new();
    let nm = maps.len();
    let mut mi: usize = 0;
    while mi < nm
        invariant
            nm == maps@.len(),
            mi <= nm,
            spec_unique_strs(out@),
            forall|x: Seq<char>|
                #[trigger] spec_contains_str(out@, x) <==> exists|a: int, b: int|
                    0 <= a < mi && 0 <= b < maps@[a]@.len() && (#[trigger] maps@[a]@[b].mac@) == x,
        decreases nm - mi,
    {
        let readings = &maps[mi];
        let nr = readings.len();
        let mut ri: usize = 0;
        while ri < nr
            invariant
                nm == maps@.len(),
                mi < nm,
                readings == &maps@[mi as int],
                nr == readings@.len(),
                ri <= nr,
                spec_unique_strs(out@),
                forall|x: Seq<char>|
                    #[trigger] spec_contains_str(out@, x) <==> (exists|a: int, b: int|
                        0 <= a < mi && 0 <= b < maps@[a]@.len() && (#[trigger] maps@[a]@[b].mac@)
                            == x) || (exists|b: int|
                        0 <= b < ri && (#[trigger] readings@[b].mac@) == x),
            decreases nr - ri,
        {
            let ghost pre = out@;
            let present = contains_str(&out, readings[ri].mac.as_str());
            if !present {
                let entry = readings[ri].mac.clone();
                proof {
                    assert forall|k: int| 0 <= k < pre.len() implies pre[k]@ != entry@ by {
                        assert(!spec_contains_str(pre, readings@[ri as int].mac@));
                    }
                }
                out.push(entry);
            }
            proof {
                let rmac = readings@[ri as int].mac@;
                if !present {
                    assert forall|x: Seq<char>| #[trigger]
                        spec_contains_str(out@, x) <==> (spec_contains_str(pre, x) || rmac
                            == x) by {
                        lemma_contains_push(pre, out@.last(), x);
                        assert(out@ =~= pre.push(out@.last()));
                    }
                }
                assert forall|x: Seq<char>| #[trigger]
                    spec_contains_str(out@, x) <==> ((exists|a: int, b: int|
                        0 <= a < mi && 0 <= b < maps@[a]@.len() && (#[trigger] maps@[a]@[b].mac@)
                            == x) || (exists|b: int|
                        0 <= b < ri + 1 && (#[trigger] readings@[b].mac@) == x)) by {
                    if spec_contains_str(out@, x) {
                        if !(spec_contains_str(pre, x)) {
                            assert(rmac == x);
                            assert(readings@[ri as int].mac@ == x);
                        }
                    }
                    if exists|b: int| 0 <= b < ri + 1 && (#[trigger] readings@[b].mac@) == x {
                        let b = choose|b: int|
                            0 <= b < ri + 1 && (#[trigger] readings@[b].mac@) == x;
                        if b == ri {
                            if present {
                                assert(spec_contains_str(pre, x));
                            }
                        }
                    }
                }
            }
            ri = ri + 1;
        }
        proof {
            assert forall|x: Seq<char>| #[trigger]
                spec_contains_str(out@, x) <==> exists|a: int, b: int|
                    0 <= a < mi + 1 && 0 <= b < maps@[a]@.len() && (#[trigger] maps@[a]@[b].mac@)
                        == x by {
                if spec_contains_str(out@, x) {
                    if exists|a: int, b: int|
                        0 <= a < mi && 0 <= b < maps@[a]@.len() && (#[trigger] maps@[a]@[b].mac@)
                            == x {
                        let (a, b) = choose|a: int, b: int|
                            0 <= a < mi && 0 <= b < maps@[a]@.len() && (#[trigger] maps@[a]@[b].mac@)
                                == x;
                        assert(0 <= a < mi + 1 && 0 <= b < maps@[a]@.len() && maps@[a]@[b].mac@
                            == x);
                    } else {
                        let b = choose|b: int| 0 <= b < nr && (#[trigger] readings@[b].mac@) == x;
                        assert(0 <= mi < mi + 1 && 0 <= b < maps@[mi as int]@.len()
                            && maps@[mi as int]@[b].mac@ == x);
                    }
                }
                if exists|a: int, b: int|
                    0 <= a < mi + 1 && 0 <= b < maps@[a]@.len() && (#[trigger] maps@[a]@[b].mac@)
                        == x {
                    let (a, b) = choose|a: int, b: int|
                        0 <= a < mi + 1 && 0 <= b < maps@[a]@.len() && (#[trigger] maps@[a]@[b].mac@)
                            == x;
                    if a < mi {
                        assert(exists|a2: int, b2: int|
                            0 <= a2 < mi && 0 <= b2 < maps@[a2]@.len() && (
                            #[trigger] maps@[a2]@[b2].mac@) == x);
                    } else {
                        assert(readings@[b].mac@ == x);
                    }
                }
            }
        }
        mi = mi + 1;
    }
    out
}

/// A register payload that is not exactly two or four bytes of valid hex
/// ends as exactly the timeout sentinel with the TIMEOUT error state,
/// whatever the calibration answer and whatever rules the channel has:
/// the sentinel preempts all rule evaluation.
pub proof fn lemma_unreadable_register_reports_timeout(
    raw: Seq<char>,
    answer: u64,
    rules: Option<Seq<AlarmsDetails>>,
)
    requires
        !(crate::hexcodec::spec_valid_hex(raw) && (raw.len() == 4 || raw.len() == 8)),
    ensures
        spec_final_bits(spec_plan_of(crate::decode::ChannelClass::Modbus, raw), answer)
            == crate::floatbits::TIMEOUT_BITS,
        spec_state_of(crate::floatbits::TIMEOUT_BITS, rules)
            == crate::alarm::SensorDeviceAlarmView::ERROR("TIMEOUT"@),
{
}

/// A probe reading of exactly `"-127"` ends as exactly `-127.0`,
/// uncalibrated — no configured offset or factor (and so no calibration
/// answer) can change it — with the DISCONNECT error state, whatever rules
/// the channel has.
pub proof fn lemma_disconnected_probe_reports_disconnect(
    answer: u64,
    rules: Option<Seq<AlarmsDetails>>,
)
    ensures
        spec_final_bits(spec_plan_of(crate::decode::ChannelClass::Probe, "-127"@), answer)
            == crate::floatbits::DISCONNECT_BITS,
        spec_state_of(crate::floatbits::DISCONNECT_BITS, rules)
            == crate::alarm::SensorDeviceAlarmView::ERROR("DISCONNECT"@),
{
}

/// A found first match is in range and carries the searched key.
proof fn lemma_first_match_key(devs: Seq<SensorDevicesSettings>, key: Seq<char>, i: nat)
    ensures
        match spec_first_match(devs, key, i) {
            Option::Some(d) => i <= d < devs.len() && devs[d].sensor_id@ == key,
            Option::None => true,
        },
    decreases devs.len() - i,
{
    if i < devs.len() && devs[i as int].sensor_id@ != key {
        lemma_first_match_key(devs, key, i + 1);
    }
}

/// Every job triple of one map, from `ri` on, points at a reading of that
/// map and at a configuration whose channel key equals the reading's.
proof fn lemma_jobs_from_reading_match(
    readings: Seq<SensorDeviceRecive>,
    devs: Seq<SensorDevicesSettings>,
    mi: int,
    ri: nat,
)
    ensures
        forall|t: (int, int, int)|
            #[trigger] spec_jobs_from_reading(readings, devs, mi, ri).contains(t) ==> {
                &&& t.0 == mi
                &&& ri <= t.1 < readings.len()
                &&& 0 <= t.2 < devs.len()
                &&& readings[t.1].sensor_id@ == devs[t.2].sensor_id@
            },
    decreases readings.len() - ri,
{
    if ri < readings.len() {
        lemma_jobs_from_reading_match(readings, devs, mi, ri + 1);
        lemma_first_match_key(devs, readings[ri as int].sensor_id@, 0);
        let rest = spec_jobs_from_reading(readings, devs, mi, ri + 1);
        assert forall|t: (int, int, int)|
            #[trigger] spec_jobs_from_reading(readings, devs, mi, ri).contains(t) implies {
            &&& t.0 == mi
            &&& ri <= t.1 < readings.len()
            &&& 0 <= t.2 < devs.len()
            &&& readings[t.1].sensor_id@ == devs[t.2].sensor_id@
        } by {
            match spec_first_match(devs, readings[ri as int].sensor_id@, 0) {
                Option::None => {
                },
                Option::Some(di) => {
                    let whole = seq![(mi, ri as int, di)] + rest;
                    let w = choose|w: int| 0 <= w < whole.len() && whole[w] == t;
                    if w > 0 {
                        assert(rest[w - 1] == t);
                        assert(rest.contains(t));
                    }
                },
            }
        }
    }
}

/// Every job triple of a batch pairs one reading with one fetched
/// configuration whose channel key equals the reading's key: a metric is
/// assembled only for a matched reading, never from defaults.
pub proof fn lemma_jobs_match_their_configuration(
    maps: Seq<Vec<SensorDeviceRecive>>,
    devs: Seq<SensorDevicesSettings>,
)
    ensures
        forall|t: (int, int, int)|
            #[trigger] spec_jobs(maps, devs).contains(t) ==> {
                &&& 0 <= t.0 < maps.len()
                &&& 0 <= t.1 < maps[t.0]@.len()
                &&& 0 <= t.2 < devs.len()
                &&& maps[t.0]@[t.1].sensor_id@ == devs[t.2].sensor_id@
            },
{
    lemma_jobs_from_map_match(maps, devs, 0);
}

/// The same, for the maps from `mi` on.
proof fn lemma_jobs_from_map_match(
    maps: Seq<Vec<SensorDeviceRecive>>,
    devs: Seq<SensorDevicesSettings>,
    mi: nat,
)
    ensures
        forall|t: (int, int, int)|
            #[trigger] spec_jobs_from_map(maps, devs, mi).contains(t) ==> {
                &&& mi <= t.0 < maps.len()
                &&& 0 <= t.1 < maps[t.0]@.len()
                &&& 0 <= t.2 < devs.len()
                &&& maps[t.0]@[t.1].sensor_id@ == devs[t.2].sensor_id@
            },
    decreases maps.len() - mi,
{
    if mi < maps.len() {
        lemma_jobs_from_map_match(maps, devs, mi + 1);
        lemma_jobs_from_reading_match(maps[mi as int]@, devs, mi as int, 0);
        let head = spec_jobs_from_reading(maps[mi as int]@, devs, mi as int, 0);
        let rest = spec_jobs_from_map(maps, devs, mi + 1);
        assert forall|t: (int, int, int)|
            #[trigger] spec_jobs_from_map(maps, devs, mi).contains(t) implies {
            &&& mi <= t.0 < maps.len()
            &&& 0 <= t.1 < maps[t.0]@.len()
            &&& 0 <= t.2 < devs.len()
            &&& maps[t.0]@[t.1].sensor_id@ == devs[t.2].sensor_id@
        } by {
            let whole = head + rest;
            let w = choose|w: int| 0 <= w < whole.len() && whole[w] == t;
            if w < head.len() {
                assert(head[w] == t);
                assert(head.contains(t));
            } else {
                assert(rest[w - head.len()] == t);
                assert(rest.contains(t));
            }
        }
    }
}

/// The first `@` of `s` at or after `i` stands at `n` when `s[n]` is an
/// `@` and nothing before it (from `i` on) is.
proof fn lemma_first_at_found(s: Seq<char>, i: nat, n: nat)
    requires
        i <= n < s.len(),
        s[n as int] == '@',
        forall|j: int| i <= j < n ==> s[j] != '@',
    ensures
        crate::decode::spec_first_at(s, i) == n,
    decreases n - i,
{
    if i < n {
        lemma_first_at_found(s, i + 1, n);
    }
}

/// Keys derived by this library dispatch to the class they were derived
/// for: a probe key decodes under the probe policy, a register key under
/// the register policy, and a battery key under the battery policy —
/// whatever serial, device identifier or register coordinates they embed.
pub proof fn lemma_derived_keys_classify(
    sn: Seq<char>,
    mac: Seq<char>,
    slave: u8,
    funct: u8,
    addr: u16,
    nbytes: u8,
)
    ensures
        spec_class_of(crate::keys::spec_probe_key(sn)) == crate::decode::ChannelClass::Probe,
        spec_class_of(crate::keys::spec_modbus_key(mac, slave, funct, addr, nbytes))
            == crate::decode::ChannelClass::Modbus,
        spec_class_of(crate::keys::spec_battery_key(mac)) == crate::decode::ChannelClass::Battery,
{
    reveal_strlit("probe-kind@");
    reveal_strlit("probe-kind");
    reveal_strlit("modbus@");
    reveal_strlit("modbus");
    reveal_strlit("battery@");
    reveal_strlit("battery");
    let pk = crate::keys::spec_probe_key(sn);
    lemma_first_at_found(pk, 0, 10);
    assert(crate::decode::spec_key_prefix(pk) =~= "probe-kind"@);
    let mk = crate::keys::spec_modbus_key(mac, slave, funct, addr, nbytes);
    lemma_first_at_found(mk, 0, 6);
    assert(crate::decode::spec_key_prefix(mk) =~= "modbus"@);
    let bk = crate::keys::spec_battery_key(mac);
    lemma_first_at_found(bk, 0, 7);
    assert(crate::decode::spec_key_prefix(bk) =~= "battery"@);
}

/// A non-sentinel value of a channel without rules resolves to the NORMAL
/// state with text `"OK"` and class code 0.
pub proof fn lemma_no_rules_is_normal(v: u64, rules: Option<Seq<AlarmsDetails>>)
    requires
        !crate::floatbits::f64_eq(v, crate::floatbits::DISCONNECT_BITS),
        !crate::floatbits::f64_eq(v, crate::floatbits::TIMEOUT_BITS),
        match rules {
            Option::Some(rs) => rs.len() == 0,
            Option::None => true,
        },
    ensures
        spec_state_of(v, rules) == crate::alarm::SensorDeviceAlarmView::NORMAL("OK"@),
        spec_class_code(spec_state_of(v, rules)) == 0,
{
}

} // verus!
