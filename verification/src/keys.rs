//! Channel key derivation: fans one device payload out into per-channel
//! readings with unique, `@`-joined textual keys.
//!
//! Each temperature probe entry yields a `probe-kind@<serial>` reading;
//! each Modbus register entry yields a `modbus@<device>@<hex fields>`
//! reading; and a payload with Modbus entries additionally yields exactly
//! one `battery@<device>` reading. Within one payload a later reading with
//! a colliding key overwrites an earlier one (last-write-wins), so the
//! derived keys are unique per payload.

use vstd::prelude::*;
use vstd::string::StringExecFns;
use crate::text::{spec_hex2, spec_hex4, spec_dec, push_hex2, push_hex4, push_dec, str_eq_chars};

verus! {

/// One inbound device payload: device identifier (physical address),
/// model, source address, battery level, a timestamp string, and the
/// optional probe and Modbus reading groups.
pub struct SensorDeviceData {
    pub mac: String,
    pub model: String,
    pub ip: String,
    pub batery: u8,
    pub time_stamp: String,
    pub temp: Option<TempSensorFields>,
    pub modbus: Option<ModbusRemoteFields>,
}

/// The temperature probe group: probe serials and their samples, as
/// parallel arrays. A serial position without a sample reads as `"N/A"`.
/// Samples are carried as decimal text, which is also what the decoder
/// consumes.
pub struct TempSensorFields {
    pub number: u8,
    pub value: Vec<String>,
    pub sn: Vec<String>,
}

/// The Modbus register group, as parallel arrays: the reported register
/// values (hex byte strings) and the slave id, function code, register
/// address and byte count of each.
pub struct ModbusRemoteFields {
    pub number: u8,
    pub value: Vec<String>,
    pub slave: Vec<u8>,
    pub funct: Vec<u8>,
    pub addr: Vec<u16>,
    pub bytes: Vec<u8>,
}

/// One expanded per-channel reading: its channel key, the model+device
/// compound identifier, the raw value text, and the payload's source
/// address and timestamp.
pub struct SensorDeviceRecive {
    pub mac: String,
    pub sensor_id: String,
    pub model_mac: String,
    pub value: String,
    pub ip: String,
    pub time_stamp: String,
}

/// The view of a reading, with every field as a character sequence.
pub struct ReadingView {
    pub mac: Seq<char>,
    pub sensor_id: Seq<char>,
    pub model_mac: Seq<char>,
    pub value: Seq<char>,
    pub ip: Seq<char>,
    pub time_stamp: Seq<char>,
}

impl View for SensorDeviceRecive {
    type V = ReadingView;

    open spec fn view(&self) -> ReadingView {
        ReadingView {
            mac: self.mac@,
            sensor_id: self.sensor_id@,
            model_mac: self.model_mac@,
            value: self.value@,
            ip: self.ip@,
            time_stamp: self.time_stamp@,
        }
    }
}

impl SensorDeviceRecive {
    /// Builds a reading from its parts.
    pub fn new(
        device_mac: String,
        sensor_id: String,
        model_mac: String,
        value: String,
        ip: String,
        time_stamp: String,
    ) -> (r: Self)
        ensures
            r@ == (ReadingView {
                mac: device_mac@,
                sensor_id: sensor_id@,
                model_mac: model_mac@,
                value: value@,
                ip: ip@,
                time_stamp: time_stamp@,
            }),
    {
        SensorDeviceRecive { mac: device_mac, sensor_id, model_mac, value, ip, time_stamp }
    }
}

/// The channel key of a temperature probe with the given serial.
pub open spec fn spec_probe_key(sn: Seq<char>) -> Seq<char> {
    "probe-kind@"@ + sn
}

/// The channel key of a Modbus register: the device identifier and the
/// register coordinates, each fixed-width uppercase hex.
pub open spec fn spec_modbus_key(mac: Seq<char>, slave: u8, funct: u8, addr: u16, nbytes: u8) -> Seq<char> {
    "modbus@"@ + mac + "@"@ + spec_hex2(slave) + spec_hex2(funct) + spec_hex4(addr) + spec_hex2(
        nbytes,
    )
}

/// The battery channel key of a device.
pub open spec fn spec_battery_key(mac: Seq<char>) -> Seq<char> {
    "battery@"@ + mac
}

/// The model+device compound identifier.
pub open spec fn spec_model_mac(model: Seq<char>, mac: Seq<char>) -> Seq<char> {
    model + "@"@ + mac
}

/// The reading emitted for probe position `i`: keyed by the serial, the
/// sample at the same position as raw text, or `"N/A"` when there is none.
pub open spec fn spec_probe_reading(d: SensorDeviceData, t: TempSensorFields, i: int) -> ReadingView {
    ReadingView {
        mac: d.mac@,
        sensor_id: spec_probe_key(t.sn@[i]@),
        model_mac: spec_model_mac(d.model@, d.mac@),
        value: if 0 <= i < t.value@.len() {
            t.value@[i]@
        } else {
            "N/A"@
        },
        ip: d.ip@,
        time_stamp: d.time_stamp@,
    }
}

/// The reading emitted for Modbus register position `i`.
pub open spec fn spec_modbus_reading(d: SensorDeviceData, m: ModbusRemoteFields, i: int) -> ReadingView {
    ReadingView {
        mac: d.mac@,
        sensor_id: spec_modbus_key(d.mac@, m.slave@[i], m.funct@[i], m.addr@[i], m.bytes@[i]),
        model_mac: spec_model_mac(d.model@, d.mac@),
        value: m.value@[i]@,
        ip: d.ip@,
        time_stamp: d.time_stamp@,
    }
}

/// The battery reading of a payload: its value is the battery level in
/// decimal.
pub open spec fn spec_battery_reading(d: SensorDeviceData) -> ReadingView {
    ReadingView {
        mac: d.mac@,
        sensor_id: spec_battery_key(d.mac@),
        model_mac: spec_model_mac(d.model@, d.mac@),
        value: spec_dec(d.batery as nat),
        ip: d.ip@,
        time_stamp: d.time_stamp@,
    }
}

/// The probe readings of a payload, in serial order.
pub open spec fn spec_probe_part(d: SensorDeviceData) -> Seq<ReadingView> {
    match d.temp {
        Option::Some(t) => Seq::new(t.sn@.len(), |i: int| spec_probe_reading(d, t, i)),
        Option::None => Seq::empty(),
    }
}

/// The Modbus readings of a payload, in register order, followed by the
/// battery reading — the battery level accompanies Modbus telemetry only.
pub open spec fn spec_modbus_part(d: SensorDeviceData) -> Seq<ReadingView> {
    match d.modbus {
        Option::Some(m) => Seq::new(m.value@.len(), |i: int| spec_modbus_reading(d, m, i)).push(
            spec_battery_reading(d),
        ),
        Option::None => Seq::empty(),
    }
}

/// All readings a payload emits, in emission order, before key
/// deduplication.
pub open spec fn spec_emitted(d: SensorDeviceData) -> Seq<ReadingView> {
    spec_probe_part(d) + spec_modbus_part(d)
}

/// Whether some reading in `s` carries the given key.
pub open spec fn spec_has_key(s: Seq<ReadingView>, key: Seq<char>) -> bool {
    exists|i: int| 0 <= i < s.len() && s[i].sensor_id == key
}

/// All keys in `s` are pairwise distinct.
pub open spec fn spec_unique_keys(s: Seq<ReadingView>) -> bool {
    forall|i: int, j: int|
        0 <= i < j < s.len() ==> (#[trigger] s[i].sensor_id) != (#[trigger] s[j].sensor_id)
}

/// Inserts a reading with last-write-wins semantics: a reading whose key is
/// already present replaces the one holding that key, in place; otherwise
/// it is appended.
pub open spec fn spec_lww_insert(s: Seq<ReadingView>, r: ReadingView) -> Seq<ReadingView> {
    if spec_has_key(s, r.sensor_id) {
        s.update(choose|i: int| 0 <= i < s.len() && s[i].sensor_id == r.sensor_id, r)
    } else {
        s.push(r)
    }
}

/// The last-write-wins fold of an emission sequence: the unique-keyed
/// reading sequence after processing the emissions in order.
pub open spec fn spec_lww(s: Seq<ReadingView>) -> Seq<ReadingView>
    decreases s.len(),
{
    if s.len() == 0 {
        Seq::empty()
    } else {
        spec_lww_insert(spec_lww(s.drop_last()), s.last())
    }
}

/// The views of a reading sequence.
pub open spec fn spec_views(s: Seq<SensorDeviceRecive>) -> Seq<ReadingView> {
    s.map_values(|r: SensorDeviceRecive| r@)
}

/// The Modbus group's parallel arrays are at least as long as its value
/// array.
pub open spec fn spec_modbus_wf(m: ModbusRemoteFields) -> bool {
    &&& m.slave@.len() >= m.value@.len()
    &&& m.funct@.len() >= m.value@.len()
    &&& m.addr@.len() >= m.value@.len()
    &&& m.bytes@.len() >= m.value@.len()
}

/// A payload whose Modbus group, if present, is well-formed.
pub open spec fn spec_payload_wf(d: SensorDeviceData) -> bool {
    match d.modbus {
        Option::Some(m) => spec_modbus_wf(m),
        Option::None => true,
    }
}

/// Appends a reading with last-write-wins key semantics.
fn lww_push(out: &mut Vec<SensorDeviceRecive>, r: SensorDeviceRecive)
    requires
        spec_unique_keys(spec_views(old(out)@)),
    ensures
        spec_views(final(out)@) == spec_lww_insert(spec_views(old(out)@), r@),
        spec_unique_keys(spec_views(final(out)@)),
{
    let n = out.len();
    let mut j: usize = 0;
    while j < n
        invariant
            n == out@.len(),
            j <= n,
            out@ == old(out)@,
            spec_unique_keys(spec_views(out@)),
            forall|k: int| 0 <= k < j ==> spec_views(out@)[k].sensor_id != r@.sensor_id,
        decreases n - j,
    {
        if str_eq_chars(out[j].sensor_id.as_str(), r.sensor_id.as_str()) {
            proof {
                let views = spec_views(old(out)@);
                assert(views[j as int].sensor_id == r@.sensor_id);
                assert(spec_has_key(views, r@.sensor_id));
                let c = choose|i: int| 0 <= i < views.len() && views[i].sensor_id == r@.sensor_id;
                assert(c == j as int);
            }
            out.set(j, r);
            proof {
                assert(spec_views(out@) =~= spec_views(old(out)@).update(j as int, r@));
            }
            return ;
        }
        j = j + 1;
    }
    proof {
        assert(!spec_has_key(spec_views(old(out)@), r@.sensor_id));
    }
    out.push(r);
    proof {
        assert(spec_views(out@) =~= spec_views(old(out)@).push(r@));
    }
}

/// Steps the fold: folding one more emission is inserting it into the fold
/// of the prefix.
proof fn lemma_lww_step(s: Seq<ReadingView>, r: ReadingView)
    ensures
        spec_lww(s.push(r)) == spec_lww_insert(spec_lww(s), r),
{
    assert(s.push(r).drop_last() =~= s);
    assert(s.push(r).last() == r);
}

/// The reading that the overwrite rule keeps for a key: the last emitted
/// reading carrying it.
pub open spec fn spec_last_with_key(s: Seq<ReadingView>, k: Seq<char>) -> ReadingView
    recommends
        spec_has_key(s, k),
    decreases s.len(),
{
    if s.len() == 0 {
        arbitrary()
    } else if s.last().sensor_id == k {
        s.last()
    } else {
        spec_last_with_key(s.drop_last(), k)
    }
}

/// A key is in a sequence exactly when it is in the front or carried by the
/// last element.
proof fn lemma_has_key_unsnoc(s: Seq<ReadingView>, k: Seq<char>)
    requires
        s.len() > 0,
    ensures
        spec_has_key(s, k) <==> (spec_has_key(s.drop_last(), k) || s.last().sensor_id == k),
{
    if spec_has_key(s, k) {
        let i = choose|i: int| 0 <= i < s.len() && s[i].sensor_id == k;
        if i < s.len() - 1 {
            assert(s.drop_last()[i].sensor_id == k);
        }
    }
    if spec_has_key(s.drop_last(), k) {
        let i = choose|i: int| 0 <= i < s.drop_last().len() && s.drop_last()[i].sensor_id == k;
        assert(s[i].sensor_id == k);
    }
    if s.last().sensor_id == k {
        assert(s[s.len() - 1].sensor_id == k);
    }
}

/// The fold never duplicates a key.
pub proof fn lemma_lww_unique(s: Seq<ReadingView>)
    ensures
        spec_unique_keys(spec_lww(s)),
    decreases s.len(),
{
    if s.len() > 0 {
        lemma_lww_unique(s.drop_last());
        let prev = spec_lww(s.drop_last());
        let r = s.last();
        if spec_has_key(prev, r.sensor_id) {
            let c = choose|i: int| 0 <= i < prev.len() && prev[i].sensor_id == r.sensor_id;
            assert forall|i: int, j: int| 0 <= i < j < spec_lww(s).len() implies (
                #[trigger] spec_lww(s)[i].sensor_id) != (#[trigger] spec_lww(s)[j].sensor_id) by {
                assert(spec_lww(s) == prev.update(c, r));
                assert(spec_lww(s)[i].sensor_id == prev[i].sensor_id);
                assert(spec_lww(s)[j].sensor_id == prev[j].sensor_id);
            }
        } else {
            assert forall|i: int, j: int| 0 <= i < j < spec_lww(s).len() implies (
                #[trigger] spec_lww(s)[i].sensor_id) != (#[trigger] spec_lww(s)[j].sensor_id) by {
                assert(spec_lww(s) == prev.push(r));
                if j == prev.len() {
                    assert(spec_lww(s)[i] == prev[i]);
                    assert(!spec_has_key(prev, r.sensor_id));
                }
            }
        }
    }
}

/// The overwrite rule, as a law over the fold: a key appears in the derived
/// map exactly when some emission carries it, and the reading kept under
/// that key is the last emission that carries it — a later reading with a
/// colliding key overwrites an earlier one.
pub proof fn lemma_lww_last_write_wins(s: Seq<ReadingView>, k: Seq<char>)
    ensures
        spec_has_key(spec_lww(s), k) <==> spec_has_key(s, k),
        forall|i: int|
            0 <= i < spec_lww(s).len() && (#[trigger] spec_lww(s)[i]).sensor_id == k ==> spec_lww(
                s,
            )[i] == spec_last_with_key(s, k),
    decreases s.len(),
{
    if s.len() == 0 {
        if spec_has_key(s, k) {
            let i = choose|i: int| 0 <= i < s.len() && s[i].sensor_id == k;
            assert(false);
        }
    } else {
        lemma_lww_last_write_wins(s.drop_last(), k);
        lemma_lww_unique(s.drop_last());
        lemma_has_key_unsnoc(s, k);
        let prev = spec_lww(s.drop_last());
        let r = s.last();
        let cur = spec_lww(s);
        if spec_has_key(prev, r.sensor_id) {
            let c = choose|i: int| 0 <= i < prev.len() && prev[i].sensor_id == r.sensor_id;
            assert(cur == prev.update(c, r));
            if r.sensor_id == k {
                assert(cur[c].sensor_id == k);
                assert(spec_has_key(cur, k));
                assert forall|i: int|
                    0 <= i < cur.len() && (#[trigger] cur[i]).sensor_id == k implies cur[i]
                    == spec_last_with_key(s, k) by {
                    if i != c {
                        assert(cur[i] == prev[i]);
                        assert(prev[i].sensor_id == k && prev[c].sensor_id == k);
                        assert(false);
                    }
                }
            } else {
                if spec_has_key(cur, k) {
                    let i = choose|i: int| 0 <= i < cur.len() && cur[i].sensor_id == k;
                    assert(i != c);
                    assert(prev[i].sensor_id == k);
                }
                if spec_has_key(prev, k) {
                    let i = choose|i: int| 0 <= i < prev.len() && prev[i].sensor_id == k;
                    assert(i != c);
                    assert(cur[i].sensor_id == k);
                }
                assert forall|i: int|
                    0 <= i < cur.len() && (#[trigger] cur[i]).sensor_id == k implies cur[i]
                    == spec_last_with_key(s, k) by {
                    assert(i != c);
                    assert(cur[i] == prev[i]);
                }
            }
        } else {
            assert(cur == prev.push(r));
            if r.sensor_id == k {
                assert(cur[prev.len() as int].sensor_id == k);
                assert(spec_has_key(cur, k));
                assert forall|i: int|
                    0 <= i < cur.len() && (#[trigger] cur[i]).sensor_id == k implies cur[i]
                    == spec_last_with_key(s, k) by {
                    if i < prev.len() {
                        assert(prev[i].sensor_id == k);
                        assert(spec_has_key(prev, k));
                        assert(false);
                    }
                }
            } else {
                if spec_has_key(cur, k) {
                    let i = choose|i: int| 0 <= i < cur.len() && cur[i].sensor_id == k;
                    assert(i < prev.len());
                    assert(prev[i].sensor_id == k);
                }
                if spec_has_key(prev, k) {
                    let i = choose|i: int| 0 <= i < prev.len() && prev[i].sensor_id == k;
                    assert(cur[i].sensor_id == k);
                }
                assert forall|i: int|
                    0 <= i < cur.len() && (#[trigger] cur[i]).sensor_id == k implies cur[i]
                    == spec_last_with_key(s, k) by {
                    assert(i < prev.len());
                    assert(cur[i] == prev[i]);
                }
            }
        }
    }
}

impl SensorDeviceData {
    /// Expands one payload into its keyed readings: one per probe serial, one
    /// per Modbus register, and one battery reading when any Modbus entries
    /// exist. Keys are unique in the result; within the payload a later
    /// emission with a colliding key overwrites the earlier reading.
    pub fn generate_sensor_map(sensor_data: SensorDeviceData) -> (out: Vec<SensorDeviceRecive>)
    requires
        spec_payload_wf(sensor_data),
    ensures
        spec_views(out@) == spec_lww(spec_emitted(sensor_data)),
        spec_unique_keys(spec_views(out@)),
{
    let mut out: Vec<SensorDeviceRecive> = Vec::new();
    proof {
        assert(spec_views(out@) =~= Seq::<ReadingView>::empty());
        assert(spec_lww(spec_probe_part(sensor_data).take(0)) =~= Seq::<ReadingView>::empty());
    }
    match &sensor_data.temp {
        Option::Some(t) => {
            let n = t.sn.len();
            let mut i: usize = 0;
            while i < n
                invariant
                    spec_payload_wf(sensor_data),
                    sensor_data.temp == Option::Some(*t),
                    n == t.sn@.len(),
                    i <= n,
                    spec_unique_keys(spec_views(out@)),
                    spec_views(out@) == spec_lww(spec_probe_part(sensor_data).take(i as int)),
                decreases n - i,
            {
                let mut key = String::from_str("probe-kind@");
                key.append(t.sn[i].as_str());
                let mut model_mac = sensor_data.model.clone();
                model_mac.append("@");
                model_mac.append(sensor_data.mac.as_str());
                let value: String = if i < t.value.len() {
                    t.value[i].clone()
                } else {
                    String::from_str("N/A")
                };
                let entry = SensorDeviceRecive::new(
                    sensor_data.mac.clone(),
                    key,
                    model_mac,
                    value,
                    sensor_data.ip.clone(),
                    sensor_data.time_stamp.clone(),
                );
                proof {
                    assert(entry@ == spec_probe_reading(sensor_data, *t, i as int));
                    lemma_lww_step(spec_probe_part(sensor_data).take(i as int), entry@);
                    assert(spec_probe_part(sensor_data).take(i as int).push(entry@)
                        =~= spec_probe_part(sensor_data).take(i + 1));
                }
                lww_push(&mut out, entry);
                i = i + 1;
            }
            proof {
                assert(spec_probe_part(sensor_data).take(n as int) =~= spec_probe_part(
                    sensor_data,
                ));
            }
        },
        Option::None => {
            proof {
                assert(spec_probe_part(sensor_data) =~= Seq::<ReadingView>::empty());
            }
        },
    }
    match &sensor_data.modbus {
        Option::Some(m) => {
            let ghost probe_done = spec_probe_part(sensor_data);
            let ghost reg_part = Seq::new(
                m.value@.len(),
                |i: int| spec_modbus_reading(sensor_data, *m, i),
            );
            let n = m.value.len();
            let mut i: usize = 0;
            while i < n
                invariant
                    spec_payload_wf(sensor_data),
                    sensor_data.modbus == Option::Some(*m),
                    n == m.value@.len(),
                    i <= n,
                    probe_done == spec_probe_part(sensor_data),
                    reg_part == Seq::new(
                        m.value@.len(),
                        |k: int| spec_modbus_reading(sensor_data, *m, k),
                    ),
                    spec_unique_keys(spec_views(out@)),
                    spec_views(out@) == spec_lww(probe_done + reg_part.take(i as int)),
                decreases n - i,
            {
                let mut key = String::from_str("modbus@");
                key.append(sensor_data.mac.as_str());
                key.append("@");
                push_hex2(&mut key, m.slave[i]);
                push_hex2(&mut key, m.funct[i]);
                push_hex4(&mut key, m.addr[i]);
                push_hex2(&mut key, m.bytes[i]);
                let mut model_mac = sensor_data.model.clone();
                model_mac.append("@");
                model_mac.append(sensor_data.mac.as_str());
                let entry = SensorDeviceRecive::new(
                    sensor_data.mac.clone(),
                    key,
                    model_mac,
                    m.value[i].clone(),
                    sensor_data.ip.clone(),
                    sensor_data.time_stamp.clone(),
                );
                proof {
                    assert(entry@ == spec_modbus_reading(sensor_data, *m, i as int));
                    lemma_lww_step(probe_done + reg_part.take(i as int), entry@);
                    assert((probe_done + reg_part.take(i as int)).push(entry@) =~= probe_done
                        + reg_part.take(i + 1));
                }
                lww_push(&mut out, entry);
                i = i + 1;
            }
            let mut key = String::from_str("battery@");
            key.append(sensor_data.mac.as_str());
            let mut model_mac = sensor_data.model.clone();
            model_mac.append("@");
            model_mac.append(sensor_data.mac.as_str());
            let mut value = String::new();
            push_dec(&mut value, sensor_data.batery as u64);
            let entry = SensorDeviceRecive::new(
                sensor_data.mac.clone(),
                key,
                model_mac,
                value,
                sensor_data.ip.clone(),
                sensor_data.time_stamp.clone(),
            );
            proof {
                assert(entry@ == spec_battery_reading(sensor_data));
                lemma_lww_step(probe_done + reg_part.take(n as int), entry@);
                assert((probe_done + reg_part.take(n as int)).push(entry@) =~= spec_emitted(
                    sensor_data,
                ));
            }
            lww_push(&mut out, entry);
        },
        Option::None => {
            proof {
                assert(spec_emitted(sensor_data) =~= spec_probe_part(sensor_data));
            }
        },
    }
    out
}
}

/// Key derivation is deterministic, and so idempotent: the derived reading
/// sequence — keys included — is a function of the payload alone, so two
/// derivations from the same payload agree exactly.
pub proof fn lemma_key_derivation_idempotent(
    out1: Seq<ReadingView>,
    out2: Seq<ReadingView>,
    d: SensorDeviceData,
)
    requires
        out1 == spec_lww(spec_emitted(d)),
        out2 == spec_lww(spec_emitted(d)),
    ensures
        out1 == out2,
{
}

} // verus!
