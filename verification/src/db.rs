//! Verified assembly of the relational-store statements: the
//! configuration-fetch query with one placeholder per device identifier,
//! and the single multi-row insert statement for a metric batch.

use vstd::prelude::*;
use vstd::string::StringExecFns;

verus! {

/// `n` copies of `item` joined by `sep` (empty for `n == 0`).
pub open spec fn spec_join_n(item: Seq<char>, sep: Seq<char>, n: nat) -> Seq<char>
    decreases n,
{
    if n == 0 {
        Seq::empty()
    } else if n == 1 {
        item
    } else {
        spec_join_n(item, sep, (n - 1) as nat) + sep + item
    }
}

/// Appends `n` copies of `item` joined by `sep` to `out`.
fn push_join_n(out: &mut String, item: &str, sep: &str, n: usize)
    ensures
        final(out)@ == old(out)@ + spec_join_n(item@, sep@, n as nat),
{
    if n == 0 {
        proof {
            assert(final(out)@ =~= old(out)@ + spec_join_n(item@, sep@, 0));
        }
        return ;
    }
    out.append(item);
    let mut i: usize = 1;
    while i < n
        invariant
            1 <= i <= n,
            out@ == old(out)@ + spec_join_n(item@, sep@, i as nat),
        decreases n - i,
    {
        out.append(sep);
        out.append(item);
        i = i + 1;
    }
    proof {
        assert(final(out)@ =~= old(out)@ + spec_join_n(item@, sep@, n as nat));
    }
}

/// One `?` placeholder per device identifier, comma-joined.
pub fn placeholders(n: usize) -> (s: String)
    ensures
        s@ == spec_join_n("?"@, ","@, n as nat),
{
    let mut s = String::new();
    push_join_n(&mut s, "?", ",", n);
    proof {
        assert(s@ =~= spec_join_n("?"@, ","@, n as nat));
    }
    s
}

/// The head of the configuration-fetch query, up to its placeholder list.
pub open spec fn spec_fetch_query_head() -> Seq<char> {
    "select dl.id device_location_id, CONCAT_WS('@', d.model, d.mac_address) model_mac, CONCAT_WS('@', s.name, s.serial) sensor_id, c.name client_name, l.name location_name, v.name variable_name, v.unit, dl.min, dl.max, dl.offset, dl.calibration_factor, case when COUNT(al.id)> 0 then JSON_ARRAYAGG(JSON_OBJECT('alarm_id', al.id, 'device_location_id', al.device_location_id, 'type', al.type, 'severity', al.severity, 'alarm_role', al.alarm_role, 'set_point', al.set_point, 'every', al.every, 'status', al.status)) else NULL end as alarms_details from device_locations dl left join alarm_sensors al on al.device_location_id = dl.id inner join clients c on dl.client_id = c.id inner join devices d on dl.device_id = d.id inner join locations l on dl.location_id = l.id inner join variables v on dl.variable_id = v.id inner join sensors s on dl.sensor_id = s.id where dl.status != 0 and d.mac_address IN ("@
}

/// The tail of the configuration-fetch query, after its placeholder list.
pub open spec fn spec_fetch_query_tail() -> Seq<char> {
    ") group by dl.id;"@
}

/// The configuration-fetch statement for `n` device identifiers: one
/// request per batch, channel keys and nested alarm rules included, one
/// `?` placeholder per identifier.
pub fn fetch_devices_query(n: usize) -> (s: String)
    ensures
        s@ == spec_fetch_query_head() + spec_join_n("?"@, ","@, n as nat)
            + spec_fetch_query_tail(),
{
    let mut s = String::from_str(
        "select dl.id device_location_id, CONCAT_WS('@', d.model, d.mac_address) model_mac, CONCAT_WS('@', s.name, s.serial) sensor_id, c.name client_name, l.name location_name, v.name variable_name, v.unit, dl.min, dl.max, dl.offset, dl.calibration_factor, case when COUNT(al.id)> 0 then JSON_ARRAYAGG(JSON_OBJECT('alarm_id', al.id, 'device_location_id', al.device_location_id, 'type', al.type, 'severity', al.severity, 'alarm_role', al.alarm_role, 'set_point', al.set_point, 'every', al.every, 'status', al.status)) else NULL end as alarms_details from device_locations dl left join alarm_sensors al on al.device_location_id = dl.id inner join clients c on dl.client_id = c.id inner join devices d on dl.device_id = d.id inner join locations l on dl.location_id = l.id inner join variables v on dl.variable_id = v.id inner join sensors s on dl.sensor_id = s.id where dl.status != 0 and d.mac_address IN (",
    );
    push_join_n(&mut s, "?", ",", n);
    s.append(") group by dl.id;");
    proof {
        assert(s@ =~= spec_fetch_query_head() + spec_join_n("?"@, ","@, n as nat)
            + spec_fetch_query_tail());
    }
    s
}

/// The head of the metric-insert statement, up to its row list.
pub open spec fn spec_insert_query_head() -> Seq<char> {
    "INSERT INTO metrics (device_location_id, client_name, location_name, model_mac, sensor_name, variable_name, unit, state, ip, value, timestamp) VALUES "@
}

/// One row of placeholders of the metric-insert statement.
pub open spec fn spec_insert_row() -> Seq<char> {
    "(?, ?, ?, ?, ?, ?, ?, ?, ?, ?, ?)"@
}

/// The single multi-row insert statement for a batch of `n` metrics: one
/// parenthesized placeholder group per metric, comma-joined.
pub fn insert_metrics_query(n: usize) -> (s: String)
    ensures
        s@ == spec_insert_query_head() + spec_join_n(spec_insert_row(), ", "@, n as nat),
{
    let mut s = String::from_str(
        "INSERT INTO metrics (device_location_id, client_name, location_name, model_mac, sensor_name, variable_name, unit, state, ip, value, timestamp) VALUES ",
    );
    push_join_n(&mut s, "(?, ?, ?, ?, ?, ?, ?, ?, ?, ?, ?)", ", ", n);
    proof {
        assert(s@ =~= spec_insert_query_head() + spec_join_n(spec_insert_row(), ", "@, n as nat));
    }
    s
}

} // verus!
