//! The alarm evaluator: matches a calibrated value against a channel's
//! severity-ranked threshold rules.
//!
//! The two sentinel values preempt all rule evaluation. Otherwise the
//! enabled rules are evaluated in order of severity rank ascending (rank 0
//! is the most severe), ties broken by declaration order, and the first
//! rule whose comparison holds decides the state. The winning rule is
//! therefore the matching enabled rule with the lexicographically least
//! (severity, declaration index) — which is how it is specified and
//! computed here, with no sorting.

use vstd::prelude::*;
use vstd::string::StringExecFns;
use crate::floatbits::{spec_cmp_op, f64_bits_cmp_op, f64_eq, f64_bits_eq, DISCONNECT_BITS, TIMEOUT_BITS};

verus! {

/// One alarm rule of a channel. `set_point` and `every` carry the bit
/// patterns of the doubles they denote; `every` is the re-notification
/// interval, consumed by the notification collaborator and not evaluated
/// here.
pub struct AlarmsDetails {
    pub alarm_id: i32,
    pub device_location_id: i32,
    /// Comparison operator code: 0 equal, 1 less-than, 2 greater-than,
    /// 3 less-or-equal, 4 greater-or-equal; any other code never matches.
    pub type_: u32,
    /// Severity rank; lower outranks higher (0 is the most severe).
    pub severity: u32,
    pub alarm_role: u32,
    /// Threshold, as a binary64 bit pattern.
    pub set_point: u64,
    /// Re-notification interval, as a binary64 bit pattern.
    pub every: u64,
    /// Enabled flag: the rule takes part in evaluation only when non-zero.
    pub status: u8,
}

/// The resolved alarm state of one reading, carrying the persisted state
/// text.
#[allow(non_camel_case_types)]
pub enum SensorDeviceAlarm {
    ERROR(String),
    NORMAL(String),
    MAJOR(String),
    MINOR(String),
    WARNING(String),
    CRITICAL(String),
}

/// The view of an alarm state, with the text as a character sequence.
#[allow(non_camel_case_types)]
pub enum SensorDeviceAlarmView {
    ERROR(Seq<char>),
    NORMAL(Seq<char>),
    MAJOR(Seq<char>),
    MINOR(Seq<char>),
    WARNING(Seq<char>),
    CRITICAL(Seq<char>),
}

impl View for SensorDeviceAlarm {
    type V = SensorDeviceAlarmView;

    open spec fn view(&self) -> SensorDeviceAlarmView {
        match self {
            SensorDeviceAlarm::ERROR(s) => SensorDeviceAlarmView::ERROR(s@),
            SensorDeviceAlarm::NORMAL(s) => SensorDeviceAlarmView::NORMAL(s@),
            SensorDeviceAlarm::MAJOR(s) => SensorDeviceAlarmView::MAJOR(s@),
            SensorDeviceAlarm::MINOR(s) => SensorDeviceAlarmView::MINOR(s@),
            SensorDeviceAlarm::WARNING(s) => SensorDeviceAlarmView::WARNING(s@),
            SensorDeviceAlarm::CRITICAL(s) => SensorDeviceAlarmView::CRITICAL(s@),
        }
    }
}

/// A severity rank, as a tagged value. Rank 0 is CRITICAL, 1 is WARNING,
/// 2 is MAJOR, 3 is MINOR; NORMAL is the absence of a matching rule.
#[allow(non_camel_case_types)]
pub enum SensorAlarmSeverity {
    NORMAL(u8),
    MINOR(u8),
    MAJOR(u8),
    WARNING(u8),
    CRITICAL(u8),
}

/// Whether a rule takes part in evaluation.
pub open spec fn spec_rule_enabled(r: AlarmsDetails) -> bool {
    r.status != 0
}

/// Whether an enabled rule's comparison holds of the value.
pub open spec fn spec_rule_matches(r: AlarmsDetails, v: u64) -> bool {
    spec_rule_enabled(r) && spec_cmp_op(r.type_, v, r.set_point)
}

/// The winning rule among the first `n`: the matching enabled rule with
/// the least (severity, declaration index), if any matches.
pub open spec fn spec_winner_upto(rules: Seq<AlarmsDetails>, v: u64, n: nat) -> Option<int>
    recommends
        n <= rules.len(),
    decreases n,
{
    if n == 0 {
        None
    } else {
        let prev = spec_winner_upto(rules, v, (n - 1) as nat);
        let i = n - 1;
        if !spec_rule_matches(rules[i], v) {
            prev
        } else {
            match prev {
                Option::None => Option::Some(i as int),
                Option::Some(j) => {
                    if rules[i].severity < rules[j].severity {
                        Option::Some(i as int)
                    } else {
                        Option::Some(j)
                    }
                },
            }
        }
    }
}

/// The winning rule of the whole rule set.
pub open spec fn spec_winner(rules: Seq<AlarmsDetails>, v: u64) -> Option<int> {
    spec_winner_upto(rules, v, rules.len())
}

proof fn lemma_winner_upto_characterization(rules: Seq<AlarmsDetails>, v: u64, n: nat)
    requires
        n <= rules.len(),
    ensures
        match spec_winner_upto(rules, v, n) {
            Option::Some(i) => {
                &&& 0 <= i < n
                &&& spec_rule_matches(rules[i], v)
                &&& forall|j: int|
                    0 <= j < n && spec_rule_matches(#[trigger] rules[j], v) ==> (
                    rules[i].severity < rules[j].severity || (rules[i].severity == rules[j].severity
                        && i <= j))
            },
            Option::None => forall|j: int| 0 <= j < n ==> !spec_rule_matches(#[trigger] rules[j], v),
        },
    decreases n,
{
    if n > 0 {
        lemma_winner_upto_characterization(rules, v, (n - 1) as nat);
    }
}

/// The winning rule, if there is one, is a matching enabled rule that no
/// other matching rule outranks: every other matching rule has a strictly
/// higher severity rank, or the same rank and a later declaration index.
/// With no matching rule there is no winner.
pub proof fn lemma_winner_characterization(rules: Seq<AlarmsDetails>, v: u64)
    ensures
        match spec_winner(rules, v) {
            Option::Some(i) => {
                &&& 0 <= i < rules.len()
                &&& spec_rule_matches(rules[i], v)
                &&& forall|j: int|
                    0 <= j < rules.len() && spec_rule_matches(#[trigger] rules[j], v) ==> (
                    rules[i].severity < rules[j].severity || (rules[i].severity == rules[j].severity
                        && i <= j))
            },
            Option::None => forall|j: int|
                0 <= j < rules.len() ==> !spec_rule_matches(#[trigger] rules[j], v),
        },
{
    lemma_winner_upto_characterization(rules, v, rules.len());
}

/// Of two enabled rules at the same severity rank whose comparisons both
/// hold, the one declared first is evaluated first and wins: the later one
/// is never the winner, and a winner exists.
pub proof fn lemma_same_severity_tie_break(rules: Seq<AlarmsDetails>, v: u64, i: int, j: int)
    requires
        0 <= i < j < rules.len(),
        spec_rule_matches(rules[i], v),
        spec_rule_matches(rules[j], v),
        rules[i].severity == rules[j].severity,
    ensures
        spec_winner(rules, v) is Some,
        spec_winner(rules, v) != Option::Some(j),
{
    lemma_winner_characterization(rules, v);
}

/// The state that a winning rule of a given severity rank resolves to.
pub open spec fn spec_severity_state(sev: u32) -> SensorDeviceAlarmView {
    if sev == 0 {
        SensorDeviceAlarmView::CRITICAL("CRITICAL"@)
    } else if sev == 1 {
        SensorDeviceAlarmView::WARNING("WARNING"@)
    } else if sev == 2 {
        SensorDeviceAlarmView::MAJOR("MAJOR"@)
    } else if sev == 3 {
        SensorDeviceAlarmView::MINOR("MINOR"@)
    } else {
        SensorDeviceAlarmView::ERROR("UNKNOW"@)
    }
}

/// The view of an optional rule vector.
pub open spec fn spec_alarms_view(a: Option<Vec<AlarmsDetails>>) -> Option<Seq<AlarmsDetails>> {
    match a {
        Option::None => Option::None,
        Option::Some(v) => Option::Some(v@),
    }
}

/// The alarm state of a calibrated value: the sentinel states preempt all
/// rule evaluation; otherwise the winning rule's severity rank decides, and
/// with no winning rule the state is normal.
pub open spec fn spec_state_of(v: u64, rules: Option<Seq<AlarmsDetails>>) -> SensorDeviceAlarmView {
    if f64_eq(v, DISCONNECT_BITS) {
        SensorDeviceAlarmView::ERROR("DISCONNECT"@)
    } else if f64_eq(v, TIMEOUT_BITS) {
        SensorDeviceAlarmView::ERROR("TIMEOUT"@)
    } else {
        match rules {
            Option::None => SensorDeviceAlarmView::NORMAL("OK"@),
            Option::Some(rs) => match spec_winner(rs, v) {
                Option::None => SensorDeviceAlarmView::NORMAL("OK"@),
                Option::Some(i) => spec_severity_state(rs[i].severity),
            },
        }
    }
}

/// The winner of the first `n` rules, as an executable index.
fn winner_upto(rules: &Vec<AlarmsDetails>, v: u64) -> (best: Option<usize>)
    ensures
        match best {
            Option::Some(b) => b < rules@.len() && spec_winner(rules@, v) == Option::Some(b as int),
            Option::None => spec_winner(rules@, v) is None,
        },
{
    let n = rules.len();
    let mut best: Option<usize> = None;
    let mut i: usize = 0;
    while i < n
        invariant
            n == rules@.len(),
            i <= n,
            match best {
                Option::Some(b) => b < i && spec_winner_upto(rules@, v, i as nat) == Option::Some(
                    b as int,
                ),
                Option::None => spec_winner_upto(rules@, v, i as nat) is None,
            },
        decreases n - i,
    {
        let matches_here = rules[i].status != 0 && f64_bits_cmp_op(rules[i].type_, v, rules[i].set_point);
        if matches_here {
            match best {
                Option::None => {
                    best = Some(i);
                },
                Option::Some(b) => {
                    if rules[i].severity < rules[b].severity {
                        best = Some(i);
                    }
                },
            }
        }
        i = i + 1;
    }
    best
}

/// Resolves the state of a calibrated value against a channel's rules: the
/// disconnected and timeout sentinels short-circuit to their error states;
/// otherwise the winning rule's severity rank is mapped to a state (rank 0
/// CRITICAL, 1 WARNING, 2 MAJOR, 3 MINOR, anything else the UNKNOW error),
/// and with no matching enabled rule the state is NORMAL.
pub fn evaluate_alarms(value_bits: u64, alarms: &Option<Vec<AlarmsDetails>>) -> (st:
    SensorDeviceAlarm)
    ensures
        st@ == spec_state_of(value_bits, spec_alarms_view(*alarms)),
{
    if f64_bits_eq(value_bits, DISCONNECT_BITS) {
        return SensorDeviceAlarm::ERROR(String::from_str("DISCONNECT"));
    }
    if f64_bits_eq(value_bits, TIMEOUT_BITS) {
        return SensorDeviceAlarm::ERROR(String::from_str("TIMEOUT"));
    }
    match alarms {
        Option::None => SensorDeviceAlarm::NORMAL(String::from_str("OK")),
        Option::Some(rules) => {
            match winner_upto(rules, value_bits) {
                Option::None => SensorDeviceAlarm::NORMAL(String::from_str("OK")),
                Option::Some(b) => {
                    let sev = rules[b].severity;
                    if sev == 0 {
                        SensorDeviceAlarm::CRITICAL(String::from_str("CRITICAL"))
                    } else if sev == 1 {
                        SensorDeviceAlarm::WARNING(String::from_str("WARNING"))
                    } else if sev == 2 {
                        SensorDeviceAlarm::MAJOR(String::from_str("MAJOR"))
                    } else if sev == 3 {
                        SensorDeviceAlarm::MINOR(String::from_str("MINOR"))
                    } else {
                        SensorDeviceAlarm::ERROR(String::from_str("UNKNOW"))
                    }
                },
            }
        },
    }
}

/// The persisted text of an alarm state.
pub open spec fn spec_state_label(st: SensorDeviceAlarmView) -> Seq<char> {
    match st {
        SensorDeviceAlarmView::ERROR(s) => s,
        SensorDeviceAlarmView::NORMAL(s) => s,
        SensorDeviceAlarmView::MAJOR(s) => s,
        SensorDeviceAlarmView::MINOR(s) => s,
        SensorDeviceAlarmView::WARNING(s) => s,
        SensorDeviceAlarmView::CRITICAL(s) => s,
    }
}

/// The persisted text of an alarm state.
pub fn state_label(st: &SensorDeviceAlarm) -> (s: String)
    ensures
        s@ == spec_state_label(st@),
{
    match st {
        SensorDeviceAlarm::ERROR(t) => t.clone(),
        SensorDeviceAlarm::NORMAL(t) => t.clone(),
        SensorDeviceAlarm::MAJOR(t) => t.clone(),
        SensorDeviceAlarm::MINOR(t) => t.clone(),
        SensorDeviceAlarm::WARNING(t) => t.clone(),
        SensorDeviceAlarm::CRITICAL(t) => t.clone(),
    }
}

/// The numeric class code of an alarm state. The classification is
/// intentionally coarser than the state set: 0 normal, 1 any error state
/// (disconnected, timeout, unknown rank), 2 any non-critical triggered
/// alarm (warning, major, minor), 3 critical.
pub open spec fn spec_class_code(st: SensorDeviceAlarmView) -> u16 {
    match st {
        SensorDeviceAlarmView::NORMAL(_) => 0,
        SensorDeviceAlarmView::ERROR(_) => 1,
        SensorDeviceAlarmView::WARNING(_) => 2,
        SensorDeviceAlarmView::MAJOR(_) => 2,
        SensorDeviceAlarmView::MINOR(_) => 2,
        SensorDeviceAlarmView::CRITICAL(_) => 3,
    }
}

/// The numeric class code of an alarm state.
pub fn alarm_class_code(st: &SensorDeviceAlarm) -> (c: u16)
    ensures
        c == spec_class_code(st@),
{
    match st {
        SensorDeviceAlarm::NORMAL(_) => 0,
        SensorDeviceAlarm::ERROR(_) => 1,
        SensorDeviceAlarm::WARNING(_) => 2,
        SensorDeviceAlarm::MAJOR(_) => 2,
        SensorDeviceAlarm::MINOR(_) => 2,
        SensorDeviceAlarm::CRITICAL(_) => 3,
    }
}

} // verus!
