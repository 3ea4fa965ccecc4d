//! The reference curves that belong to measurement logs, and the graph in
//! which the logs are drawn against them.

use vstd::prelude::*;

use crate::battery::{point, reference_point, spec_charging_reference, ReferenceStateOfCharge};
use crate::measurement::{temperature_sum, ChargerState, Log, LogEntry};

verus! {

/// The discharge curve measured at an average temperature of at most 25 °C.
pub open spec fn spec_cool_discharging_reference() -> Seq<ReferenceStateOfCharge> {
    seq![point(4090, 100), point(3730, 55), point(3650, 25), point(3550, 5), point(3300, 0)]
}

/// The discharge curve measured at an average temperature of at least 30 °C.
pub open spec fn spec_warm_discharging_reference() -> Seq<ReferenceStateOfCharge> {
    seq![
        point(4090, 100),
        point(3850, 75),
        point(3720, 55),
        point(3630, 25),
        point(3550, 6),
        point(3300, 0),
    ]
}

/// The curve that belongs to a log logged under `charger` at average
/// temperature `temperature`.
pub open spec fn spec_reference_list(charger: ChargerState, temperature: int) -> Seq<ReferenceStateOfCharge> {
    if charger == ChargerState::NoSource {
        if temperature <= 2500 {
            spec_cool_discharging_reference()
        } else {
            spec_warm_discharging_reference()
        }
    } else {
        spec_charging_reference()
    }
}

/// The curve that belongs to a log, by the charger state of its first entry
/// and its average temperature.
pub open spec fn log_reference_list(log: Log) -> Seq<ReferenceStateOfCharge> {
    spec_reference_list(
        log.entries@[0].charger,
        (temperature_sum(log.entries@) / log.entries@.len()) as int,
    )
}

/// The logs for which a curve is known: all entries logged under the same
/// charger state, either charging or without a source at an average
/// temperature of at most 25 °C or at least 30 °C (the sum of the
/// temperatures within `usize`).
pub open spec fn reference_list_known(s: Seq<LogEntry>) -> bool {
    &&& s.len() > 0
    &&& forall|i: int| 0 <= i < s.len() ==> #[trigger] s[i].charger == s[0].charger
    &&& (s[0].charger == ChargerState::Charging || (s[0].charger == ChargerState::NoSource
        && temperature_sum(s) <= usize::MAX && (temperature_sum(s) / s.len() <= 2500
        || temperature_sum(s) / s.len() >= 3000)))
}

/// The reference curve that belongs to a log, by its charger state and, while
/// discharging, its average temperature.
pub fn get_reference_list(log: &Log) -> (r: Vec<ReferenceStateOfCharge>)
    requires
        reference_list_known(log.entries@),
    ensures
        r@ == log_reference_list(*log),
{
    match log.get_charger() {
        ChargerState::NoSource => {
            let temperature = log.average_temperature();
            if temperature <= 2500 {
                let r = vec![
                    reference_point(4090, 100),
                    reference_point(3730, 55),
                    reference_point(3650, 25),
                    reference_point(3550, 5),
                    reference_point(3300, 0),
                ];
                assert(r@ =~= spec_cool_discharging_reference());
                r
            } else {
                let r = vec![
                    reference_point(4090, 100),
                    reference_point(3850, 75),
                    reference_point(3720, 55),
                    reference_point(3630, 25),
                    reference_point(3550, 6),
                    reference_point(3300, 0),
                ];
                assert(r@ =~= spec_warm_discharging_reference());
                r
            }
        },
        _ => {
            let r = vec![
                reference_point(4090, 100),
                reference_point(3920, 85),
                reference_point(3670, 5),
                reference_point(3400, 0),
            ];
            assert(r@ =~= spec_charging_reference());
            r
        },
    }
}

/// The curve of a log is chosen by its charger state and, without a source,
/// by the average of its temperatures: the charging curve for a charging log,
/// the cool discharge curve at an average of at most 25 °C, the warm one at
/// an average of 30 °C or more.
pub proof fn lemma_reference_list_of_log(log: Log)
    requires
        reference_list_known(log.entries@),
    ensures
        log.entries@[0].charger == ChargerState::Charging ==> log_reference_list(log)
            == spec_charging_reference(),
        log.entries@[0].charger == ChargerState::NoSource && temperature_sum(log.entries@)
            / log.entries@.len() <= 2500 ==> log_reference_list(log) == spec_cool_discharging_reference(),
        log.entries@[0].charger == ChargerState::NoSource && temperature_sum(log.entries@)
            / log.entries@.len() >= 3000 ==> log_reference_list(log) == spec_warm_discharging_reference(),
{
}

/// Two logs logged under the same charger state at the same average
/// temperature get the same curve, whatever their single entries hold.
pub proof fn lemma_same_average_same_reference_list(a: Log, b: Log)
    requires
        reference_list_known(a.entries@),
        reference_list_known(b.entries@),
        a.entries@[0].charger == b.entries@[0].charger,
        temperature_sum(a.entries@) / a.entries@.len() == temperature_sum(b.entries@) / b.entries@.len(),
    ensures
        log_reference_list(a) == log_reference_list(b),
{
}

impl Log {
    /// Whether a reference curve is known for this log (see
    /// `reference_list_known`).
    pub fn has_known_reference_list(&self) -> (r: bool)
        ensures
            r == reference_list_known(self.entries@),
    {
        let n = self.entries.len();
        if n == 0 {
            return false;
        }
        if !self.has_single_charger() {
            return false;
        }
        let mut total: u128 = 0;
        let mut i: usize = 0;
        while i < n
            invariant
                n == self.entries@.len(),
                i <= n,
                total == temperature_sum(self.entries@.take(i as int)),
                total <= 65535 * i,
            decreases n - i,
        {
            assert(self.entries@.take(i + 1).drop_last() =~= self.entries@.take(i as int));
            total = total + self.entries[i].temperature as u128;
            i = i + 1;
        }
        assert(self.entries@.take(n as int) =~= self.entries@);
        let charger = self.entries[0].charger;
        match charger {
            ChargerState::Charging => true,
            ChargerState::NoSource => {
                if total > usize::MAX as u128 {
                    return false;
                }
                let average = total / (n as u128);
                average <= 2500 || average >= 3000
            },
            _ => false,
        }
    }
}

/// Whether the logs can be drawn in one graph: every log has the reference
/// curve of the first log, and every entry the charger state of the first
/// log's first entry.
pub open spec fn spec_graph_data_consistent(data: Seq<Log>) -> bool {
    &&& forall|i: int|
        0 <= i < data.len() ==> #[trigger] log_reference_list(data[i]) == log_reference_list(data[0])
    &&& forall|i: int, j: int|
        0 <= i < data.len() && 0 <= j < data[i].entries@.len() ==> #[trigger] data[i].entries@[j].charger
            == data[0].entries@[0].charger
}

fn same_reference_list(a: &Vec<ReferenceStateOfCharge>, b: &Vec<ReferenceStateOfCharge>) -> (r: bool)
    ensures
        r == (a@ == b@),
{
    if a.len() != b.len() {
        return false;
    }
    let mut i: usize = 0;
    while i < a.len()
        invariant
            a@.len() == b@.len(),
            i <= a@.len(),
            forall|k: int| 0 <= k < i ==> a@[k] == b@[k],
        decreases a@.len() - i,
    {
        if a[i].voltage != b[i].voltage || a[i].state_of_charge != b[i].state_of_charge {
            return false;
        }
        i = i + 1;
    }
    assert(a@ =~= b@);
    true
}

/// Whether the logs can be drawn in one graph (see `spec_graph_data_consistent`).
pub fn graph_data_consistent(data: &Vec<Log>) -> (r: bool)
    requires
        data@.len() > 0,
        forall|i: int| 0 <= i < data@.len() ==> reference_list_known(#[trigger] data@[i].entries@),
    ensures
        r == spec_graph_data_consistent(data@),
{
    let first_charger = data[0].first().charger;
    let first_list = get_reference_list(&data[0]);
    let n = data.len();
    let mut i: usize = 0;
    while i < n
        invariant
            n == data@.len(),
            n > 0,
            i <= n,
            forall|k: int| 0 <= k < data@.len() ==> reference_list_known(#[trigger] data@[k].entries@),
            first_charger == data@[0].entries@[0].charger,
            first_list@ == log_reference_list(data@[0]),
            forall|k: int| 0 <= k < i ==> #[trigger] log_reference_list(data@[k]) == first_list@,
            forall|k: int, j: int|
                0 <= k < i && 0 <= j < data@[k].entries@.len() ==> #[trigger] data@[k].entries@[j].charger
                    == first_charger,
        decreases n - i,
    {
        let log = &data[i];
        assert(reference_list_known(log.entries@));
        let list = get_reference_list(log);
        if !same_reference_list(&list, &first_list) {
            return false;
        }
        if log.first().charger != first_charger {
            assert(!spec_graph_data_consistent(data@)) by {
                assert(data@[i as int].entries@[0].charger != data@[0].entries@[0].charger);
            }
            return false;
        }
        assert forall|j: int| 0 <= j < data@[i as int].entries@.len() implies #[trigger] data@[i as int].entries@[j].charger
            == first_charger by {
            assert(data@[i as int].entries@[j].charger == data@[i as int].entries@[0].charger);
        }
        i = i + 1;
    }
    true
}

/// The range of the graph's axis of shares: rising while charging, falling
/// otherwise.
pub fn graph_x_range(charger: ChargerState) -> (r: (i32, i32))
    ensures
        r == if charger == ChargerState::Charging {
            (0i32, 10000i32)
        } else {
            (10000i32, 0i32)
        },
{
    if charger == ChargerState::Charging {
        (0, 10000)
    } else {
        (10000, 0)
    }
}

/// The points of a log in the graph: share against voltage.
pub fn log_series(log: &Log) -> (r: Vec<(i32, i32)>)
    ensures
        r@.len() == log.entries@.len(),
        forall|i: int|
            0 <= i < r@.len() ==> #[trigger] r@[i] == (
                log.entries@[i].permyriad as i32,
                log.entries@[i].voltage as i32,
            ),
{
    let mut r: Vec<(i32, i32)> = Vec::new();
    let n = log.entries.len();
    let mut i: usize = 0;
    while i < n
        invariant
            n == log.entries@.len(),
            i <= n,
            r@.len() == i,
            forall|k: int|
                0 <= k < i ==> #[trigger] r@[k] == (
                    log.entries@[k].permyriad as i32,
                    log.entries@[k].voltage as i32,
                ),
        decreases n - i,
    {
        let e = log.entries[i];
        r.push((e.permyriad as i32, e.voltage as i32));
        i = i + 1;
    }
    r
}

/// The points of a reference curve in the graph: its state of charge in
/// hundredths of a percent against voltage.
pub fn reference_series(list: &Vec<ReferenceStateOfCharge>) -> (r: Vec<(i32, i32)>)
    ensures
        r@.len() == list@.len(),
        forall|i: int|
            0 <= i < r@.len() ==> #[trigger] r@[i] == (
                (list@[i].state_of_charge * 100) as i32,
                list@[i].voltage as i32,
            ),
{
    let mut r: Vec<(i32, i32)> = Vec::new();
    let n = list.len();
    let mut i: usize = 0;
    while i < n
        invariant
            n == list@.len(),
            i <= n,
            r@.len() == i,
            forall|k: int|
                0 <= k < i ==> #[trigger] r@[k] == (
                    (list@[k].state_of_charge * 100) as i32,
                    list@[k].voltage as i32,
                ),
        decreases n - i,
    {
        let p = list[i];
        r.push((p.state_of_charge as i32 * 100, p.voltage as i32));
        i = i + 1;
    }
    r
}

/// Whether a log was measured at low brightness: its name starts with
/// `low-brightness`.
pub fn is_low_brightness(name: &str) -> (r: bool)
    ensures
        r == (name@.len() >= 14 && name@.subrange(0, 14) == "low-brightness"@),
{
    let prefix = "low-brightness";
    proof {
        reveal_strlit("low-brightness");
    }
    let n = name.unicode_len();
    if n < 14 {
        return false;
    }
    let mut i: usize = 0;
    while i < 14
        invariant
            n == name@.len(),
            n >= 14,
            prefix@ == "low-brightness"@,
            prefix@.len() == 14,
            i <= 14,
            forall|k: int| 0 <= k < i ==> name@[k] == prefix@[k],
        decreases 14 - i,
    {
        if name.get_char(i) != prefix.get_char(i) {
            assert(name@.subrange(0, 14)[i as int] != "low-brightness"@[i as int]);
            return false;
        }
        i = i + 1;
    }
    assert(name@.subrange(0, 14) =~= "low-brightness"@);
    true
}

} // verus!
