//! Battery measurement logs: the log entries that the watch writes while it
//! charges or discharges, and their preparation for the reference curves.

use vstd::prelude::*;


verus! {

/// The state of the charge controller when an entry was logged.
#[derive(Debug, Clone, Copy, PartialEq, Eq, Structural)]
pub enum ChargerState {
    Disabled,
    NoSource,
    Charging,
    ChargeComplete,
    Suspend,
    Fault,
    Other,
}

/// One line of a measurement log.
#[derive(Debug, Clone, Copy, PartialEq, Eq, Structural)]
pub struct LogEntry {
    /// Seconds.
    pub timestamp: u64,
    /// Millivolt.
    pub voltage: u16,
    /// Hundredths of a degree Celsius.
    pub temperature: u16,
    pub charger: ChargerState,
    /// Share of the whole charge or discharge that this entry stands at, in
    /// hundredths of a percent.
    pub permyriad: u16,
}

/// A measurement log: the entries of one charge or discharge, named after
/// the file they came from.
pub struct Log {
    pub name: String,
    pub entries: Vec<LogEntry>,
}

/// Entries in order of their timestamps.
pub open spec fn sorted_by_timestamp(s: Seq<LogEntry>) -> bool {
    forall|i: int, j: int| 0 <= i <= j < s.len() ==> s[i].timestamp <= s[j].timestamp
}

/// Whether an entry was logged at time `t`.
pub open spec fn at_time(t: u64) -> spec_fn(LogEntry) -> bool {
    |e: LogEntry| e.timestamp == t
}

/// The entries of `s` logged at time `t`, in their order in `s`.
pub open spec fn logged_at(s: Seq<LogEntry>, t: u64) -> Seq<LogEntry> {
    s.filter(at_time(t))
}

/// `r` holds the entries of `s` in order of their timestamps, and entries
/// with equal timestamps in their order in `s`.
pub open spec fn stable_sorted_by_timestamp(s: Seq<LogEntry>, r: Seq<LogEntry>) -> bool {
    &&& sorted_by_timestamp(r)
    &&& forall|t: u64| #[trigger] logged_at(r, t) == logged_at(s, t)
}

proof fn lemma_logged_at_push(s: Seq<LogEntry>, e: LogEntry, t: u64)
    ensures
        logged_at(s.push(e), t) == if e.timestamp == t {
            logged_at(s, t).push(e)
        } else {
            logged_at(s, t)
        },
{
    reveal(Seq::filter);
    assert(s.push(e).drop_last() =~= s);
}

proof fn lemma_logged_at_insert(s: Seq<LogEntry>, p: int, e: LogEntry, t: u64)
    requires
        0 <= p <= s.len(),
        forall|i: int| p <= i < s.len() ==> s[i].timestamp > e.timestamp,
    ensures
        logged_at(s.insert(p, e), t) == if e.timestamp == t {
            logged_at(s, t).push(e)
        } else {
            logged_at(s, t)
        },
{
    broadcast use Seq::lemma_filter_pred;

    let pred = at_time(t);
    let a = s.take(p);
    let b = s.skip(p);
    assert(s =~= a + b);
    assert(s.insert(p, e) =~= (a + seq![e]) + b);
    Seq::filter_distributes_over_add(a, b, pred);
    Seq::filter_distributes_over_add(a + seq![e], b, pred);
    Seq::filter_distributes_over_add(a, seq![e], pred);
    reveal(Seq::filter);
    assert(seq![e].drop_last() =~= Seq::<LogEntry>::empty());
    assert(seq![e].drop_last().filter(pred) =~= Seq::<LogEntry>::empty());
    if e.timestamp == t {
        assert(b.filter(pred) =~= Seq::<LogEntry>::empty()) by {
            if b.filter(pred).len() > 0 {
                let x = b.filter(pred)[0];
                assert(pred(x));
                assert(b.filter(pred).contains(x));
                b.lemma_filter_contains_rev(pred, x);
            }
        }
        assert(logged_at(s, t) =~= a.filter(pred));
        assert(logged_at(s.insert(p, e), t) =~= a.filter(pred).push(e));
    } else {
        assert(seq![e].filter(pred) =~= Seq::<LogEntry>::empty());
        assert(logged_at(s.insert(p, e), t) =~= a.filter(pred) + b.filter(pred));
    }
}

/// Sorts entries by timestamp, keeping entries with equal timestamps in
/// their order.
pub fn sort_by_timestamp(entries: &Vec<LogEntry>) -> (r: Vec<LogEntry>)
    ensures
        r.len() == entries.len(),
        stable_sorted_by_timestamp(entries@, r@),
{
    let mut r: Vec<LogEntry> = Vec::new();
    let n = entries.len();
    let mut i: usize = 0;
    while i < n
        invariant
            n == entries.len(),
            i <= n,
            r.len() == i,
            sorted_by_timestamp(r@),
            forall|t: u64| #[trigger] logged_at(r@, t) == logged_at(entries@.take(i as int), t),
        decreases n - i,
    {
        let e = entries[i];
        let mut p = r.len();
        while p > 0 && r[p - 1].timestamp > e.timestamp
            invariant
                p <= r.len(),
                sorted_by_timestamp(r@),
                forall|k: int| p <= k < r.len() ==> r@[k].timestamp > e.timestamp,
            decreases p,
        {
            p = p - 1;
        }
        let ghost old_r = r@;
        r.insert(p, e);
        proof {
            assert(entries@.take(i + 1) =~= entries@.take(i as int).push(e));
            assert forall|t: u64| #[trigger] logged_at(r@, t) == logged_at(entries@.take(i + 1), t) by {
                lemma_logged_at_insert(old_r, p as int, e, t);
                lemma_logged_at_push(entries@.take(i as int), e, t);
            }
            assert forall|a: int, b: int| 0 <= a <= b < r@.len() implies r@[a].timestamp
                <= r@[b].timestamp by {
                if a < p && b > p {
                    assert(r@[a] == old_r[a] && r@[b] == old_r[b - 1]);
                } else if a < p && b == p {
                    assert(r@[a] == old_r[a]);
                } else if a < p {
                    assert(r@[a] == old_r[a] && r@[b] == old_r[b]);
                } else if a == p && b > p {
                    assert(r@[b] == old_r[b - 1]);
                } else if a > p {
                    assert(r@[a] == old_r[a - 1] && r@[b] == old_r[b - 1]);
                }
            }
        }
        i = i + 1;
    }
    assert(entries@.take(n as int) =~= entries@);
    r
}

/// The share of the whole run at which entry `e` stands, in hundredths of a
/// percent, given the run's `first` and `last` entries: counted from the
/// first entry while charging, and from the last entry otherwise.
pub open spec fn permyriad_of(first: LogEntry, last: LogEntry, e: LogEntry) -> u16 {
    (if first.charger == ChargerState::Charging {
        10000 * (e.timestamp - first.timestamp) / (last.timestamp - first.timestamp)
    } else {
        10000 * (last.timestamp - e.timestamp) / (last.timestamp - first.timestamp)
    }) as u16
}

pub open spec fn with_permyriad(e: LogEntry, permyriad: u16) -> LogEntry {
    LogEntry { permyriad, ..e }
}

/// The entries of `s`, each with the share of the run at which it stands.
pub open spec fn spec_update_permyriad(s: Seq<LogEntry>) -> Seq<LogEntry> {
    s.map_values(|e: LogEntry| with_permyriad(e, permyriad_of(s[0], s.last(), e)))
}

/// The entries on which the shares can be computed: there is a first and a
/// last entry, logged at different times, no entry lies before the first
/// (while charging) or after the last (otherwise), and ten thousand times
/// each distance in time fits in 64 bits.
pub open spec fn permyriad_defined(s: Seq<LogEntry>) -> bool {
    &&& s.len() > 0
    &&& s[0].timestamp < s.last().timestamp
    &&& if s[0].charger == ChargerState::Charging {
        forall|i: int|
            0 <= i < s.len() ==> s[0].timestamp <= #[trigger] s[i].timestamp && 10000 * (
            s[i].timestamp - s[0].timestamp) <= u64::MAX
    } else {
        forall|i: int|
            0 <= i < s.len() ==> #[trigger] s[i].timestamp <= s.last().timestamp && 10000 * (
            s.last().timestamp - s[i].timestamp) <= u64::MAX
    }
}

/// The sum of the temperatures of the entries.
pub open spec fn temperature_sum(s: Seq<LogEntry>) -> nat
    decreases s.len(),
{
    if s.len() == 0 {
        0
    } else {
        temperature_sum(s.drop_last()) + s.last().temperature as nat
    }
}

/// The highest voltage among the entries, 0 where there is none.
pub open spec fn max_voltage(s: Seq<LogEntry>) -> u16
    decreases s.len(),
{
    if s.len() == 0 {
        0
    } else if max_voltage(s.drop_last()) < s.last().voltage {
        s.last().voltage
    } else {
        max_voltage(s.drop_last())
    }
}

/// The index of the first entry whose voltage lies less than 100 mV below `m`.
pub open spec fn first_near(s: Seq<LogEntry>, m: u16) -> int
    decreases s.len(),
{
    if s.len() == 0 {
        0
    } else if m - s[0].voltage < 100 {
        0
    } else {
        1 + first_near(s.drop_first(), m)
    }
}

/// The time of the last useful entry: while charging, that of the first entry
/// whose voltage lies less than 100 mV below the highest voltage of the log
/// (after it the battery is practically full); otherwise that of the last entry.
pub open spec fn useful_end(s: Seq<LogEntry>) -> u64 {
    if s[0].charger == ChargerState::Charging {
        s[first_near(s, max_voltage(s))].timestamp
    } else {
        s.last().timestamp
    }
}

/// Entry `e`, its time counted from `start`.
pub open spec fn rebased(e: LogEntry, start: u64) -> LogEntry {
    LogEntry { timestamp: (e.timestamp - start) as u64, ..e }
}

/// The entries of `s` logged from the first entry's time to the useful end,
/// their times counted from the first entry's.
pub open spec fn useful_entries(s: Seq<LogEntry>) -> Seq<LogEntry> {
    s.filter_map(
        |e: LogEntry|
            if s[0].timestamp <= e.timestamp && e.timestamp <= useful_end(s) {
                Some(rebased(e, s[0].timestamp))
            } else {
                None
            },
    )
}

impl Log {
    /// The first entry.
    pub fn first(&self) -> (r: &LogEntry)
        requires
            self.entries.len() > 0,
        ensures
            *r == self.entries@[0],
    {
        &self.entries[0]
    }

    /// The last entry.
    pub fn last(&self) -> (r: &LogEntry)
        requires
            self.entries.len() > 0,
        ensures
            *r == self.entries@.last(),
    {
        &self.entries[self.entries.len() - 1]
    }

    /// Gives each entry the share of the run at which it stands.
    pub fn update_permyriad(self) -> (r: Log)
        requires
            permyriad_defined(self.entries@),
        ensures
            r.name == self.name,
            r.entries@ == spec_update_permyriad(self.entries@),
    {
        let ghost s = self.entries@;
        let first = *self.first();
        let last = *self.last();
        let diff = last.timestamp - first.timestamp;
        let charging = first.charger == ChargerState::Charging;
        let n = self.entries.len();
        let mut out: Vec<LogEntry> = Vec::new();
        let mut i: usize = 0;
        while i < n
            invariant
                s == self.entries@,
                permyriad_defined(s),
                n == s.len(),
                first == s[0],
                last == s.last(),
                diff == last.timestamp - first.timestamp,
                charging == (first.charger == ChargerState::Charging),
                i <= n,
                out@ =~= spec_update_permyriad(s).take(i as int),
            decreases n - i,
        {
            let e = self.entries[i];
            assert(e == s[i as int]);
            let p = if charging {
                10000 * (e.timestamp - first.timestamp) / diff
            } else {
                10000 * (last.timestamp - e.timestamp) / diff
            };
            out.push(LogEntry { permyriad: p as u16, ..e });
            i = i + 1;
        }
        Log { name: self.name, entries: out }
    }

    /// The average temperature of the entries, rounded down.
    pub fn average_temperature(&self) -> (r: u16)
        requires
            self.entries.len() > 0,
            temperature_sum(self.entries@) <= usize::MAX,
        ensures
            r == temperature_sum(self.entries@) / self.entries@.len(),
    {
        let n = self.entries.len();
        let mut total: usize = 0;
        let mut i: usize = 0;
        while i < n
            invariant
                n == self.entries@.len(),
                i <= n,
                total == temperature_sum(self.entries@.take(i as int)),
                temperature_sum(self.entries@) <= usize::MAX,
            decreases n - i,
        {
            proof {
                assert(self.entries@.take(i + 1).drop_last() =~= self.entries@.take(i as int));
                lemma_temperature_sum_prefix(self.entries@, i + 1);
            }
            total = total + self.entries[i].temperature as usize;
            i = i + 1;
        }
        assert(self.entries@.take(n as int) =~= self.entries@);
        proof {
            lemma_temperature_sum_bound(self.entries@);
            assert(total / n <= 65535) by (nonlinear_arith)
                requires
                    total <= 65535 * n,
                    n > 0,
            {
                assert((total as int) / (n as int) <= (65535 * n) / (n as int));
            }
        }
        (total / n) as u16
    }

    /// Whether all entries were logged under the same charger state.
    pub fn has_single_charger(&self) -> (r: bool)
        requires
            self.entries.len() > 0,
        ensures
            r == forall|i: int|
                0 <= i < self.entries@.len() ==> #[trigger] self.entries@[i].charger
                    == self.entries@[0].charger,
    {
        let first = self.entries[0].charger;
        let n = self.entries.len();
        let mut i: usize = 0;
        while i < n
            invariant
                n == self.entries@.len(),
                i <= n,
                first == self.entries@[0].charger,
                forall|k: int| 0 <= k < i ==> #[trigger] self.entries@[k].charger == first,
            decreases n - i,
        {
            if self.entries[i].charger != first {
                return false;
            }
            i = i + 1;
        }
        true
    }

    /// The charger state under which all entries were logged.
    pub fn get_charger(&self) -> (r: ChargerState)
        requires
            self.entries.len() > 0,
            forall|i: int|
                0 <= i < self.entries@.len() ==> #[trigger] self.entries@[i].charger
                    == self.entries@[0].charger,
        ensures
            r == self.entries@[0].charger,
    {
        self.first().charger
    }
}

proof fn lemma_max_voltage_take(s: Seq<LogEntry>, i: int)
    requires
        0 <= i < s.len(),
    ensures
        max_voltage(s.take(i + 1)) == if max_voltage(s.take(i)) < s[i].voltage {
            s[i].voltage
        } else {
            max_voltage(s.take(i))
        },
{
    assert(s.take(i + 1).drop_last() =~= s.take(i));
}

proof fn lemma_max_voltage_bound(s: Seq<LogEntry>, i: int)
    requires
        0 <= i < s.len(),
    ensures
        s[i].voltage <= max_voltage(s),
    decreases s.len(),
{
    if i < s.len() - 1 {
        lemma_max_voltage_bound(s.drop_last(), i);
    }
}

proof fn lemma_max_voltage_attained(s: Seq<LogEntry>)
    requires
        s.len() > 0,
    ensures
        exists|i: int| 0 <= i < s.len() && s[i].voltage == max_voltage(s),
    decreases s.len(),
{
    if s.len() > 1 {
        lemma_max_voltage_attained(s.drop_last());
        let i = choose|i: int| 0 <= i < s.len() - 1 && s.drop_last()[i].voltage == max_voltage(s.drop_last());
        assert(s[i] == s.drop_last()[i]);
    } else {
        assert(max_voltage(s.drop_last()) == 0);
        assert(s[0].voltage == max_voltage(s));
    }
}

proof fn lemma_first_near(s: Seq<LogEntry>, m: u16, k: int)
    requires
        0 <= k < s.len(),
        m - s[k].voltage < 100,
        forall|j: int| 0 <= j < s.len() ==> s[j].voltage <= m,
    ensures
        0 <= first_near(s, m) <= k,
        m - s[first_near(s, m)].voltage < 100,
        forall|j: int| 0 <= j < first_near(s, m) ==> m - s[j].voltage >= 100,
    decreases s.len(),
{
    if m - s[0].voltage >= 100 {
        let t = s.drop_first();
        assert(t[k - 1] == s[k]);
        lemma_first_near(t, m, k - 1);
        assert forall|j: int| 0 <= j < first_near(s, m) implies m - s[j].voltage >= 100 by {
            if j > 0 {
                assert(s[j] == t[j - 1]);
            }
        }
    }
}

impl Log {
    /// The useful entries of the log: those from the first to the useful end
    /// (see `useful_end`), their times counted from the first entry's.
    pub fn useful_entries(&self) -> (r: Vec<LogEntry>)
        requires
            self.entries.len() > 0,
        ensures
            r@ == useful_entries(self.entries@),
    {
        let ghost s = self.entries@;
        let n = self.entries.len();
        let first = self.entries[0];
        let end = if first.charger == ChargerState::Charging {
            let mut max_v: u16 = 0;
            let mut i: usize = 0;
            assert(s.take(0) =~= Seq::<LogEntry>::empty());
            while i < n
                invariant
                    s == self.entries@,
                    n == s.len(),
                    i <= n,
                    max_v == max_voltage(s.take(i as int)),
                decreases n - i,
            {
                proof {
                    lemma_max_voltage_take(s, i as int);
                }
                if max_v < self.entries[i].voltage {
                    max_v = self.entries[i].voltage;
                }
                i = i + 1;
            }
            assert(s.take(n as int) =~= s);
            proof {
                lemma_max_voltage_attained(s);
                assert forall|j: int| 0 <= j < s.len() implies s[j].voltage <= max_v by {
                    lemma_max_voltage_bound(s, j);
                }
                let k = choose|k: int| 0 <= k < s.len() && s[k].voltage == max_voltage(s);
                lemma_first_near(s, max_v, k);
            }
            let mut j: usize = 0;
            while max_v - self.entries[j].voltage >= 100
                invariant
                    s == self.entries@,
                    n == s.len(),
                    max_v == max_voltage(s),
                    0 <= j <= first_near(s, max_v) < n,
                    forall|k: int| 0 <= k < s.len() ==> s[k].voltage <= max_v,
                    max_v - s[first_near(s, max_v)].voltage < 100,
                    forall|k: int| 0 <= k < first_near(s, max_v) ==> max_v - s[k].voltage >= 100,
                decreases first_near(s, max_v) - j,
            {
                j = j + 1;
            }
            self.entries[j].timestamp
        } else {
            self.entries[n - 1].timestamp
        };
        assert(end == useful_end(s));
        let ghost f = |e: LogEntry|
            if s[0].timestamp <= e.timestamp && e.timestamp <= useful_end(s) {
                Some(rebased(e, s[0].timestamp))
            } else {
                None
            };
        let mut kept: Vec<LogEntry> = Vec::new();
        let mut i: usize = 0;
        assert(s.take(0) =~= Seq::<LogEntry>::empty());
        while i < n
            invariant
                s == self.entries@,
                n == s.len(),
                i <= n,
                first == s[0],
                end == useful_end(s),
                f == (|e: LogEntry|
                    if s[0].timestamp <= e.timestamp && e.timestamp <= useful_end(s) {
                        Some(rebased(e, s[0].timestamp))
                    } else {
                        None
                    }),
                kept@ == s.take(i as int).filter_map(f),
            decreases n - i,
        {
            proof {
                s.lemma_filter_map_take_succ(f, i as int);
            }
            let e = self.entries[i];
            if first.timestamp <= e.timestamp && e.timestamp <= end {
                kept.push(LogEntry { timestamp: e.timestamp - first.timestamp, ..e });
                assert(kept@ =~= s.take(i + 1).filter_map(f));
            }
            i = i + 1;
        }
        assert(s.take(n as int) =~= s);
        kept
    }

    /// Keeps the useful part of the log: the entries from the first to the
    /// useful end (see `useful_end`), their times counted from the first
    /// entry's, each with the share of the run at which it stands.
    pub fn remove_non_useful_data(self) -> (r: Log)
        requires
            self.entries.len() > 0,
            permyriad_defined(useful_entries(self.entries@)),
        ensures
            r.name == self.name,
            r.entries@ == spec_update_permyriad(useful_entries(self.entries@)),
    {
        let kept = self.useful_entries();
        let trimmed = Log { name: self.name, entries: kept };
        trimmed.update_permyriad()
    }
}

/// The entries from which a log can be built: at least two different times,
/// and ten thousand times the distance between any two fits in 64 bits.
pub open spec fn loggable(s: Seq<LogEntry>) -> bool {
    &&& exists|i: int, j: int| 0 <= i < s.len() && 0 <= j < s.len() && s[i].timestamp < s[j].timestamp
    &&& forall|i: int, j: int|
        0 <= i < s.len() && 0 <= j < s.len() && s[i].timestamp <= s[j].timestamp ==> 10000 * (
        s[j].timestamp - s[i].timestamp) <= u64::MAX
}

proof fn lemma_logged_at_member(s: Seq<LogEntry>, r: Seq<LogEntry>, i: int)
    requires
        0 <= i < r.len(),
        forall|t: u64| #[trigger] logged_at(r, t) == logged_at(s, t),
    ensures
        s.contains(r[i]),
{
    let t = r[i].timestamp;
    r.lemma_filter_contains(at_time(t), i);
    assert(logged_at(r, t) == logged_at(s, t));
    s.lemma_filter_contains_rev(at_time(t), r[i]);
}

impl Log {
    /// The log named `name` of the given entries: sorted by time, entries
    /// with equal times in their given order, each with the share of the run
    /// at which it stands.
    pub fn from_entries(name: String, entries: Vec<LogEntry>) -> (r: Log)
        requires
            loggable(entries@),
        ensures
            r.name == name,
            exists|sorted: Seq<LogEntry>|
                stable_sorted_by_timestamp(entries@, sorted) && r.entries@ == spec_update_permyriad(
                    sorted,
                ),
    {
        let sorted = sort_by_timestamp(&entries);
        proof {
            let s = entries@;
            let r = sorted@;
            let (i, j) = choose|i: int, j: int|
                0 <= i < s.len() && 0 <= j < s.len() && s[i].timestamp < s[j].timestamp;
            assert forall|k: int| 0 <= k < r.len() implies s.contains(#[trigger] r[k]) by {
                lemma_logged_at_member(s, r, k);
            }
            lemma_logged_at_member(r, s, i);
            lemma_logged_at_member(r, s, j);
            let a = choose|a: int| 0 <= a < r.len() && r[a] == s[i];
            let b = choose|b: int| 0 <= b < r.len() && r[b] == s[j];
            assert(r[0].timestamp <= r[a].timestamp);
            assert(r[b].timestamp <= r.last().timestamp);
            assert(s.contains(r[0]) && s.contains(r.last()));
            assert forall|k: int| 0 <= k < r.len() implies #[trigger] r[k].timestamp <= r.last().timestamp
                && r[0].timestamp <= r[k].timestamp && 10000 * (r[k].timestamp - r[0].timestamp)
                <= u64::MAX && 10000 * (r.last().timestamp - r[k].timestamp) <= u64::MAX by {
                assert(s.contains(r[k]));
            }
        }
        let log = Log { name, entries: sorted };
        log.update_permyriad()
    }
}

proof fn lemma_logged_at_nonempty(r: Seq<LogEntry>, i: int)
    requires
        0 <= i < r.len(),
    ensures
        logged_at(r, r[i].timestamp).len() > 0,
{
    r.lemma_filter_contains(at_time(r[i].timestamp), i);
}

proof fn lemma_logged_at_drop_last(r: Seq<LogEntry>, t: u64)
    requires
        r.len() > 0,
    ensures
        logged_at(r, t) == if r.last().timestamp == t {
            logged_at(r.drop_last(), t).push(r.last())
        } else {
            logged_at(r.drop_last(), t)
        },
{
    reveal(Seq::filter);
}

proof fn lemma_sorted_equal_when_logged_equal(r1: Seq<LogEntry>, r2: Seq<LogEntry>)
    requires
        sorted_by_timestamp(r1),
        sorted_by_timestamp(r2),
        forall|t: u64| #[trigger] logged_at(r1, t) == logged_at(r2, t),
    ensures
        r1 == r2,
    decreases r1.len() + r2.len(),
{
    broadcast use Seq::lemma_filter_pred;

    if r1.len() == 0 || r2.len() == 0 {
        if r1.len() > 0 {
            lemma_logged_at_nonempty(r1, 0);
            assert(logged_at(r2, r1[0].timestamp) == logged_at(r1, r1[0].timestamp));
            reveal(Seq::filter);
        } else if r2.len() > 0 {
            lemma_logged_at_nonempty(r2, 0);
            assert(logged_at(r2, r2[0].timestamp) == logged_at(r1, r2[0].timestamp));
            reveal(Seq::filter);
        }
        assert(r1 =~= r2);
    } else {
        let t1 = r1.last().timestamp;
        let t2 = r2.last().timestamp;
        // the element of r2 logged at t1 lies no later than r2's last
        lemma_logged_at_nonempty(r1, r1.len() - 1);
        assert(logged_at(r2, t1) == logged_at(r1, t1));
        let x = logged_at(r2, t1)[0];
        assert(at_time(t1)(x));
        r2.lemma_filter_contains_rev(at_time(t1), x);
        let a = choose|a: int| 0 <= a < r2.len() && r2[a] == x;
        assert(r2[a].timestamp <= t2);
        lemma_logged_at_nonempty(r2, r2.len() - 1);
        assert(logged_at(r2, t2) == logged_at(r1, t2));
        let y = logged_at(r1, t2)[0];
        assert(at_time(t2)(y));
        r1.lemma_filter_contains_rev(at_time(t2), y);
        let b = choose|b: int| 0 <= b < r1.len() && r1[b] == y;
        assert(r1[b].timestamp <= t1);
        assert(t1 == t2);
        let d1 = r1.drop_last();
        let d2 = r2.drop_last();
        assert forall|t: u64| #[trigger] logged_at(d1, t) == logged_at(d2, t) by {
            lemma_logged_at_drop_last(r1, t);
            lemma_logged_at_drop_last(r2, t);
            assert(logged_at(r1, t) == logged_at(r2, t));
            if t == t1 {
                assert(logged_at(d1, t) =~= logged_at(r1, t).drop_last());
                assert(logged_at(d2, t) =~= logged_at(r2, t).drop_last());
            }
        }
        lemma_logged_at_drop_last(r1, t1);
        lemma_logged_at_drop_last(r2, t1);
        assert(logged_at(r1, t1) == logged_at(r2, t1));
        assert(r1.last() == logged_at(r1, t1).last());
        assert(r2.last() == logged_at(r2, t1).last());
        lemma_sorted_equal_when_logged_equal(d1, d2);
        assert(r1 =~= d1.push(r1.last()));
        assert(r2 =~= d2.push(r2.last()));
    }
}

/// Sorting by time with ties kept in order has exactly one result.
pub proof fn lemma_stable_sort_unique(s: Seq<LogEntry>, r1: Seq<LogEntry>, r2: Seq<LogEntry>)
    requires
        stable_sorted_by_timestamp(s, r1),
        stable_sorted_by_timestamp(s, r2),
    ensures
        r1 == r2,
{
    assert forall|t: u64| #[trigger] logged_at(r1, t) == logged_at(r2, t) by {
        assert(logged_at(r1, t) == logged_at(s, t));
        assert(logged_at(r2, t) == logged_at(s, t));
    }
    lemma_sorted_equal_when_logged_equal(r1, r2);
}

/// In a log sorted by time, every share lies between 0 and 10000: while
/// charging the shares rise from 0 at the first entry to 10000 at the last,
/// otherwise they fall from 10000 to 0.
pub proof fn lemma_permyriad_spans_run(s: Seq<LogEntry>)
    requires
        sorted_by_timestamp(s),
        permyriad_defined(s),
    ensures
        forall|i: int|
            0 <= i < s.len() ==> 0 <= #[trigger] spec_update_permyriad(s)[i].permyriad <= 10000,
        s[0].charger == ChargerState::Charging ==> spec_update_permyriad(s)[0].permyriad == 0
            && spec_update_permyriad(s).last().permyriad == 10000,
        s[0].charger != ChargerState::Charging ==> spec_update_permyriad(s)[0].permyriad == 10000
            && spec_update_permyriad(s).last().permyriad == 0,
        forall|i: int, j: int|
            0 <= i <= j < s.len() ==> if s[0].charger == ChargerState::Charging {
                spec_update_permyriad(s)[i].permyriad <= spec_update_permyriad(s)[j].permyriad
            } else {
                spec_update_permyriad(s)[j].permyriad <= spec_update_permyriad(s)[i].permyriad
            },
{
    let first = s[0];
    let last = s.last();
    let w = last.timestamp - first.timestamp;
    assert forall|i: int| 0 <= i < s.len() implies 0 <= #[trigger] spec_update_permyriad(s)[i].permyriad
        <= 10000 by {
        let x = if first.charger == ChargerState::Charging {
            s[i].timestamp - first.timestamp
        } else {
            last.timestamp - s[i].timestamp
        };
        assert(0 <= x <= w);
        assert(0 <= 10000 * x / w <= 10000) by (nonlinear_arith)
            requires
                0 <= x <= w,
                w > 0,
        {
            assert(10000 * x <= 10000 * w);
            vstd::arithmetic::div_mod::lemma_div_is_ordered(10000 * x, 10000 * w, w);
        }
    }
    assert(10000 * w / w == 10000) by (nonlinear_arith)
        requires
            w > 0,
    ;
    assert forall|i: int, j: int| 0 <= i <= j < s.len() implies if s[0].charger == ChargerState::Charging {
        spec_update_permyriad(s)[i].permyriad <= spec_update_permyriad(s)[j].permyriad
    } else {
        spec_update_permyriad(s)[j].permyriad <= spec_update_permyriad(s)[i].permyriad
    } by {
        let (a, b) = if first.charger == ChargerState::Charging {
            (s[i].timestamp - first.timestamp, s[j].timestamp - first.timestamp)
        } else {
            (last.timestamp - s[j].timestamp, last.timestamp - s[i].timestamp)
        };
        assert(0 <= a <= b <= w);
        assert(10000 * a / w <= 10000 * b / w) by (nonlinear_arith)
            requires
                0 <= a <= b,
                w > 0,
        {
            assert(10000 * a <= 10000 * b);
            vstd::arithmetic::div_mod::lemma_div_is_ordered(10000 * a, 10000 * b, w);
        }
        assert(10000 * b / w <= 10000) by (nonlinear_arith)
            requires
                0 <= b <= w,
                w > 0,
        {
            assert(10000 * b <= 10000 * w);
            vstd::arithmetic::div_mod::lemma_div_is_ordered(10000 * b, 10000 * w, w);
        }
    }
}

/// Computing the shares a second time changes nothing: the shares depend
/// only on the times and the charger states, which the first computation
/// keeps, so the second one can be made and writes the same shares again.
pub proof fn lemma_update_permyriad_idempotent(s: Seq<LogEntry>)
    requires
        permyriad_defined(s),
    ensures
        permyriad_defined(spec_update_permyriad(s)),
        spec_update_permyriad(spec_update_permyriad(s)) == spec_update_permyriad(s),
{
    let u = spec_update_permyriad(s);
    assert(u.len() == s.len());
    assert forall|i: int| 0 <= i < s.len() implies #[trigger] u[i].timestamp == s[i].timestamp
        && u[i].charger == s[i].charger by {}
    assert(u[0].timestamp == s[0].timestamp && u[0].charger == s[0].charger);
    assert(u.last().timestamp == s.last().timestamp);
    assert(permyriad_defined(u));
    assert forall|i: int| 0 <= i < s.len() implies #[trigger] spec_update_permyriad(u)[i] == u[i] by {
        assert(permyriad_of(u[0], u.last(), u[i]) == permyriad_of(s[0], s.last(), s[i]));
    }
    assert(spec_update_permyriad(u) =~= u);
}

/// Whether the shares of a run can be computed on the entries (see
/// `permyriad_defined`).
pub fn permyriad_computable(entries: &Vec<LogEntry>) -> (r: bool)
    ensures
        r == permyriad_defined(entries@),
{
    let n = entries.len();
    if n == 0 {
        return false;
    }
    let first = entries[0];
    let last = entries[n - 1];
    if first.timestamp >= last.timestamp {
        return false;
    }
    let charging = first.charger == ChargerState::Charging;
    let limit = u64::MAX / 10000;
    let mut i: usize = 0;
    while i < n
        invariant
            n == entries@.len(),
            n > 0,
            first == entries@[0],
            last == entries@.last(),
            charging == (first.charger == ChargerState::Charging),
            limit == u64::MAX / 10000,
            i <= n,
            charging ==> forall|k: int|
                0 <= k < i ==> first.timestamp <= #[trigger] entries@[k].timestamp && 10000 * (
                entries@[k].timestamp - first.timestamp) <= u64::MAX,
            !charging ==> forall|k: int|
                0 <= k < i ==> #[trigger] entries@[k].timestamp <= last.timestamp && 10000 * (
                last.timestamp - entries@[k].timestamp) <= u64::MAX,
        decreases n - i,
    {
        let t = entries[i].timestamp;
        let (ok, d) = if charging {
            (first.timestamp <= t, if first.timestamp <= t { t - first.timestamp } else { 0 })
        } else {
            (t <= last.timestamp, if t <= last.timestamp { last.timestamp - t } else { 0 })
        };
        proof {
            lemma_fits_times_10000(d as int);
        }
        if !ok || d > limit {
            return false;
        }
        i = i + 1;
    }
    true
}

proof fn lemma_fits_times_10000(d: int)
    requires
        d >= 0,
    ensures
        (10000 * d <= u64::MAX) == (d <= u64::MAX / 10000),
{
    assert((10000 * d <= u64::MAX) == (d <= u64::MAX / 10000)) by (nonlinear_arith)
        requires
            d >= 0,
    ;
}

/// Whether a log can be built from the entries (see `loggable`).
pub fn loggable_entries(entries: &Vec<LogEntry>) -> (r: bool)
    ensures
        r == loggable(entries@),
{
    let n = entries.len();
    if n == 0 {
        return false;
    }
    let mut lo: usize = 0;
    let mut hi: usize = 0;
    let mut i: usize = 1;
    while i < n
        invariant
            n == entries@.len(),
            1 <= i <= n,
            lo < i,
            hi < i,
            forall|k: int|
                0 <= k < i ==> entries@[lo as int].timestamp <= #[trigger] entries@[k].timestamp
                    <= entries@[hi as int].timestamp,
        decreases n - i,
    {
        if entries[i].timestamp < entries[lo].timestamp {
            lo = i;
        }
        if entries[i].timestamp > entries[hi].timestamp {
            hi = i;
        }
        i = i + 1;
    }
    let min = entries[lo].timestamp;
    let max = entries[hi].timestamp;
    proof {
        lemma_fits_times_10000((max - min) as int);
    }
    if min == max {
        assert(!loggable(entries@)) by {
            if exists|a: int, b: int|
                0 <= a < entries@.len() && 0 <= b < entries@.len() && entries@[a].timestamp
                    < entries@[b].timestamp {
                let (a, b) = choose|a: int, b: int|
                    0 <= a < entries@.len() && 0 <= b < entries@.len() && entries@[a].timestamp
                        < entries@[b].timestamp;
                assert(entries@[a].timestamp >= min && entries@[b].timestamp <= max);
            }
        }
        return false;
    }
    if max - min > u64::MAX / 10000 {
        assert(!loggable(entries@)) by {
            assert(entries@[lo as int].timestamp <= entries@[hi as int].timestamp);
        }
        return false;
    }
    assert(loggable(entries@)) by {
        assert(entries@[lo as int].timestamp < entries@[hi as int].timestamp);
        assert forall|a: int, b: int|
            0 <= a < entries@.len() && 0 <= b < entries@.len() && entries@[a].timestamp
                <= entries@[b].timestamp implies 10000 * (entries@[b].timestamp
            - entries@[a].timestamp) <= u64::MAX by {
            assert(entries@[b].timestamp - entries@[a].timestamp <= max - min);
        }
    }
    true
}

/// Keeps the entries logged from time `a` to time `b`, their times counted from `a`.
pub open spec fn window(a: u64, b: u64) -> spec_fn(LogEntry) -> Option<LogEntry> {
    |e: LogEntry|
        if a <= e.timestamp && e.timestamp <= b {
            Some(rebased(e, a))
        } else {
            None
        }
}

proof fn lemma_window_members(t: Seq<LogEntry>, a: u64, b: u64)
    requires
        sorted_by_timestamp(t),
    ensures
        forall|i: int|
            0 <= i < t.filter_map(window(a, b)).len() ==> exists|j: int|
                0 <= j < t.len() && a <= t[j].timestamp <= b && #[trigger] t.filter_map(window(a, b))[i]
                    == rebased(t[j], a),
        sorted_by_timestamp(t.filter_map(window(a, b))),
    decreases t.len(),
{
    if t.len() > 0 {
        let d = t.drop_last();
        lemma_window_members(d, a, b);
        let fd = d.filter_map(window(a, b));
        let ft = t.filter_map(window(a, b));
        assert forall|i: int| 0 <= i < ft.len() implies exists|j: int|
            0 <= j < t.len() && a <= t[j].timestamp <= b && #[trigger] ft[i] == rebased(t[j], a) by {
            if i < fd.len() {
                let j = choose|j: int|
                    0 <= j < d.len() && a <= d[j].timestamp <= b && fd[i] == rebased(d[j], a);
                assert(ft[i] == fd[i]);
                assert(t[j] == d[j]);
            } else {
                assert(ft[i] == rebased(t[t.len() - 1], a));
            }
        }
        assert forall|i: int, k: int| 0 <= i <= k < ft.len() implies ft[i].timestamp
            <= ft[k].timestamp by {
            if k < fd.len() {
                assert(ft[i] == fd[i] && ft[k] == fd[k]);
            } else if i < fd.len() {
                let j = choose|j: int|
                    0 <= j < d.len() && a <= d[j].timestamp <= b && fd[i] == rebased(d[j], a);
                assert(t[j] == d[j]);
                assert(ft[i] == fd[i]);
                assert(t[j].timestamp <= t[t.len() - 1].timestamp);
            }
        }
    }
}

proof fn lemma_window_first(t: Seq<LogEntry>, a: u64, b: u64)
    requires
        t.len() > 0,
        a <= t[0].timestamp <= b,
    ensures
        t.filter_map(window(a, b)).len() > 0,
        t.filter_map(window(a, b))[0] == rebased(t[0], a),
    decreases t.len(),
{
    if t.len() > 1 {
        let d = t.drop_last();
        lemma_window_first(d, a, b);
        assert(d[0] == t[0]);
    } else {
        assert(t.drop_last().filter_map(window(a, b)) =~= Seq::<LogEntry>::empty());
    }
}

proof fn lemma_window_last(t: Seq<LogEntry>, a: u64, b: u64, k: int)
    requires
        sorted_by_timestamp(t),
        0 <= k < t.len(),
        t[k].timestamp == b,
        a <= b,
    ensures
        t.filter_map(window(a, b)).len() > 0,
        t.filter_map(window(a, b)).last().timestamp == b - a,
    decreases t.len(),
{
    let l = t[t.len() - 1];
    assert(t[k].timestamp <= l.timestamp);
    if l.timestamp > b {
        let d = t.drop_last();
        assert(k < t.len() - 1);
        assert(d[k] == t[k]);
        lemma_window_last(d, a, b, k);
    }
}

/// For a log sorted by time, the useful part is sorted too, starts with the
/// first entry at time 0 and ends at the useful end; the shares can be
/// computed on it wherever the useful end lies after the first entry and ten
/// thousand times the useful stretch of time fits in 64 bits.
pub proof fn lemma_useful_part_of_sorted_log(s: Seq<LogEntry>)
    requires
        s.len() > 0,
        sorted_by_timestamp(s),
    ensures
        sorted_by_timestamp(useful_entries(s)),
        useful_entries(s).len() > 0,
        useful_entries(s)[0] == rebased(s[0], s[0].timestamp),
        useful_entries(s).last().timestamp == useful_end(s) - s[0].timestamp,
        s[0].timestamp < useful_end(s) && 10000 * (useful_end(s) - s[0].timestamp) <= u64::MAX
            ==> permyriad_defined(useful_entries(s)),
{
    let a = s[0].timestamp;
    let b = useful_end(s);
    // the useful end is the time of an entry
    let k = if s[0].charger == ChargerState::Charging {
        lemma_max_voltage_attained(s);
        assert forall|j: int| 0 <= j < s.len() implies s[j].voltage <= max_voltage(s) by {
            lemma_max_voltage_bound(s, j);
        }
        let m = choose|m: int| 0 <= m < s.len() && s[m].voltage == max_voltage(s);
        lemma_first_near(s, max_voltage(s), m);
        first_near(s, max_voltage(s))
    } else {
        s.len() - 1
    };
    assert(0 <= k < s.len() && s[k].timestamp == b);
    assert(a <= b);
    assert(useful_entries(s) == s.filter_map(window(a, b))) by {
        assert(window(a, b) == (|e: LogEntry|
            if s[0].timestamp <= e.timestamp && e.timestamp <= useful_end(s) {
                Some(rebased(e, s[0].timestamp))
            } else {
                None
            }));
    }
    lemma_window_members(s, a, b);
    lemma_window_first(s, a, b);
    lemma_window_last(s, a, b, k);
    let u = useful_entries(s);
    if a < b && 10000 * (b - a) <= u64::MAX {
        assert forall|i: int| 0 <= i < u.len() implies 0 <= #[trigger] u[i].timestamp <= b - a by {
            let j = choose|j: int| 0 <= j < s.len() && a <= s[j].timestamp <= b && u[i] == rebased(s[j], a);
        }
        assert(u[0].timestamp == 0);
        assert(u[0].charger == s[0].charger);
    }
}

proof fn lemma_temperature_sum_prefix(s: Seq<LogEntry>, i: int)
    requires
        0 <= i <= s.len(),
    ensures
        temperature_sum(s.take(i)) <= temperature_sum(s),
    decreases s.len() - i,
{
    if i < s.len() {
        lemma_temperature_sum_prefix(s, i + 1);
        assert(s.take(i + 1).drop_last() =~= s.take(i));
    } else {
        assert(s.take(i) =~= s);
    }
}

proof fn lemma_temperature_sum_bound(s: Seq<LogEntry>)
    ensures
        temperature_sum(s) <= 65535 * s.len(),
    decreases s.len(),
{
    if s.len() > 0 {
        lemma_temperature_sum_bound(s.drop_last());
    }
}

} // verus!
