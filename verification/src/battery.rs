//! State of charge of the watch battery: the readings that the battery
//! driver reports and the conversion of a battery voltage into a percentage.

use vstd::prelude::*;

verus! {

/// How full the battery is, in percent.
#[derive(Debug, Clone, Copy, PartialEq, Eq, Structural)]
pub struct StateOfCharge {
    pub percentage: u8,
}

impl StateOfCharge {
    /// A state of charge of `percentage` percent.
    pub fn from_percentage(percentage: u8) -> (r: StateOfCharge)
        ensures
            r.percentage == percentage,
    {
        StateOfCharge { percentage }
    }

    /// The state of charge in percent.
    pub fn percentage(&self) -> (r: u8)
        ensures
            r == self.percentage,
    {
        self.percentage
    }
}

/// Whether the battery is being charged.
#[derive(Debug, Clone, Copy, PartialEq, Eq, Structural)]
pub enum ChargerState {
    Discharging,
    Charging,
    Full,
}

/// A point of a reference curve: at `voltage` millivolt the battery holds
/// `state_of_charge` percent.
#[derive(Debug, Clone, Copy, PartialEq, Eq, Structural)]
pub struct ReferenceStateOfCharge {
    pub voltage: u16,
    pub state_of_charge: u8,
}

/// A reference curve is ordered from the highest voltage down, each voltage
/// strictly below the one before, and the state of charge never rises on the way.
pub open spec fn valid_reference(t: Seq<ReferenceStateOfCharge>) -> bool {
    &&& t.len() >= 1
    &&& forall|i: int, j: int| 0 <= i < j < t.len() ==> t[j].voltage < t[i].voltage
    &&& forall|i: int, j: int| 0 <= i < j < t.len() ==> t[j].state_of_charge <= t[i].state_of_charge
}

/// The point of a reference curve at `voltage` millivolt and `state_of_charge` percent.
pub open spec fn point(voltage: u16, state_of_charge: u8) -> ReferenceStateOfCharge {
    ReferenceStateOfCharge { voltage, state_of_charge }
}

/// The curve used while the battery discharges.
pub open spec fn spec_discharging_reference() -> Seq<ReferenceStateOfCharge> {
    seq![
        point(4090, 100),
        point(3850, 75),
        point(3730, 55),
        point(3650, 25),
        point(3550, 5),
        point(3300, 0),
    ]
}

/// The curve used while the battery charges or is full.
pub open spec fn spec_charging_reference() -> Seq<ReferenceStateOfCharge> {
    seq![point(4090, 100), point(3920, 85), point(3670, 5), point(3400, 0)]
}

/// Where a voltage lies on a reference curve: at or above its first point,
/// below every point that it could be drawn between, or between a point
/// above it (`high`) and a point below it (`low`).
#[derive(Debug, Clone, Copy, PartialEq, Eq, Structural)]
pub enum CurvePosition {
    Above,
    Below,
    Between { high: ReferenceStateOfCharge, low: ReferenceStateOfCharge },
}

/// Where voltage `v` lies on curve `t`, given that `t[0]` lies above `v`:
/// between the last point above `v` and the first point below it, a point
/// exactly at `v` passed over; below, where no point lies below `v`.
pub open spec fn position_below_top(t: Seq<ReferenceStateOfCharge>, v: int) -> CurvePosition
    decreases t.len(),
{
    if t.len() < 2 {
        CurvePosition::Below
    } else if t[1].voltage > v {
        position_below_top(t.drop_first(), v)
    } else if t[1].voltage < v {
        CurvePosition::Between { high: t[0], low: t[1] }
    } else if t.len() < 3 {
        CurvePosition::Below
    } else {
        CurvePosition::Between { high: t[0], low: t[2] }
    }
}

/// Where voltage `v` lies on curve `t`: above, where no point of the curve
/// lies above `v`.
pub open spec fn curve_position(t: Seq<ReferenceStateOfCharge>, v: int) -> CurvePosition {
    if t.len() == 0 || t[0].voltage <= v {
        CurvePosition::Above
    } else {
        position_below_top(t, v)
    }
}

/// Whether a charger status means that the battery is being charged or full.
pub open spec fn spec_is_charging(charger_status: Result<ChargerState, ()>) -> bool {
    charger_status matches Ok(s) && (s == ChargerState::Charging || s == ChargerState::Full)
}

/// The curve that applies under `charger_status`.
pub open spec fn spec_reference_for(charger_status: Result<ChargerState, ()>) -> Seq<ReferenceStateOfCharge> {
    if spec_is_charging(charger_status) {
        spec_charging_reference()
    } else {
        spec_discharging_reference()
    }
}

/// The point of a reference curve at `voltage` millivolt and `state_of_charge` percent.
pub fn reference_point(voltage: u16, state_of_charge: u8) -> (r: ReferenceStateOfCharge)
    ensures
        r == point(voltage, state_of_charge),
{
    ReferenceStateOfCharge { voltage, state_of_charge }
}

/// The curve used while the battery discharges.
pub fn discharging_reference() -> (r: Vec<ReferenceStateOfCharge>)
    ensures
        r@ == spec_discharging_reference(),
{
    let r = vec![
        reference_point(4090, 100),
        reference_point(3850, 75),
        reference_point(3730, 55),
        reference_point(3650, 25),
        reference_point(3550, 5),
        reference_point(3300, 0),
    ];
    assert(r@ =~= spec_discharging_reference());
    r
}

/// The curve used while the battery charges or is full.
pub fn charging_reference() -> (r: Vec<ReferenceStateOfCharge>)
    ensures
        r@ == spec_charging_reference(),
{
    let r = vec![reference_point(4090, 100), reference_point(3920, 85), reference_point(3670, 5), reference_point(3400, 0)];
    assert(r@ =~= spec_charging_reference());
    r
}

/// Both curves are valid.
pub proof fn lemma_references_valid()
    ensures
        valid_reference(spec_discharging_reference()),
        valid_reference(spec_charging_reference()),
{
}

/// Whether a charger status means that the battery is being charged or full.
pub fn is_charging(charger_status: Result<ChargerState, ()>) -> (r: bool)
    ensures
        r == spec_is_charging(charger_status),
{
    match charger_status {
        Ok(ChargerState::Charging) => true,
        Ok(ChargerState::Full) => true,
        _ => false,
    }
}

/// Where a voltage lies on the valid curve `reference`.
pub fn find_curve_position(reference: &Vec<ReferenceStateOfCharge>, voltage_mv: u16) -> (r: CurvePosition)
    requires
        valid_reference(reference@),
    ensures
        r == curve_position(reference@, voltage_mv as int),
{
    let len = reference.len();
    if reference[0].voltage <= voltage_mv {
        return CurvePosition::Above;
    }
    let mut i: usize = 0;
    assert(reference@.skip(0) =~= reference@);
    while i + 1 < len && reference[i + 1].voltage > voltage_mv
        invariant
            valid_reference(reference@),
            len == reference@.len(),
            i < len,
            reference@[i as int].voltage > voltage_mv,
            position_below_top(reference@.skip(i as int), voltage_mv as int) == position_below_top(
                reference@,
                voltage_mv as int,
            ),
        decreases len - i,
    {
        assert(reference@.skip(i as int).drop_first() =~= reference@.skip(i + 1));
        i = i + 1;
    }
    let ghost rest = reference@.skip(i as int);
    if i + 1 == len {
        return CurvePosition::Below;
    }
    assert(rest[0] == reference@[i as int] && rest[1] == reference@[i + 1]);
    if reference[i + 1].voltage < voltage_mv {
        CurvePosition::Between { high: reference[i], low: reference[i + 1] }
    } else if i + 2 < len {
        assert(rest[2] == reference@[i + 2]);
        CurvePosition::Between { high: reference[i], low: reference[i + 2] }
    } else {
        CurvePosition::Below
    }
}

/// `p` is a state of charge that curve `t` can give at voltage `v`, with
/// `interpolate` evaluating the line between two points: 100 above the
/// curve, 0 below it, and what `interpolate` returns for the two points
/// between which `v` lies.
pub open spec fn converts_on<F: Fn(ReferenceStateOfCharge, ReferenceStateOfCharge, u16) -> u8>(
    interpolate: F,
    t: Seq<ReferenceStateOfCharge>,
    v: u16,
    p: u8,
) -> bool {
    match curve_position(t, v as int) {
        CurvePosition::Above => p == 100,
        CurvePosition::Below => p == 0,
        CurvePosition::Between { high, low } => call_ensures(interpolate, (high, low, v), p),
    }
}

/// `interpolate` can be called for every voltage strictly between two points.
pub open spec fn interpolation_defined<F: Fn(ReferenceStateOfCharge, ReferenceStateOfCharge, u16) -> u8>(
    interpolate: F,
) -> bool {
    forall|high: ReferenceStateOfCharge, low: ReferenceStateOfCharge, v: u16|
        low.voltage < v < high.voltage ==> #[trigger] call_requires(interpolate, (high, low, v))
}

/// Converts a battery voltage into a state of charge, on the charging curve
/// where `charger_status` reports charging or full and on the discharging
/// curve otherwise: 100 percent at or above the curve's first point, 0
/// percent where no point lies below the voltage, and otherwise what
/// `interpolate` gives on the line from the last point above the voltage to
/// the first point below it (a point exactly at the voltage is passed over).
pub fn convert_voltage_to_percentage<F: Fn(ReferenceStateOfCharge, ReferenceStateOfCharge, u16) -> u8>(
    voltage_mv: u16,
    charger_status: Result<ChargerState, ()>,
    interpolate: F,
) -> (r: StateOfCharge)
    requires
        interpolation_defined(interpolate),
    ensures
        converts_on(interpolate, spec_reference_for(charger_status), voltage_mv, r.percentage),
{
    proof {
        lemma_references_valid();
    }
    let reference = if is_charging(charger_status) {
        charging_reference()
    } else {
        discharging_reference()
    };
    match find_curve_position(&reference, voltage_mv) {
        CurvePosition::Above => StateOfCharge::from_percentage(100),
        CurvePosition::Below => StateOfCharge::from_percentage(0),
        CurvePosition::Between { high, low } => {
            proof {
                lemma_position_below_top_bounds(reference@, voltage_mv as int);
            }
            StateOfCharge::from_percentage(interpolate(high, low, voltage_mv))
        },
    }
}

proof fn lemma_drop_first_valid(t: Seq<ReferenceStateOfCharge>)
    requires
        valid_reference(t),
        t.len() >= 2,
    ensures
        valid_reference(t.drop_first()),
        t.drop_first()[0] == t[1],
        t.drop_first()[t.drop_first().len() - 1] == t[t.len() - 1],
{
    let u = t.drop_first();
    assert forall|i: int, j: int| 0 <= i < j < u.len() implies u[j].voltage < u[i].voltage
        && u[j].state_of_charge <= u[i].state_of_charge by {
        assert(u[i] == t[i + 1] && u[j] == t[j + 1]);
    }
}

/// Between which points a voltage lies: two points of the curve, the higher
/// one above the voltage, the lower one below it, and the charge at the
/// lower point no more than at the higher, nor more than at the top.
proof fn lemma_position_below_top_bounds(t: Seq<ReferenceStateOfCharge>, v: int)
    requires
        valid_reference(t),
        t[0].voltage > v,
    ensures
        !(position_below_top(t, v) is Above),
        position_below_top(t, v) matches CurvePosition::Between { high, low } ==> {
            &&& low.voltage < v < high.voltage
            &&& t[t.len() - 1].state_of_charge <= low.state_of_charge
            &&& low.state_of_charge <= high.state_of_charge
            &&& high.state_of_charge <= t[0].state_of_charge
        },
    decreases t.len(),
{
    if t.len() < 2 {
    } else if t[1].voltage > v {
        lemma_drop_first_valid(t);
        lemma_position_below_top_bounds(t.drop_first(), v);
        assert(t[1].state_of_charge <= t[0].state_of_charge);
    } else if t[1].voltage < v {
        assert(t[t.len() - 1].state_of_charge <= t[1].state_of_charge);
    } else if t.len() < 3 {
    } else {
        assert(t[2].voltage < t[1].voltage);
        assert(t[t.len() - 1].state_of_charge <= t[2].state_of_charge);
    }
}

/// Whether `v` is the voltage of a point of curve `t`.
pub open spec fn is_reference_voltage(t: Seq<ReferenceStateOfCharge>, v: int) -> bool {
    exists|i: int| 0 <= i < t.len() && t[i].voltage == v
}

proof fn lemma_not_reference_drop_first(t: Seq<ReferenceStateOfCharge>, v: int)
    requires
        t.len() >= 1,
        !is_reference_voltage(t, v),
    ensures
        !is_reference_voltage(t.drop_first(), v),
        t[0].voltage != v,
{
    let u = t.drop_first();
    if is_reference_voltage(u, v) {
        let i = choose|i: int| 0 <= i < u.len() && u[i].voltage == v;
        assert(t[i + 1].voltage == v);
    }
    assert(t[0].voltage != v);
}

/// For voltages `v1 <= v2` below the top of the curve and at no point of it,
/// the position of `v2` lies no lower: where both lie between points, they
/// share the points, or the higher point of `v1` holds no more charge than
/// the lower point of `v2`; where `v2` lies below the curve, so does `v1`.
proof fn lemma_position_below_top_ordered(t: Seq<ReferenceStateOfCharge>, v1: int, v2: int)
    requires
        valid_reference(t),
        v1 <= v2 < t[0].voltage,
        !is_reference_voltage(t, v1),
        !is_reference_voltage(t, v2),
    ensures
        position_below_top(t, v2) is Below ==> position_below_top(t, v1) is Below,
        position_below_top(t, v1) matches CurvePosition::Between { high: h1, low: l1 } ==> (
        position_below_top(t, v2) matches CurvePosition::Between { high: h2, low: l2 } ==> (h1
            == h2 && l1 == l2) || h1.state_of_charge <= l2.state_of_charge),
    decreases t.len(),
{
    if t.len() >= 2 {
        lemma_not_reference_drop_first(t, v1);
        lemma_not_reference_drop_first(t, v2);
        let u = t.drop_first();
        lemma_not_reference_drop_first(u, v1);
        lemma_not_reference_drop_first(u, v2);
        lemma_drop_first_valid(t);
        if t[1].voltage > v2 {
            lemma_position_below_top_ordered(u, v1, v2);
        } else if t[1].voltage < v1 {
        } else {
            // v1 < t[1].voltage < v2
            lemma_position_below_top_bounds(u, v1);
        }
    }
}

/// An interpolation that stays between the charges of the two points.
pub open spec fn interpolation_within<F: Fn(ReferenceStateOfCharge, ReferenceStateOfCharge, u16) -> u8>(
    interpolate: F,
) -> bool {
    forall|high: ReferenceStateOfCharge, low: ReferenceStateOfCharge, v: u16, p: u8|
        low.voltage < v < high.voltage && low.state_of_charge <= high.state_of_charge
            && #[trigger] call_ensures(interpolate, (high, low, v), p) ==> low.state_of_charge <= p
            <= high.state_of_charge
}

/// An interpolation that never gives less charge for a higher voltage
/// between the same two points.
pub open spec fn interpolation_rising<F: Fn(ReferenceStateOfCharge, ReferenceStateOfCharge, u16) -> u8>(
    interpolate: F,
) -> bool {
    forall|high: ReferenceStateOfCharge, low: ReferenceStateOfCharge, v1: u16, v2: u16, p1: u8, p2: u8|
        #![trigger call_ensures(interpolate, (high, low, v1), p1), call_ensures(interpolate, (high, low, v2), p2)]
        low.voltage < v1 <= v2 < high.voltage && call_ensures(interpolate, (high, low, v1), p1)
            && call_ensures(interpolate, (high, low, v2), p2) ==> p1 <= p2
}

/// Away from the voltages of its points, a curve never gives less charge for
/// a higher voltage, where the interpolation on each line stays between the
/// two points' charges and rises with the voltage. (At a point's own voltage
/// that point is passed over, and the charge there may lie below the charge
/// just beneath it.)
pub proof fn lemma_conversion_monotonic<F: Fn(ReferenceStateOfCharge, ReferenceStateOfCharge, u16) -> u8>(
    interpolate: F,
    t: Seq<ReferenceStateOfCharge>,
    v1: u16,
    v2: u16,
    p1: u8,
    p2: u8,
)
    requires
        valid_reference(t),
        t[0].state_of_charge <= 100,
        v1 <= v2,
        !is_reference_voltage(t, v1 as int),
        !is_reference_voltage(t, v2 as int),
        interpolation_within(interpolate),
        interpolation_rising(interpolate),
        converts_on(interpolate, t, v1, p1),
        converts_on(interpolate, t, v2, p2),
    ensures
        p1 <= p2,
{
    if t[0].voltage > v1 {
        lemma_position_below_top_bounds(t, v1 as int);
        if let CurvePosition::Between { high, low } = position_below_top(t, v1 as int) {
            assert(call_ensures(interpolate, (high, low, v1), p1));
            assert(p1 <= high.state_of_charge);
        }
    }
    if t[0].voltage > v2 {
        lemma_position_below_top_bounds(t, v2 as int);
        lemma_position_below_top_ordered(t, v1 as int, v2 as int);
        match (position_below_top(t, v1 as int), position_below_top(t, v2 as int)) {
            (
                CurvePosition::Between { high: h1, low: l1 },
                CurvePosition::Between { high: h2, low: l2 },
            ) => {
                assert(call_ensures(interpolate, (h1, l1, v1), p1));
                assert(call_ensures(interpolate, (h2, l2, v2), p2));
                if !(h1 == h2 && l1 == l2) {
                    assert(l2.state_of_charge <= p2);
                }
            },
            _ => {},
        }
    }
}

/// The state of charge from a voltage never falls as the voltage rises,
/// away from the voltages of the curve's points, where the interpolation
/// stays between the two points' charges and rises with the voltage.
pub proof fn lemma_state_of_charge_monotonic<F: Fn(ReferenceStateOfCharge, ReferenceStateOfCharge, u16) -> u8>(
    interpolate: F,
    charger_status: Result<ChargerState, ()>,
    v1: u16,
    v2: u16,
    p1: u8,
    p2: u8,
)
    requires
        v1 <= v2,
        !is_reference_voltage(spec_reference_for(charger_status), v1 as int),
        !is_reference_voltage(spec_reference_for(charger_status), v2 as int),
        interpolation_within(interpolate),
        interpolation_rising(interpolate),
        converts_on(interpolate, spec_reference_for(charger_status), v1, p1),
        converts_on(interpolate, spec_reference_for(charger_status), v2, p2),
    ensures
        p1 <= p2,
{
    lemma_references_valid();
    lemma_conversion_monotonic(interpolate, spec_reference_for(charger_status), v1, v2, p1, p2);
}

proof fn lemma_position_below_bottom(t: Seq<ReferenceStateOfCharge>, v: int)
    requires
        valid_reference(t),
        v <= t[t.len() - 1].voltage,
        v < t[0].voltage,
    ensures
        position_below_top(t, v) is Below,
    decreases t.len(),
{
    if t.len() >= 2 {
        if t[1].voltage > v {
            lemma_drop_first_valid(t);
            lemma_position_below_bottom(t.drop_first(), v);
        } else {
            assert(t[1].voltage >= t[t.len() - 1].voltage);
            if t.len() >= 3 {
                assert(t[2].voltage < t[1].voltage);
                assert(t[2].voltage >= t[t.len() - 1].voltage);
            }
        }
    }
}

/// A voltage lies above a curve from the voltage of its first point up, and
/// below it from the voltage of its last point down.
pub proof fn lemma_curve_ends(t: Seq<ReferenceStateOfCharge>, v: int)
    requires
        valid_reference(t),
    ensures
        v >= t[0].voltage ==> curve_position(t, v) is Above,
        v <= t[t.len() - 1].voltage && v < t[0].voltage ==> curve_position(t, v) is Below,
{
    if v <= t[t.len() - 1].voltage && v < t[0].voltage {
        lemma_position_below_bottom(t, v);
    }
}

/// The status that the battery driver reports.
#[derive(Debug, Clone, Copy, PartialEq, Eq, Structural)]
pub enum BatteryStatus {
    Unknown,
    Charging,
    Discharging,
    NotCharging,
    Full,
}

/// The status that a charge controller reports.
#[derive(Debug, Clone, Copy, PartialEq, Eq, Structural)]
pub enum ChargeControlStatus {
    Disabled,
    NoSource,
    Charging,
    ChargeComplete,
    Suspend,
    Fault,
    Other,
}

/// The battery properties that the firmware asks the battery driver for.
#[derive(Debug, Clone, Copy, PartialEq, Eq, Structural)]
pub enum PropertyType {
    StateOfCharge,
    VoltageNow,
    Status,
}

/// A value that the battery driver reports for a property.
#[derive(Debug, Clone, Copy, PartialEq, Eq, Structural)]
pub enum PropertyValue {
    /// State of charge in percent.
    StateOfCharge(u8),
    /// Voltage in millivolt.
    Voltage(i32),
    Status(BatteryStatus),
    /// A value of a kind that the firmware does not read.
    Other,
}

pub open spec fn spec_charger_state_from_battery_status(s: BatteryStatus) -> ChargerState {
    match s {
        BatteryStatus::Charging => ChargerState::Charging,
        BatteryStatus::Full => ChargerState::Full,
        _ => ChargerState::Discharging,
    }
}

pub open spec fn spec_charger_state_from_charge_control(s: ChargeControlStatus) -> ChargerState {
    match s {
        ChargeControlStatus::Charging => ChargerState::Charging,
        ChargeControlStatus::ChargeComplete => ChargerState::Full,
        _ => ChargerState::Discharging,
    }
}

/// The charger state that a battery status means: charging and full are
/// kept, every other status counts as discharging.
pub fn charger_state_from_battery_status(s: BatteryStatus) -> (r: ChargerState)
    ensures
        r == spec_charger_state_from_battery_status(s),
{
    match s {
        BatteryStatus::Unknown => ChargerState::Discharging,
        BatteryStatus::Charging => ChargerState::Charging,
        BatteryStatus::Discharging => ChargerState::Discharging,
        BatteryStatus::NotCharging => ChargerState::Discharging,
        BatteryStatus::Full => ChargerState::Full,
    }
}

/// The charger state that a charge controller status means: charging is
/// kept, a completed charge means full, every other status counts as
/// discharging.
pub fn charger_state_from_charge_control(s: ChargeControlStatus) -> (r: ChargerState)
    ensures
        r == spec_charger_state_from_charge_control(s),
{
    match s {
        ChargeControlStatus::Disabled => ChargerState::Discharging,
        ChargeControlStatus::NoSource => ChargerState::Discharging,
        ChargeControlStatus::Charging => ChargerState::Charging,
        ChargeControlStatus::ChargeComplete => ChargerState::Full,
        ChargeControlStatus::Suspend => ChargerState::Discharging,
        ChargeControlStatus::Fault => ChargerState::Discharging,
        ChargeControlStatus::Other => ChargerState::Discharging,
    }
}

/// What the value of the battery's status property gives: the mapped
/// charger state where it is a status, an error otherwise.
pub open spec fn spec_charger_status_from_value(value: Option<PropertyValue>) -> Result<ChargerState, ()> {
    match value {
        Some(PropertyValue::Status(s)) => Ok(spec_charger_state_from_battery_status(s)),
        _ => Err(()),
    }
}

/// What reading a charge controller gives: the mapped charger state, or an
/// error where no charge controller was found.
pub open spec fn spec_charger_status_from_charge_control(status: Option<ChargeControlStatus>) -> Result<ChargerState, ()> {
    match status {
        Some(s) => Ok(spec_charger_state_from_charge_control(s)),
        None => Err(()),
    }
}

/// The charger state that the value of the battery's status property gives.
pub fn charger_status_from_value(value: Option<PropertyValue>) -> (r: Result<ChargerState, ()>)
    ensures
        r == spec_charger_status_from_value(value),
{
    match value {
        Some(PropertyValue::Status(s)) => Ok(charger_state_from_battery_status(s)),
        _ => Err(()),
    }
}

/// Whether the battery is being charged. `battery` is the outcome of the
/// lookup of the watch's battery: where there is none, the result is an
/// error and nothing is read. Otherwise the battery's status property is
/// asked first (`find_property` gives an error where the battery has no such
/// property); only where it is missing is the charge controller read
/// (`read_charge_control` gives `None` where there is none).
pub fn try_get_charger_status<B, F, G>(battery: Option<B>, find_property: F, read_charge_control: G) -> (r: Result<ChargerState, ()>) where
    F: Fn(&B, PropertyType) -> Result<Option<PropertyValue>, ()>,
    G: Fn() -> Option<ChargeControlStatus>,

    requires
        battery matches Some(b) ==> call_requires(find_property, (&b, PropertyType::Status)),
        call_requires(read_charge_control, ()),
    ensures
        match battery {
            None => r == Err::<ChargerState, ()>(()),
            Some(b) => exists|a: Result<Option<PropertyValue>, ()>|
                #[trigger] call_ensures(find_property, (&b, PropertyType::Status), a) && match a {
                    Ok(value) => r == spec_charger_status_from_value(value),
                    Err(_) => exists|c: Option<ChargeControlStatus>|
                        #[trigger] call_ensures(read_charge_control, (), c) && r
                            == spec_charger_status_from_charge_control(c),
                },
        },
{
    let battery = match battery {
        Some(b) => b,
        None => {
            return Err(());
        },
    };
    match find_property(&battery, PropertyType::Status) {
        Ok(value) => charger_status_from_value(value),
        Err(()) => match read_charge_control() {
            Some(s) => Ok(charger_state_from_charge_control(s)),
            None => Err(()),
        },
    }
}

/// The state of charge that the value of the battery's state-of-charge
/// property gives.
pub open spec fn spec_state_of_charge_from_value(value: Option<PropertyValue>) -> Result<StateOfCharge, ()> {
    match value {
        Some(PropertyValue::StateOfCharge(p)) => Ok(StateOfCharge { percentage: p }),
        _ => Err(()),
    }
}

/// The voltage in millivolt that a property value holds, cut to 16 bits.
pub open spec fn spec_voltage_of(value: Option<PropertyValue>) -> Option<u16> {
    match value {
        Some(PropertyValue::Voltage(mv)) => Some(mv as u16),
        _ => None,
    }
}

/// The state of charge from the value of the battery's state-of-charge
/// property: the percentage where the value is one, an error otherwise.
pub fn try_get_state_of_charge_from_soc_property(value: Option<PropertyValue>) -> (r: Result<StateOfCharge, ()>)
    ensures
        r == spec_state_of_charge_from_value(value),
{
    match value {
        Some(PropertyValue::StateOfCharge(p)) => Ok(StateOfCharge::from_percentage(p)),
        _ => Err(()),
    }
}

/// The state of charge from the value of the battery's voltage property,
/// converted by the curve for the charger state (see
/// `convert_voltage_to_percentage`); `charger_status` is asked only where the
/// value is a voltage.
pub fn try_get_state_of_charge_from_voltage<G, H>(value: Option<PropertyValue>, charger_status: G, interpolate: H) -> (r: Result<StateOfCharge, ()>) where
    G: Fn() -> Result<ChargerState, ()>,
    H: Fn(ReferenceStateOfCharge, ReferenceStateOfCharge, u16) -> u8,

    requires
        call_requires(charger_status, ()),
        interpolation_defined(interpolate),
    ensures
        match spec_voltage_of(value) {
            Some(mv) => exists|c: Result<ChargerState, ()>|
                #[trigger] call_ensures(charger_status, (), c) && (r matches Ok(s) && converts_on(
                    interpolate,
                    spec_reference_for(c),
                    mv,
                    s.percentage,
                )),
            None => r == Err::<StateOfCharge, ()>(()),
        },
{
    match value {
        Some(PropertyValue::Voltage(mv)) => {
            let c = charger_status();
            Ok(convert_voltage_to_percentage(mv as u16, c, interpolate))
        },
        _ => Err(()),
    }
}

/// The state of charge of the battery. `battery` is the outcome of the
/// lookup of the watch's battery: where there is none, the result is an
/// error and nothing is read. Otherwise it comes from the battery's
/// state-of-charge property where the battery has one, else from its voltage
/// property, else it is an error.
pub fn try_get_state_of_charge<B, F, G, H>(
    battery: Option<B>,
    find_property: F,
    charger_status: G,
    interpolate: H,
) -> (r: Result<StateOfCharge, ()>) where
    F: Fn(&B, PropertyType) -> Result<Option<PropertyValue>, ()>,
    G: Fn() -> Result<ChargerState, ()>,
    H: Fn(ReferenceStateOfCharge, ReferenceStateOfCharge, u16) -> u8,

    requires
        battery matches Some(b) ==> call_requires(find_property, (&b, PropertyType::StateOfCharge))
            && call_requires(find_property, (&b, PropertyType::VoltageNow)),
        call_requires(charger_status, ()),
        interpolation_defined(interpolate),
    ensures
        match battery {
            None => r == Err::<StateOfCharge, ()>(()),
            Some(bat) => exists|a: Result<Option<PropertyValue>, ()>|
                #[trigger] call_ensures(find_property, (&bat, PropertyType::StateOfCharge), a)
                    && match a {
                    Ok(value) => r == spec_state_of_charge_from_value(value),
                    Err(_) => exists|b: Result<Option<PropertyValue>, ()>|
                        #[trigger] call_ensures(find_property, (&bat, PropertyType::VoltageNow), b)
                            && match b {
                            Ok(value) => match spec_voltage_of(value) {
                                Some(mv) => exists|c: Result<ChargerState, ()>|
                                    #[trigger] call_ensures(charger_status, (), c) && (r matches Ok(
                                        s,
                                    ) && converts_on(
                                        interpolate,
                                        spec_reference_for(c),
                                        mv,
                                        s.percentage,
                                    )),
                                None => r == Err::<StateOfCharge, ()>(()),
                            },
                            Err(_) => r == Err::<StateOfCharge, ()>(()),
                        },
                },
        },
{
    let battery = match battery {
        Some(b) => b,
        None => {
            return Err(());
        },
    };
    match find_property(&battery, PropertyType::StateOfCharge) {
        Ok(value) => try_get_state_of_charge_from_soc_property(value),
        Err(()) => match find_property(&battery, PropertyType::VoltageNow) {
            Ok(value) => try_get_state_of_charge_from_voltage(value, charger_status, interpolate),
            Err(()) => Err(()),
        },
    }
}

} // verus!
