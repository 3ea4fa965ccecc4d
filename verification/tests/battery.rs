use klok::battery::{
    charger_state_from_battery_status, charger_state_from_charge_control, charger_status_from_value,
    charging_reference, convert_voltage_to_percentage, discharging_reference, find_curve_position,
    is_charging, reference_point, try_get_charger_status, try_get_state_of_charge,
    try_get_state_of_charge_from_soc_property, try_get_state_of_charge_from_voltage, BatteryStatus,
    ChargeControlStatus, ChargerState, CurvePosition, PropertyType, PropertyValue,
    ReferenceStateOfCharge, StateOfCharge,
};
use std::cell::Cell;

/// The value at `v` of the line through two points of a curve, in `f32`
/// and cut to a whole percent, as the watch firmware computes it.
fn line(high: ReferenceStateOfCharge, low: ReferenceStateOfCharge, v: u16) -> u8 {
    let a = (high.state_of_charge as f32 - low.state_of_charge as f32)
        / (high.voltage as f32 - low.voltage as f32);
    let b = high.state_of_charge as f32 - a * high.voltage as f32;
    (a * v as f32 + b) as u8
}

fn discharging(v: u16) -> u8 {
    convert_voltage_to_percentage(v, Ok(ChargerState::Discharging), line).percentage()
}

fn charging(v: u16) -> u8 {
    convert_voltage_to_percentage(v, Ok(ChargerState::Charging), line).percentage()
}

#[test]
fn discharging_curve_at_ends() {
    assert_eq!(discharging(4200), 100);
    assert_eq!(discharging(4090), 100);
    assert_eq!(discharging(3300), 0);
    assert_eq!(discharging(3000), 0);
    assert_eq!(discharging(0), 0);
    assert_eq!(discharging(u16::MAX), 100);
}

#[test]
fn discharging_curve_between_points() {
    // between 4090 (100 %) and 3850 (75 %)
    assert_eq!(discharging(4089), 99);
    assert_eq!(discharging(3970), 87);
    assert_eq!(discharging(3851), 75);
    // between 3850 (75 %) and 3730 (55 %)
    assert_eq!(discharging(3849), 74);
    assert_eq!(discharging(3790), 65);
    // between 3650 (25 %) and 3550 (5 %)
    assert_eq!(discharging(3600), 15);
    // between 3550 (5 %) and 3300 (0 %)
    assert_eq!(discharging(3425), 2);
    assert_eq!(discharging(3301), 0);
}

#[test]
fn discharging_curve_passes_over_a_point_at_the_voltage() {
    // at 3850 the point itself is passed over: the line from 4090 to 3730
    assert_eq!(discharging(3850), 70);
    // at 3730: the line from 3850 (75 %) to 3650 (25 %)
    assert_eq!(discharging(3730), 45);
    // at 3550: the line from 3650 (25 %) to 3300 (0 %)
    assert_eq!(discharging(3550), 17);
}

#[test]
fn charging_curve() {
    assert_eq!(charging(4095), 100);
    assert_eq!(charging(4005), 92);
    assert_eq!(charging(3795), 45);
    // the line in f32 gives 0.99999 here, which is cut to 0
    assert_eq!(charging(3454), 0);
    assert_eq!(charging(3455), 1);
    assert_eq!(charging(3400), 0);
    assert_eq!(charging(3920), 61);
}

#[test]
fn full_battery_uses_charging_curve() {
    let full = convert_voltage_to_percentage(3795, Ok(ChargerState::Full), line);
    assert_eq!(full, StateOfCharge::from_percentage(45));
    let unknown = convert_voltage_to_percentage(3795, Err(()), line);
    assert_eq!(unknown.percentage(), 65);
}

#[test]
fn charging_flag() {
    assert!(is_charging(Ok(ChargerState::Charging)));
    assert!(is_charging(Ok(ChargerState::Full)));
    assert!(!is_charging(Ok(ChargerState::Discharging)));
    assert!(!is_charging(Err(())));
}

#[test]
fn reference_tables() {
    let d = discharging_reference();
    assert_eq!(d.len(), 6);
    assert_eq!((d[0].voltage, d[0].state_of_charge), (4090, 100));
    assert_eq!((d[5].voltage, d[5].state_of_charge), (3300, 0));
    let c = charging_reference();
    assert_eq!(c.len(), 4);
    assert_eq!((c[1].voltage, c[1].state_of_charge), (3920, 85));
}

#[test]
fn curve_positions() {
    let c = charging_reference();
    assert_eq!(find_curve_position(&c, 4090), CurvePosition::Above);
    assert_eq!(find_curve_position(&c, 5000), CurvePosition::Above);
    assert_eq!(find_curve_position(&c, 3400), CurvePosition::Below);
    assert_eq!(find_curve_position(&c, 12), CurvePosition::Below);
    assert_eq!(
        find_curve_position(&c, 4000),
        CurvePosition::Between { high: reference_point(4090, 100), low: reference_point(3920, 85) }
    );
    // a point exactly at the voltage is passed over
    assert_eq!(
        find_curve_position(&c, 3670),
        CurvePosition::Between { high: reference_point(3920, 85), low: reference_point(3400, 0) }
    );
    assert_eq!(line(reference_point(3920, 85), reference_point(3400, 0), 3670), 44);
    let d = discharging_reference();
    assert_eq!(
        find_curve_position(&d, 3301),
        CurvePosition::Between { high: reference_point(3550, 5), low: reference_point(3300, 0) }
    );
    assert_eq!(find_curve_position(&d, 3300), CurvePosition::Below);
}

#[test]
fn conversion_hands_the_two_points_to_the_line() {
    let seen = Cell::new(None);
    let r = convert_voltage_to_percentage(3600, Ok(ChargerState::Discharging), |h, l, v| {
        seen.set(Some((h, l, v)));
        42
    });
    assert_eq!(r.percentage(), 42);
    assert_eq!(seen.get(), Some((reference_point(3650, 25), reference_point(3550, 5), 3600)));
    // above and below the curve the line is not asked
    let r = convert_voltage_to_percentage(3000, Ok(ChargerState::Discharging), |_, _, _| panic!("not asked"));
    assert_eq!(r.percentage(), 0);
    let r = convert_voltage_to_percentage(4100, Ok(ChargerState::Charging), |_, _, _| panic!("not asked"));
    assert_eq!(r.percentage(), 100);
}

#[test]
fn battery_status_mapping() {
    assert_eq!(charger_state_from_battery_status(BatteryStatus::Unknown), ChargerState::Discharging);
    assert_eq!(charger_state_from_battery_status(BatteryStatus::Charging), ChargerState::Charging);
    assert_eq!(
        charger_state_from_battery_status(BatteryStatus::Discharging),
        ChargerState::Discharging
    );
    assert_eq!(
        charger_state_from_battery_status(BatteryStatus::NotCharging),
        ChargerState::Discharging
    );
    assert_eq!(charger_state_from_battery_status(BatteryStatus::Full), ChargerState::Full);
}

#[test]
fn charge_control_mapping() {
    let expected = [
        (ChargeControlStatus::Disabled, ChargerState::Discharging),
        (ChargeControlStatus::NoSource, ChargerState::Discharging),
        (ChargeControlStatus::Charging, ChargerState::Charging),
        (ChargeControlStatus::ChargeComplete, ChargerState::Full),
        (ChargeControlStatus::Suspend, ChargerState::Discharging),
        (ChargeControlStatus::Fault, ChargerState::Discharging),
        (ChargeControlStatus::Other, ChargerState::Discharging),
    ];
    for (status, state) in expected {
        assert_eq!(charger_state_from_charge_control(status), state);
    }
}

#[test]
fn charger_status_from_property_values() {
    assert_eq!(
        charger_status_from_value(Some(PropertyValue::Status(BatteryStatus::Full))),
        Ok(ChargerState::Full)
    );
    assert_eq!(charger_status_from_value(Some(PropertyValue::Voltage(3800))), Err(()));
    assert_eq!(charger_status_from_value(None), Err(()));
}

#[test]
fn charger_status_prefers_battery_property() {
    let charger_read = Cell::new(false);
    let r = try_get_charger_status(
        Some(()),
        |_: &(), kind| {
            assert_eq!(kind, PropertyType::Status);
            Ok(Some(PropertyValue::Status(BatteryStatus::Charging)))
        },
        || {
            charger_read.set(true);
            Some(ChargeControlStatus::ChargeComplete)
        },
    );
    assert_eq!(r, Ok(ChargerState::Charging));
    assert!(!charger_read.get());
}

#[test]
fn charger_status_falls_back_to_charge_control() {
    let r = try_get_charger_status(Some(()), |_: &(), _| Err(()), || Some(ChargeControlStatus::ChargeComplete));
    assert_eq!(r, Ok(ChargerState::Full));
    let none = try_get_charger_status(Some(()), |_: &(), _| Err(()), || None);
    assert_eq!(none, Err(()));
    let wrong_value = try_get_charger_status(Some(()), |_: &(), _| Ok(Some(PropertyValue::Other)), || None);
    assert_eq!(wrong_value, Err(()));
}

#[test]
fn charger_status_without_battery() {
    let r = try_get_charger_status(
        None::<()>,
        |_: &(), _| panic!("no property is asked"),
        || panic!("the charge controller is not asked"),
    );
    assert_eq!(r, Err(()));
}

#[test]
fn state_of_charge_from_soc_property() {
    assert_eq!(
        try_get_state_of_charge_from_soc_property(Some(PropertyValue::StateOfCharge(64))),
        Ok(StateOfCharge::from_percentage(64))
    );
    assert_eq!(try_get_state_of_charge_from_soc_property(Some(PropertyValue::Voltage(3))), Err(()));
    assert_eq!(try_get_state_of_charge_from_soc_property(None), Err(()));
}

#[test]
fn state_of_charge_from_voltage_property() {
    let asked = Cell::new(0);
    let status = || {
        asked.set(asked.get() + 1);
        Ok(ChargerState::Discharging)
    };
    assert_eq!(
        try_get_state_of_charge_from_voltage(Some(PropertyValue::Voltage(3970)), status, line),
        Ok(StateOfCharge::from_percentage(87))
    );
    assert_eq!(asked.get(), 1);
    assert_eq!(try_get_state_of_charge_from_voltage(Some(PropertyValue::StateOfCharge(5)), status, line), Err(()));
    assert_eq!(asked.get(), 1);
    // the voltage is cut to 16 bits: 65536 + 3970 reads as 3970
    assert_eq!(
        try_get_state_of_charge_from_voltage(Some(PropertyValue::Voltage(65536 + 3970)), status, line),
        Ok(StateOfCharge::from_percentage(87))
    );
}

#[test]
fn state_of_charge_prefers_soc_property() {
    let r = try_get_state_of_charge(
        Some(()),
        |_: &(), kind| match kind {
            PropertyType::StateOfCharge => Ok(Some(PropertyValue::StateOfCharge(33))),
            _ => panic!("only the state of charge is asked"),
        },
        || panic!("the charger is not asked"),
        line,
    );
    assert_eq!(r, Ok(StateOfCharge::from_percentage(33)));
}

#[test]
fn state_of_charge_falls_back_to_voltage() {
    let r = try_get_state_of_charge(
        Some(()),
        |_: &(), kind| match kind {
            PropertyType::VoltageNow => Ok(Some(PropertyValue::Voltage(3795))),
            _ => Err(()),
        },
        || Ok(ChargerState::Charging),
        line,
    );
    assert_eq!(r, Ok(StateOfCharge::from_percentage(45)));
    let none = try_get_state_of_charge(Some(()), |_: &(), _| Err(()), || Ok(ChargerState::Charging), line);
    assert_eq!(none, Err(()));
    let soc_without_value =
        try_get_state_of_charge(Some(()), |_: &(), _| Ok(None), || Ok(ChargerState::Charging), line);
    assert_eq!(soc_without_value, Err(()));
}

#[test]
fn state_of_charge_without_battery() {
    let r = try_get_state_of_charge(
        None::<()>,
        |_: &(), _| panic!("no property is asked"),
        || panic!("the charger is not asked"),
        line,
    );
    assert_eq!(r, Err(()));
}

#[test]
fn state_of_charge_rises_with_voltage_away_from_points() {
    let points_d = [4090, 3850, 3730, 3650, 3550, 3300];
    let points_c = [4090, 3920, 3670, 3400];
    let mut last_d = 0;
    let mut last_c = 0;
    for v in 3000..4200u16 {
        if !points_d.contains(&v) {
            let p = discharging(v);
            assert!(last_d <= p, "discharging falls at {}", v);
            last_d = p;
        }
        if !points_c.contains(&v) {
            let p = charging(v);
            assert!(last_c <= p, "charging falls at {}", v);
            last_c = p;
        }
    }
    // at a point's own voltage the charge can lie below the charge just beneath it
    assert!(discharging(3850) < discharging(3849));
}
