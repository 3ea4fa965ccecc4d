use klok::graph::{
    get_reference_list, graph_data_consistent, graph_x_range, is_low_brightness, log_series,
    reference_series,
};
use klok::log_file::{json_object, json_objects};
use klok::measurement::{loggable_entries, permyriad_computable, sort_by_timestamp, ChargerState, Log, LogEntry};

fn entry(timestamp: u64, voltage: u16, temperature: u16, charger: ChargerState) -> LogEntry {
    LogEntry { timestamp, voltage, temperature, charger, permyriad: 0 }
}

fn charging_log() -> Log {
    let c = ChargerState::Charging;
    Log::from_entries(
        "charging-1".to_string(),
        vec![
            entry(30, 4000, 2500, c),
            entry(10, 3700, 2500, c),
            entry(20, 3900, 2500, c),
            entry(40, 4150, 2500, c),
            entry(50, 4160, 2500, c),
        ],
    )
}

fn discharging_log(temperatures: [u16; 3]) -> Log {
    let n = ChargerState::NoSource;
    Log::from_entries(
        "low-brightness-air".to_string(),
        vec![
            entry(300, 3600, temperatures[2], n),
            entry(100, 4000, temperatures[0], n),
            entry(200, 3800, temperatures[1], n),
        ],
    )
}

#[test]
fn sorting_keeps_equal_times_in_order() {
    let c = ChargerState::Charging;
    let entries = vec![entry(5, 1, 0, c), entry(3, 2, 0, c), entry(5, 3, 0, c), entry(3, 4, 0, c)];
    let sorted = sort_by_timestamp(&entries);
    let order: Vec<(u64, u16)> = sorted.iter().map(|e| (e.timestamp, e.voltage)).collect();
    assert_eq!(order, vec![(3, 2), (3, 4), (5, 1), (5, 3)]);
}

#[test]
fn log_from_entries_sorts_and_shares_while_charging() {
    let log = charging_log();
    assert_eq!(log.name, "charging-1");
    let times: Vec<u64> = log.entries.iter().map(|e| e.timestamp).collect();
    assert_eq!(times, vec![10, 20, 30, 40, 50]);
    let shares: Vec<u16> = log.entries.iter().map(|e| e.permyriad).collect();
    assert_eq!(shares, vec![0, 2500, 5000, 7500, 10000]);
    assert_eq!(log.first().timestamp, 10);
    assert_eq!(log.last().timestamp, 50);
}

#[test]
fn shares_fall_while_discharging() {
    let log = discharging_log([2000, 2000, 2000]);
    let shares: Vec<u16> = log.entries.iter().map(|e| e.permyriad).collect();
    assert_eq!(shares, vec![10000, 5000, 0]);
}

#[test]
fn update_permyriad_rounds_down() {
    let c = ChargerState::Charging;
    let log = Log { name: "x".to_string(), entries: vec![entry(0, 1, 0, c), entry(1, 1, 0, c), entry(3, 1, 0, c)] };
    let log = log.update_permyriad();
    let shares: Vec<u16> = log.entries.iter().map(|e| e.permyriad).collect();
    assert_eq!(shares, vec![0, 3333, 10000]);
}

#[test]
fn remove_non_useful_data_stops_near_full_voltage() {
    let log = charging_log().remove_non_useful_data();
    let kept: Vec<(u64, u16, u16)> = log.entries.iter().map(|e| (e.timestamp, e.voltage, e.permyriad)).collect();
    assert_eq!(kept, vec![(0, 3700, 0), (10, 3900, 3333), (20, 4000, 6666), (30, 4150, 10000)]);
    assert_eq!(log.name, "charging-1");
}

#[test]
fn remove_non_useful_data_keeps_whole_discharge() {
    let log = discharging_log([2000, 2000, 2000]).remove_non_useful_data();
    let kept: Vec<(u64, u16)> = log.entries.iter().map(|e| (e.timestamp, e.permyriad)).collect();
    assert_eq!(kept, vec![(0, 10000), (100, 5000), (200, 0)]);
}

#[test]
fn average_temperature_rounds_down() {
    let log = discharging_log([2400, 2600, 2601]);
    assert_eq!(log.average_temperature(), 2533);
}

#[test]
fn single_charger() {
    let log = charging_log();
    assert!(log.has_single_charger());
    assert_eq!(log.get_charger(), ChargerState::Charging);
    let mixed = Log {
        name: "mixed".to_string(),
        entries: vec![entry(0, 1, 0, ChargerState::Charging), entry(1, 1, 0, ChargerState::Fault)],
    };
    assert!(!mixed.has_single_charger());
    assert!(!mixed.has_known_reference_list());
}

fn pairs(log: &Log) -> Vec<(u16, u8)> {
    get_reference_list(log).iter().map(|p| (p.voltage, p.state_of_charge)).collect()
}

#[test]
fn reference_list_by_charger_and_temperature() {
    assert_eq!(pairs(&charging_log()), vec![(4090, 100), (3920, 85), (3670, 5), (3400, 0)]);
    assert_eq!(
        pairs(&discharging_log([2500, 2500, 2500])),
        vec![(4090, 100), (3730, 55), (3650, 25), (3550, 5), (3300, 0)]
    );
    assert_eq!(
        pairs(&discharging_log([3000, 3000, 3000])),
        vec![(4090, 100), (3850, 75), (3720, 55), (3630, 25), (3550, 6), (3300, 0)]
    );
    assert!(!discharging_log([2700, 2700, 2700]).has_known_reference_list());
    assert!(discharging_log([2700, 2700, 3900]).has_known_reference_list());
}

#[test]
fn graph_consistency() {
    let a = discharging_log([2000, 2000, 2000]);
    let b = discharging_log([2100, 2200, 2300]);
    assert!(graph_data_consistent(&vec![a, b]));
    let cool = discharging_log([2000, 2000, 2000]);
    let warm = discharging_log([3100, 3100, 3100]);
    assert!(!graph_data_consistent(&vec![cool, warm]));
    let discharge = discharging_log([2000, 2000, 2000]);
    assert!(!graph_data_consistent(&vec![discharge, charging_log()]));
}

#[test]
fn graph_points() {
    assert_eq!(graph_x_range(ChargerState::Charging), (0, 10000));
    assert_eq!(graph_x_range(ChargerState::NoSource), (10000, 0));
    let log = charging_log();
    assert_eq!(log_series(&log)[1], (2500, 3900));
    let list = get_reference_list(&log);
    assert_eq!(reference_series(&list), vec![(10000, 4090), (8500, 3920), (500, 3670), (0, 3400)]);
}

#[test]
fn low_brightness_names() {
    assert!(is_low_brightness("low-brightness-wrist.log"));
    assert!(is_low_brightness("low-brightness"));
    assert!(!is_low_brightness("low-brightnes"));
    assert!(!is_low_brightness("high-brightness"));
    assert!(!is_low_brightness("ünicode-low-brightness"));
}

#[test]
fn json_objects_of_log_lines() {
    let text = "I: {\"ts\":1,\"v\":3800}\nno json here\r\n x {a} y {b} z\r\n{unclosed\n}{\nend {\"ts\":2}\r";
    let objects = json_objects(text);
    assert_eq!(objects, vec!["{\"ts\":1,\"v\":3800}", "{a} y {b}", "{\"ts\":2}"]);
    assert!(json_objects("").is_empty());
    assert_eq!(json_objects("{}\r\n"), vec!["{}"]);
}

#[test]
fn json_object_of_a_line() {
    assert_eq!(json_object("I: {\"ts\":1} tail"), Some("{\"ts\":1}".to_string()));
    assert_eq!(json_object("a {b} c {d} e"), Some("{b} c {d}".to_string()));
    assert_eq!(json_object("{}"), Some("{}".to_string()));
    assert_eq!(json_object("} before {"), None);
    assert_eq!(json_object("{ no end"), None);
    assert_eq!(json_object("no start }"), None);
    assert_eq!(json_object(""), None);
    assert_eq!(json_object("x}{y}z"), Some("{y}".to_string()));
    assert_eq!(json_object("é{ü}ß"), Some("{ü}".to_string()));
}

#[test]
fn update_permyriad_twice_changes_nothing() {
    let n = ChargerState::NoSource;
    let log = Log {
        name: "twice".to_string(),
        entries: vec![entry(7, 1, 0, n), entry(8, 1, 0, n), entry(10, 1, 0, n), entry(29, 1, 0, n)],
    };
    let once = log.update_permyriad();
    let shares: Vec<u16> = once.entries.iter().map(|e| e.permyriad).collect();
    assert_eq!(shares, vec![10000, 9545, 8636, 0]);
    let twice = Log { name: once.name.clone(), entries: once.entries.clone() }.update_permyriad();
    assert_eq!(twice.entries, once.entries);
    assert_eq!(twice.name, once.name);
}

#[test]
fn loggable_and_computable() {
    let c = ChargerState::Charging;
    assert!(loggable_entries(&vec![entry(5, 1, 0, c), entry(3, 1, 0, c)]));
    assert!(!loggable_entries(&vec![entry(5, 1, 0, c), entry(5, 2, 0, c)]));
    assert!(!loggable_entries(&vec![]));
    assert!(!loggable_entries(&vec![entry(0, 1, 0, c), entry(u64::MAX, 1, 0, c)]));
    assert!(loggable_entries(&vec![entry(0, 1, 0, c), entry(u64::MAX / 10000, 1, 0, c)]));
    assert!(permyriad_computable(&vec![entry(3, 1, 0, c), entry(5, 1, 0, c)]));
    assert!(!permyriad_computable(&vec![entry(5, 1, 0, c), entry(3, 1, 0, c)]));
    assert!(!permyriad_computable(&vec![entry(3, 1, 0, c), entry(1, 1, 0, c), entry(5, 1, 0, c)]));
    let n = ChargerState::NoSource;
    assert!(permyriad_computable(&vec![entry(3, 1, 0, n), entry(1, 1, 0, n), entry(5, 1, 0, n)]));
    assert!(!permyriad_computable(&vec![entry(3, 1, 0, n), entry(9, 1, 0, n), entry(5, 1, 0, n)]));
}

#[test]
fn useful_entries_of_charging_log() {
    let log = charging_log();
    let kept: Vec<u64> = log.useful_entries().iter().map(|e| e.timestamp).collect();
    assert_eq!(kept, vec![0, 10, 20, 30]);
    assert!(permyriad_computable(&log.useful_entries()));
}
