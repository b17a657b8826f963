use muaaz::battery::battery_from_supplies;
use muaaz::{BatteryState, BatteryStateInfo, PowerSupply};

fn named(name: &str, kind: &str, capacity: Option<&str>, status: Option<&str>) -> PowerSupply {
    PowerSupply {
        name: name.as_bytes().to_vec(),
        kind: kind.to_string(),
        capacity: capacity.map(|s| s.to_string()),
        status: status.map(|s| s.to_string()),
    }
}

fn supply(kind: &str, capacity: Option<&str>, status: Option<&str>) -> PowerSupply {
    named("BAT0", kind, capacity, status)
}

#[test]
fn default_battery_is_absent() {
    let info = BatteryStateInfo::default();
    assert!(!info.present);
}

#[test]
fn first_battery_is_reported() {
    let supplies = vec![
        named("AC", "Mains\n", Some("100\n"), Some("Full\n")),
        named("BAT0", "Battery\n", Some(" 87\n"), Some("charging\n")),
        named("BAT1", "Battery\n", Some("5\n"), Some("Discharging\n")),
    ];
    let info = battery_from_supplies(&supplies);
    assert!(info.present);
    assert_eq!(info.percentage, 87);
    assert_eq!(info.state, BatteryState::Charging);
}

#[test]
fn battery_fields_fall_back() {
    let info = battery_from_supplies(&vec![supply("Battery", None, None)]);
    assert_eq!(info, BatteryStateInfo { percentage: 0, state: BatteryState::Unknown, present: true });
    let info = battery_from_supplies(&vec![supply("Battery", Some("300"), Some("weird"))]);
    assert_eq!(info.percentage, 0);
    assert_eq!(info.state, BatteryState::Unknown);
    let info = battery_from_supplies(&vec![supply("Battery", Some("+42"), Some("Not charging"))]);
    assert_eq!(info.percentage, 42);
    assert_eq!(info.state, BatteryState::NotCharging);
    let info = battery_from_supplies(&vec![supply("Battery", Some("255"), Some(" FULL "))]);
    assert_eq!(info.percentage, 100);
    assert_eq!(info.state, BatteryState::Full);
    let info = battery_from_supplies(&vec![supply("Battery", Some("150\n"), Some("Charging"))]);
    assert_eq!(info.percentage, 100);
    assert!(info.present);
    let info = battery_from_supplies(&vec![supply("Battery", Some("100"), None)]);
    assert_eq!(info.percentage, 100);
}

#[test]
fn least_named_battery_whatever_the_order() {
    let listed = vec![
        named("BAT1", "Battery", Some("5"), Some("Discharging")),
        named("ADP1", "Mains", Some("1"), Some("Charging")),
        named("BAT0", "Battery", Some("87"), Some("Charging")),
        named("BAT10", "Battery", Some("50"), Some("Full")),
    ];
    let info = battery_from_supplies(&listed);
    assert_eq!(info, BatteryStateInfo { percentage: 87, state: BatteryState::Charging, present: true });
    let mut reversed = listed;
    reversed.reverse();
    assert_eq!(battery_from_supplies(&reversed), info);
    let prefixed = vec![
        named("BATX", "Battery", Some("9"), Some("Full")),
        named("BAT", "Battery", Some("3"), Some("Full")),
    ];
    assert_eq!(battery_from_supplies(&prefixed).percentage, 3);
}

#[test]
fn no_battery_among_supplies() {
    let info = battery_from_supplies(&vec![supply("Mains", Some("1"), Some("Charging")), named("", "", None, None)]);
    assert_eq!(info, BatteryStateInfo::default());
    assert_eq!(battery_from_supplies(&vec![]), BatteryStateInfo::default());
}

#[test]
fn battery_state_text() {
    assert_eq!(BatteryState::NotCharging.to_string(), "Not Charging");
    assert_eq!(BatteryState::Charging.to_string(), "Charging");
    assert_eq!(BatteryState::Unknown.to_string(), "Unknown");
}
