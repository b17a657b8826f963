use muaaz::desktop::shell::{
    activation_for, app_for_row, battery_label, decimal_text, register_system_apps, row_visible,
    spawn_failed_message, status_text, Activation,
};
use muaaz::{App, AppCategory, AppKind, BatteryState, BatteryStateInfo, LinuxAppRegistry};

#[test]
fn status_text_matches_kind() {
    let app = App::planned("t", "T", "D", "icon", AppCategory::Utilities);
    assert_eq!(status_text(&app), "Coming soon");
}

#[test]
fn status_text_other_kinds() {
    let app = App::native("t", "T", "D", "icon", AppCategory::Utilities);
    assert_eq!(status_text(&app), "Included");
    let mut app = App::host("t", "T", "D", "icon", AppCategory::Utilities, "x");
    assert_eq!(status_text(&app), "Available");
    app.command = None;
    assert_eq!(status_text(&app), "Not installed");
}

#[test]
fn activation_decisions() {
    let about = App::native("org.muaaz.about", "About", "", "", AppCategory::System);
    assert!(matches!(activation_for(&about), Activation::ShowAbout));
    let other = App::native("org.muaaz.other", "Other", "", "", AppCategory::System);
    match activation_for(&other) {
        Activation::Notify(m) => assert_eq!(m, "Other is not available yet"),
        _ => panic!(),
    }
    let planned = App::planned("org.muaaz.about", "About", "", "", AppCategory::System);
    match activation_for(&planned) {
        Activation::Notify(m) => assert_eq!(m, "About is not available yet"),
        _ => panic!(),
    }
    let mut host = App::host("org.h", "Files", "", "", AppCategory::Files, "nautilus");
    match activation_for(&host) {
        Activation::Spawn(c) => assert_eq!(c, "nautilus"),
        _ => panic!(),
    }
    host.command = None;
    match activation_for(&host) {
        Activation::Notify(m) => assert_eq!(m, "Files has no launch command"),
        _ => panic!(),
    }
    let e = std::io::Error::new(std::io::ErrorKind::NotFound, "no such file");
    assert_eq!(spawn_failed_message(&host, &e), "Failed to start Files: no such file");
}

#[test]
fn launcher_search() {
    let apps = vec![
        App::native("org.muaaz.about", "About", "About Muaaz OS", "", AppCategory::System),
        App::host("org.muaaz.files", "Files", "Browse files", "", AppCategory::Files, "nautilus"),
    ];
    assert!(row_visible(&apps, 0, ""));
    assert!(row_visible(&apps, 7, ""));
    assert!(!row_visible(&apps, 7, "a"));
    assert!(row_visible(&apps, 0, "ABOUT"));
    assert!(row_visible(&apps, 1, "browse"));
    assert!(row_visible(&apps, 1, "muaaz.fi"));
    assert!(!row_visible(&apps, 1, "about"));
    assert!(!row_visible(&apps, 0, "ORG.MUAAZ.ABOUT X"));
    assert_eq!(app_for_row(&apps, "org.muaaz.files"), Some(1));
    assert_eq!(app_for_row(&apps, "files"), None);
}

#[test]
fn battery_readout() {
    let hidden = BatteryStateInfo::default();
    assert_eq!(battery_label(&hidden), None);
    let charging = BatteryStateInfo { percentage: 87, state: BatteryState::Charging, present: true };
    assert_eq!(battery_label(&charging).as_deref(), Some("87% +"));
    let full = BatteryStateInfo { percentage: 100, state: BatteryState::Full, present: true };
    assert_eq!(battery_label(&full).as_deref(), Some("100%"));
    let low = BatteryStateInfo { percentage: 5, state: BatteryState::Discharging, present: true };
    assert_eq!(battery_label(&low).as_deref(), Some("5%"));
}

#[test]
fn decimal_text_values() {
    for n in 0..=255u8 {
        assert_eq!(decimal_text(n), n.to_string());
    }
}

#[test]
fn system_apps_are_registered_in_order() {
    let mut registry = LinuxAppRegistry::new();
    registry.register(App::native("org.muaaz.keep", "Keep", "", "", AppCategory::Unknown));
    registry.register(App::native("org.muaaz.files", "Old files", "", "", AppCategory::Files));
    register_system_apps(&mut registry);
    let list = registry.list();
    let ids: Vec<&str> = list.iter().map(|a| a.id.as_str()).collect();
    assert_eq!(
        ids,
        vec![
            "org.muaaz.keep",
            "org.muaaz.about",
            "org.muaaz.terminal",
            "org.muaaz.files",
            "org.muaaz.settings",
            "org.muaaz.software",
        ]
    );
    assert_eq!(list[3].name, "Files");
    assert_eq!(list[3].command.as_deref(), Some("nautilus"));
    assert_eq!(list[5].kind, AppKind::Planned);
    assert_eq!(list[1].kind, AppKind::Native);
}
