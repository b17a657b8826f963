use muaaz::apps::program_name;
use muaaz::{App, AppCategory, AppId, AppKind, LaunchError, LinuxAppRegistry};

fn sample_registry() -> LinuxAppRegistry {
    let mut registry = LinuxAppRegistry::new();
    registry.register(App::native(
        "org.muaaz.about",
        "About",
        "About Muaaz OS",
        "help-about",
        AppCategory::System,
    ));
    registry.register(App::planned(
        "org.muaaz.software",
        "Software",
        "Install applications",
        "system-software-install",
        AppCategory::Utilities,
    ));
    registry
}

#[test]
fn lists_all_registered() {
    let registry = sample_registry();
    assert_eq!(registry.list().len(), 2);
}

#[test]
fn planned_app_cannot_launch() {
    let registry = sample_registry();
    let result = registry.launch_request(&AppId::new("org.muaaz.software"));
    assert!(matches!(result, Err(LaunchError::NotImplemented(_))));
}

#[test]
fn unknown_app_cannot_launch() {
    let registry = sample_registry();
    let result = registry.launch_request(&AppId::new("org.muaaz.missing"));
    assert!(matches!(result, Err(LaunchError::NotImplemented(_))));
}

#[test]
fn register_replaces_same_id() {
    let mut registry = sample_registry();
    registry.register(App::planned(
        "org.muaaz.about",
        "About (new)",
        "replacement",
        "help-about",
        AppCategory::System,
    ));
    let replaced = registry
        .list()
        .into_iter()
        .find(|a| a.id.as_str() == "org.muaaz.about")
        .unwrap();
    assert_eq!(replaced.summary, "replacement");
    assert_eq!(registry.list().len(), 2);
}

#[test]
fn register_moves_replaced_entry_last_and_keeps_order() {
    let mut registry = sample_registry();
    registry.register(App::native("org.muaaz.x", "X", "x", "x", AppCategory::Unknown));
    registry.register(App::planned("org.muaaz.about", "About 2", "s", "i", AppCategory::System));
    let ids: Vec<String> = registry.list().iter().map(|a| a.id.to_string()).collect();
    assert_eq!(ids, vec!["org.muaaz.software", "org.muaaz.x", "org.muaaz.about"]);
    assert_eq!(registry.list()[2].name, "About 2");
    assert_eq!(registry.list()[2].kind, AppKind::Planned);
    registry.register(App::planned("org.muaaz.about", "About 2", "s", "i", AppCategory::System));
    assert_eq!(registry.list().len(), 3);
}

#[test]
fn constructors_fill_fields() {
    let a = App::host("org.t", "T", "S", "I", AppCategory::Development, "foot -e sh");
    assert_eq!(a.id.as_str(), "org.t");
    assert_eq!(a.name, "T");
    assert_eq!(a.summary, "S");
    assert_eq!(a.icon_name, "I");
    assert_eq!(a.category, AppCategory::Development);
    assert_eq!(a.kind, AppKind::Host);
    assert_eq!(a.command.as_deref(), Some("foot -e sh"));
    let n = App::native("org.n", "N", "S", "I", AppCategory::Files);
    assert_eq!(n.kind, AppKind::Native);
    assert!(n.command.is_none());
    let p = App::planned("org.p", "P", "S", "I", AppCategory::Utilities);
    assert_eq!(p.kind, AppKind::Planned);
    assert!(p.command.is_none());
}

#[test]
fn native_app_cannot_launch() {
    let registry = sample_registry();
    let result = registry.launch_request(&AppId::new("org.muaaz.about"));
    match result {
        Err(LaunchError::NotImplemented(id)) => assert_eq!(id.as_str(), "org.muaaz.about"),
        _ => panic!("expected NotImplemented"),
    }
}

#[test]
fn host_app_launch_steps() {
    let mut registry = sample_registry();
    registry.register(App::host(
        "org.muaaz.terminal",
        "Terminal",
        "System terminal",
        "utilities-terminal-symbolic",
        AppCategory::Development,
        "  x-terminal-emulator --title muaaz",
    ));
    let request = registry
        .launch_request(&AppId::new("org.muaaz.terminal"))
        .unwrap();
    assert_eq!(request.id.as_str(), "org.muaaz.terminal");
    assert_eq!(request.command, "  x-terminal-emulator --title muaaz");
    assert_eq!(request.program, "x-terminal-emulator");
    let cmd = request.resolve_command(true).unwrap();
    assert_eq!(cmd, "  x-terminal-emulator --title muaaz");

    let request = registry
        .launch_request(&AppId::new("org.muaaz.terminal"))
        .unwrap();
    match request.resolve_command(false) {
        Err(LaunchError::NotImplemented(id)) => assert_eq!(id.as_str(), "org.muaaz.terminal"),
        _ => panic!("expected NotImplemented"),
    }
}

#[test]
fn host_app_without_command_is_missing_command() {
    let mut registry = LinuxAppRegistry::new();
    let mut app = App::host("org.h", "H", "S", "I", AppCategory::System, "cmd");
    app.command = None;
    registry.register(app);
    let result = registry.launch_request(&AppId::new("org.h"));
    match result {
        Err(LaunchError::MissingCommand(id)) => assert_eq!(id.as_str(), "org.h"),
        _ => panic!("expected MissingCommand"),
    }
}

#[test]
fn program_name_is_first_word_or_command() {
    assert_eq!(program_name("nautilus --new-window"), "nautilus");
    assert_eq!(program_name("\tgnome-control-center"), "gnome-control-center");
    assert_eq!(program_name("   "), "   ");
    assert_eq!(program_name(""), "");
}

#[test]
fn launch_error_messages() {
    let e = LaunchError::NotImplemented(AppId::new("org.a"));
    assert_eq!(e.to_string(), "org.a is not implemented yet");
    let e = LaunchError::MissingCommand(AppId::new("org.a"));
    assert_eq!(e.to_string(), "org.a has no launch command configured");
    let io = std::io::Error::new(std::io::ErrorKind::NotFound, "gone");
    let e = LaunchError::Spawn(AppId::new("org.a"), io);
    assert_eq!(e.to_string(), "org.a failed to start: gone");
}

#[test]
fn find_returns_index() {
    let registry = sample_registry();
    assert_eq!(registry.find(&AppId::new("org.muaaz.software")), Some(1));
    assert_eq!(registry.find(&AppId::new("org.muaaz.nope")), None);
}

#[test]
fn registered_app_is_found_last() {
    let mut registry = sample_registry();
    registry.register(App::host("org.muaaz.about", "A", "S", "I", AppCategory::System, "true"));
    assert_eq!(registry.find(&AppId::new("org.muaaz.about")), Some(1));
    let request = registry.launch_request(&AppId::new("org.muaaz.about")).unwrap();
    assert_eq!(request.command, "true");
    assert_eq!(request.program, "true");
}
