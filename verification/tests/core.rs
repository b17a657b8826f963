use muaaz::AppId;

#[test]
fn app_id_roundtrips() {
    let id = AppId::new("org.muaaz.terminal");
    assert_eq!(id.as_str(), "org.muaaz.terminal");
    assert_eq!(id.to_string(), "org.muaaz.terminal");
}

#[test]
fn app_id_equality() {
    assert_eq!(AppId::new("a"), AppId::new("a"));
    assert_ne!(AppId::new("a"), AppId::new("b"));
}

#[test]
fn app_id_validity_check() {
    assert!(!AppId::is_valid("   "));
    assert!(!AppId::is_valid(""));
    assert!(!AppId::is_valid("\t\u{3000}\n"));
    assert!(AppId::is_valid(" a "));
}

#[test]
fn app_id_keeps_surrounding_space() {
    let id = AppId::new(" org.muaaz.x ");
    assert_eq!(id.as_str(), " org.muaaz.x ");
    let as_ref: &str = id.as_ref();
    assert_eq!(as_ref, " org.muaaz.x ");
    assert_eq!(id.clone(), id);
}
