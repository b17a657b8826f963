use muaaz::DesktopConfig;

#[test]
fn defaults_are_sane() {
    let config = DesktopConfig::load();
    assert!(config.window_width >= config.min_window_width);
    assert!(config.window_height >= config.min_window_height);
    assert!(config.clock_interval_secs >= 1);
    assert!(config.shortcut_max_columns >= 1);
}

#[test]
fn default_values() {
    let config = DesktopConfig::load();
    assert_eq!(config.window_width, 1180);
    assert_eq!(config.window_height, 760);
    assert_eq!(config.min_window_width, 720);
    assert_eq!(config.min_window_height, 480);
    assert_eq!(config.clock_interval_secs, 1);
    assert_eq!(config.status_interval_secs, 2);
    assert_eq!(config.shortcut_max_columns, 5);
    assert_eq!(config.version, "0.1");
    assert_eq!(config.clone().version, "0.1");
}
