use qtbridge::config::{default_host, default_port, Application, Dev};

#[test]
fn default_host_is_loopback() {
    assert_eq!(default_host(), "127.0.0.1");
}

#[test]
fn default_port_is_8790() {
    assert_eq!(default_port(), 8790);
}

#[test]
fn dev_default_uses_the_defaults() {
    let dev = Dev::default();
    assert_eq!(dev.host, "127.0.0.1");
    assert_eq!(dev.port, 8790);
}

#[test]
fn application_default_has_default_dev() {
    let app = Application::default();
    assert_eq!(app.dev.host, "127.0.0.1");
    assert_eq!(app.dev.port, 8790);
}

#[test]
fn dev_with_defaults_fills_missing_fields() {
    let dev = Dev::with_defaults(Some("192.168.1.20".to_string()), None);
    assert_eq!(dev.host, "192.168.1.20");
    assert_eq!(dev.port, 8790);
    let dev = Dev::with_defaults(None, Some(9000));
    assert_eq!(dev.host, "127.0.0.1");
    assert_eq!(dev.port, 9000);
    let dev = Dev::with_defaults(Some("h".to_string()), Some(1));
    assert_eq!(dev.host, "h");
    assert_eq!(dev.port, 1);
}

#[test]
fn application_with_defaults_fills_missing_section() {
    let app = Application::with_defaults(None);
    assert_eq!(app.dev.host, "127.0.0.1");
    assert_eq!(app.dev.port, 8790);
    let app = Application::with_defaults(Some(Dev { host: "10.0.0.2".to_string(), port: 1234 }));
    assert_eq!(app.dev.host, "10.0.0.2");
    assert_eq!(app.dev.port, 1234);
}

#[test]
fn loaded_or_default_keeps_what_was_loaded() {
    let loaded = Application { dev: Dev { host: "dev.local".to_string(), port: 8000 } };
    let app = Application::loaded_or_default(Some(loaded));
    assert_eq!(app.dev.host, "dev.local");
    assert_eq!(app.dev.port, 8000);
}

#[test]
fn loaded_or_default_falls_back_to_defaults() {
    let app = Application::loaded_or_default(None);
    assert_eq!(app.dev.host, "127.0.0.1");
    assert_eq!(app.dev.port, 8790);
}
