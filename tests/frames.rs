use live_record::{
    age_changed_frame, error_frame, idle_step, name_changed_frame, next_frame, parse_decimal,
    push_decimal_u8, record_json_with, ChangeEvent, Config, ConfigError, DeliveryFault, Frame,
    NotificationBus, DEFAULT_PORT, KEEP_ALIVE_MS,
};

#[test]
fn frames_as_json() {
    assert_eq!(age_changed_frame(0), "{\"kind\":\"age_changed\",\"value\":{\"age\":0}}");
    assert_eq!(age_changed_frame(255), "{\"kind\":\"age_changed\",\"value\":{\"age\":255}}");
    assert_eq!(name_changed_frame("\"x\""), "{\"kind\":\"name_changed\",\"value\":{\"name\":\"x\"}}");
    assert_eq!(error_frame(), "{\"kind\":\"error\",\"value\":{}}");
    assert_eq!(record_json_with("\"z\"", 9), "{\"name\":\"z\",\"age\":9}");
    let e = ChangeEvent::DeliveryError(DeliveryFault::Lagged);
    assert_eq!(e.to_json(), "{\"kind\":\"error\",\"value\":{}}");
}

#[test]
fn name_frame_escapes_json() {
    let e = ChangeEvent::NameChanged("a\"b\\c".to_string());
    assert_eq!(e.to_json(), "{\"kind\":\"name_changed\",\"value\":{\"name\":\"a\\\"b\\\\c\"}}");
}

#[test]
fn decimal_text_of_bytes() {
    for (n, t) in [(0u8, "0"), (9, "9"), (10, "10"), (99, "99"), (100, "100"), (205, "205"), (255, "255")] {
        let mut s = "x".to_string();
        push_decimal_u8(&mut s, n);
        assert_eq!(s, format!("x{}", t));
    }
}

#[test]
fn decimal_parsing() {
    assert_eq!(parse_decimal("255", 255), Some(255));
    assert_eq!(parse_decimal("256", 255), None);
    assert_eq!(parse_decimal("007", 255), Some(7));
    assert_eq!(parse_decimal("+12", 255), Some(12));
    assert_eq!(parse_decimal("+", 255), None);
    assert_eq!(parse_decimal("", 255), None);
    assert_eq!(parse_decimal("1a", 255), None);
    assert_eq!(parse_decimal("65535", 65535), Some(65535));
    assert_eq!(parse_decimal("99999999999999999999", 65535), None);
}

#[test]
fn idle_stream_keeps_alive() {
    assert!(matches!(idle_step(4_999, 0, KEEP_ALIVE_MS), Frame::Wait(5_000)));
    assert!(matches!(idle_step(5_000, 0, KEEP_ALIVE_MS), Frame::KeepAlive));
    assert!(matches!(idle_step(9_000, 0, KEEP_ALIVE_MS), Frame::KeepAlive));
    assert!(matches!(idle_step(10, u64::MAX - 3, KEEP_ALIVE_MS), Frame::Wait(u64::MAX)));
}

#[test]
fn stream_prefers_events_then_keep_alive() {
    let mut bus = NotificationBus::new(5, 2);
    let s = bus.subscribe().unwrap();
    bus.publish(ChangeEvent::AgeChanged(4));
    assert!(matches!(next_frame(&mut bus, s, 7_000, 0, KEEP_ALIVE_MS), Frame::Event(ChangeEvent::AgeChanged(4))));
    assert!(matches!(next_frame(&mut bus, s, 7_000, 7_000, KEEP_ALIVE_MS), Frame::Wait(12_000)));
    assert!(matches!(next_frame(&mut bus, s, 12_000, 7_000, KEEP_ALIVE_MS), Frame::KeepAlive));
    bus.unsubscribe(s);
    assert!(matches!(next_frame(&mut bus, s, 12_000, 7_000, KEEP_ALIVE_MS), Frame::Closed));
}

#[test]
fn config_defaults() {
    let c = Config::new(None, None).unwrap();
    assert_eq!(c.server_host, "127.0.0.1");
    assert_eq!(c.server_port, 1337);
    assert_eq!(DEFAULT_PORT, 1337);
}

#[test]
fn config_given_values() {
    let c = Config::new(Some("0.0.0.0".to_string()), Some("8080".to_string())).unwrap();
    assert_eq!(c.server_host, "0.0.0.0");
    assert_eq!(c.server_port, 8080);
    let c = Config::new(None, Some("65535".to_string())).unwrap();
    assert_eq!(c.server_port, 65535);
}

#[test]
fn config_bad_port() {
    assert_eq!(Config::new(None, Some("70000".to_string())).unwrap_err(), ConfigError::InvalidPort);
    assert_eq!(Config::new(None, Some("port".to_string())).unwrap_err(), ConfigError::InvalidPort);
    assert_eq!(Config::new(None, Some(String::new())).unwrap_err(), ConfigError::InvalidPort);
}
