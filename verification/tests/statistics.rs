use grpc_webrtc_rsbridge::stats::{ReportStep, StatValue, Stats};

fn report(value: StatValue) -> String {
    Stats::report(value).unwrap()
}

#[test]
fn plain_values_are_reported() {
    assert_eq!(report(StatValue::Text("a\"b".to_string())), "\"a\\\"b\"");
    assert_eq!(report(StatValue::Bool(true)), "true");
    assert_eq!(report(StatValue::I32(-7)), "-7");
    assert_eq!(report(StatValue::U32(u32::MAX)), "4294967295");
    assert_eq!(report(StatValue::I64(i64::MIN)), "-9223372036854775808");
    assert_eq!(report(StatValue::U64(u64::MAX)), "18446744073709551615");
    assert_eq!(report(StatValue::Float(serde_json::Value::from(0.5f64))), "0.5");
    assert_eq!(report(StatValue::Float(serde_json::Value::from(f64::NAN))), "null");
    assert_eq!(report(StatValue::Written("x".to_string())), "\"x\"");
    assert!(Stats::report(StatValue::Other).is_none());
    assert!(Stats::serialize_value(StatValue::Other).is_none());
}

#[test]
fn flags_are_joined() {
    assert_eq!(report(StatValue::Flags(vec![])), "\"\"");
    assert_eq!(report(StatValue::Flags(vec!["a".to_string()])), "\"a\"");
    assert_eq!(
        report(StatValue::Flags(vec!["a".to_string(), "b".to_string(), "c".to_string()])),
        "\"a+b+c\""
    );
}

#[test]
fn structures_leave_out_what_has_no_form() {
    let value = StatValue::Structure(vec![
        ("b".to_string(), StatValue::I32(1)),
        ("gone".to_string(), StatValue::Other),
        (
            "a".to_string(),
            StatValue::Array(vec![
                StatValue::Bool(false),
                StatValue::Other,
                StatValue::Structure(vec![]),
            ]),
        ),
        ("b".to_string(), StatValue::I32(2)),
    ]);
    assert_eq!(report(value), "{\"a\":[false,{}],\"b\":2}");
}

#[test]
fn serialized_values_are_documents() {
    let value = StatValue::Structure(vec![("n".to_string(), StatValue::U64(3))]);
    let document = Stats::serialize_value(value).unwrap();
    assert_eq!(document.get("n").and_then(|n| n.as_u64()), Some(3));
}

#[test]
fn listeners_get_random_identifiers() {
    let mut stats = Stats::new();
    let a = stats.accept_connection();
    let b = stats.accept_connection();
    assert_ne!(a, b);
    assert_eq!(stats.recipients(), vec![a, b]);
    for id in [a, b] {
        assert_eq!(id >> 76 & 0xF, 4);
        assert_eq!(id >> 62 & 0x3, 2);
    }
}

#[test]
fn failed_listeners_leave() {
    let mut stats = Stats::new();
    for id in [1, 2, 3, 4] {
        stats.add_listener(id);
    }
    stats.send_failed(2);
    stats.send_failed(4);
    assert_eq!(stats.recipients(), vec![1, 3]);
    stats.add_listener(3);
    stats.add_listener(5);
    stats.send_failed(3);
    assert_eq!(stats.recipients(), vec![1, 3, 5]);
}

#[test]
fn reports_stop_with_the_connection() {
    assert_eq!(Stats::on_tick(true), ReportStep::Collect);
    assert_eq!(Stats::on_tick(false), ReportStep::Stop);
    assert_eq!(Stats::address(), "127.0.0.1:8484");
}
