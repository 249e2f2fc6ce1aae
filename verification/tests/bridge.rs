use power_bridge::dispatch::{format_log_line, handle_event, plan, Action};
use power_bridge::route::{is_power, route_key};

#[test]
fn route_key_takes_last_segment() {
    assert_eq!(route_key(b"home/sensors/power"), b"power".to_vec());
    assert_eq!(route_key(b"home/sensors/temperature"), b"temperature".to_vec());
    assert_eq!(route_key(b"a//b"), b"b".to_vec());
}

#[test]
fn route_key_of_single_segment_is_whole_topic() {
    assert_eq!(route_key(b"power"), b"power".to_vec());
    assert_eq!(route_key(b"temperature"), b"temperature".to_vec());
}

#[test]
fn route_key_after_trailing_separator_is_empty() {
    assert_eq!(route_key(b"home/power/"), b"".to_vec());
}

#[test]
fn is_power_only_on_exact_key() {
    assert!(is_power(b"power"));
    assert!(!is_power(b"Power"));
    assert!(!is_power(b"powers"));
    assert!(!is_power(b"pow"));
    assert!(!is_power(b""));
}

#[test]
fn format_log_line_exact_bytes() {
    let line = format_log_line(b"2024-05-01 12:00:00 UTC", b"temperature", b"21.0");
    assert_eq!(line, b"[2024-05-01 12:00:00 UTC] temperature: 21.0".to_vec());
}

#[test]
fn power_message_plans_one_insert_with_value() {
    // topic `home/sensors/power`, payload b"42.5": one row with value 42.5,
    // no console output.
    let action = plan(b"home/sensors/power", b"42.5", b"ts");
    match action {
        Action::Insert { text } => {
            assert_eq!(text, b"42.5".to_vec());
            let value: f64 = String::from_utf8(text).unwrap().parse().unwrap();
            assert_eq!(value, 42.5);
        }
        Action::Log { .. } => panic!("a power reading must not be logged"),
    }
}

#[test]
fn non_power_message_plans_one_log_line() {
    // topic `home/sensors/temperature`, payload b"21.0": one console line,
    // no row inserted.
    let action = plan(b"home/sensors/temperature", b"21.0", b"2024-05-01 12:00:00 UTC");
    match action {
        Action::Insert { .. } => panic!("a non-power message must not be stored"),
        Action::Log { line } => {
            assert_eq!(line, b"[2024-05-01 12:00:00 UTC] temperature: 21.0".to_vec());
        }
    }
}

#[test]
fn invalid_power_payload_fails_to_parse() {
    // topic `home/sensors/power`, payload b"not-a-number": the planned text
    // is not a number, so the operation fails and no row is written.
    let action = plan(b"home/sensors/power", b"not-a-number", b"ts");
    match action {
        Action::Insert { text } => {
            assert!(String::from_utf8(text).unwrap().parse::<f64>().is_err());
        }
        Action::Log { .. } => panic!("a power reading must not be logged"),
    }
}

#[test]
fn empty_and_malformed_power_payloads_fail_to_parse() {
    for payload in [&b""[..], b"abc", b"12.3.4"] {
        let action = plan(b"power", payload, b"ts");
        match action {
            Action::Insert { text } => {
                assert!(String::from_utf8(text).unwrap().parse::<f64>().is_err());
            }
            Action::Log { .. } => panic!("a power reading must not be logged"),
        }
    }
}

#[test]
fn single_segment_power_topic_still_routes_power() {
    // topic `power`, payload b"10": still routes as "power", one row with
    // value 10.
    let action = plan(b"power", b"10", b"ts");
    match action {
        Action::Insert { text } => {
            assert_eq!(text, b"10".to_vec());
            let value: f64 = String::from_utf8(text).unwrap().parse().unwrap();
            assert_eq!(value, 10.0);
        }
        Action::Log { .. } => panic!("a power reading must not be logged"),
    }
}

#[test]
fn invalid_utf8_payload_is_decoded_lossily() {
    let action = plan(b"home/sensors/temperature", &[0xff, b'a'], b"ts");
    match action {
        Action::Insert { .. } => panic!("a non-power message must not be stored"),
        Action::Log { line } => {
            let mut expected = b"[ts] temperature: ".to_vec();
            expected.extend_from_slice("\u{fffd}a".as_bytes());
            assert_eq!(line, expected);
        }
    }
}

#[test]
fn duplicate_power_messages_plan_two_inserts() {
    // No deduplication: the same message handled twice asks for two rows.
    let first = plan(b"home/sensors/power", b"42.5", b"ts");
    let second = plan(b"home/sensors/power", b"42.5", b"ts");
    assert!(matches!(first, Action::Insert { .. }));
    assert!(matches!(second, Action::Insert { .. }));
}

#[test]
fn handle_event_routes_power_to_insert() {
    let action = handle_event(b"home/sensors/power", b"7.25");
    match action {
        Action::Insert { text } => assert_eq!(text, b"7.25".to_vec()),
        Action::Log { .. } => panic!("a power reading must not be logged"),
    }
}

#[test]
fn handle_event_routes_other_topics_to_log() {
    let action = handle_event(b"home/sensors/humidity", b"55");
    match action {
        Action::Insert { .. } => panic!("a non-power message must not be stored"),
        Action::Log { line } => {
            assert_eq!(line[0], b'[');
            let text = String::from_utf8(line).unwrap();
            assert!(text.ends_with("] humidity: 55"));
        }
    }
}
