use sentinel::alerts::{AlertInfo, AlertLevel};
use sentinel::codec::{decode_alert, encode_alert};

fn sample(level: AlertLevel, timestamp: Option<u64>) -> AlertInfo {
    AlertInfo {
        source: "ping".to_string(),
        message: "NVR is not responding".to_string(),
        level,
        timestamp,
    }
}

fn assert_round_trip(alert: AlertInfo) {
    let bytes = encode_alert(&alert);
    let back = decode_alert(&bytes).expect("a record the engine wrote decodes");
    assert_eq!(back.source, alert.source);
    assert_eq!(back.message, alert.message);
    assert_eq!(back.level, alert.level);
    assert_eq!(back.timestamp, alert.timestamp);
}

#[test]
fn record_round_trips_with_timestamp() {
    assert_round_trip(sample(AlertLevel::Alarm, Some(1700000000)));
}

#[test]
fn record_round_trips_without_timestamp() {
    assert_round_trip(sample(AlertLevel::Info, None));
}

#[test]
fn record_round_trips_each_level() {
    for level in [AlertLevel::Info, AlertLevel::Warning, AlertLevel::Critical, AlertLevel::Alarm] {
        assert_round_trip(sample(level, Some(u64::MAX)));
    }
}

#[test]
fn record_round_trips_empty_strings() {
    assert_round_trip(AlertInfo {
        source: String::new(),
        message: String::new(),
        level: AlertLevel::Warning,
        timestamp: Some(0),
    });
}

#[test]
fn record_round_trips_multibyte_text() {
    assert_round_trip(AlertInfo {
        source: "entrée".to_string(),
        message: "porte ouverte — alarme déclenchée".to_string(),
        level: AlertLevel::Alarm,
        timestamp: Some(42),
    });
}

#[test]
fn empty_record_is_refused() {
    assert!(decode_alert(&vec![]).is_none());
}

#[test]
fn record_with_unknown_level_is_refused() {
    let mut bytes = encode_alert(&sample(AlertLevel::Info, None));
    bytes[0] = 9;
    assert!(decode_alert(&bytes).is_none());
}

#[test]
fn truncated_record_is_refused() {
    let bytes = encode_alert(&sample(AlertLevel::Critical, Some(7)));
    let cut = bytes[..bytes.len() - 1].to_vec();
    assert!(decode_alert(&cut).is_none());
}

#[test]
fn record_with_trailing_bytes_is_refused() {
    let mut bytes = encode_alert(&sample(AlertLevel::Critical, Some(7)));
    bytes.push(0);
    assert!(decode_alert(&bytes).is_none());
}

#[test]
fn record_with_invalid_text_is_refused() {
    let alert = AlertInfo {
        source: "x".to_string(),
        message: String::new(),
        level: AlertLevel::Info,
        timestamp: None,
    };
    let mut bytes = encode_alert(&alert);
    // The one source byte sits right after the flag and the length field.
    let source_pos = 2 + 8;
    assert_eq!(bytes[source_pos], b'x');
    bytes[source_pos] = 0xFF;
    assert!(decode_alert(&bytes).is_none());
}

#[test]
fn resubmitted_alert_encodes_identically() {
    let first = sample(AlertLevel::Warning, Some(123));
    let second = sample(AlertLevel::Warning, Some(123));
    assert_eq!(encode_alert(&first), encode_alert(&second));
}
