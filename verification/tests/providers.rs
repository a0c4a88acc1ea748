use sentinel::alerts::{AlertInfo, AlertLevel};
use sentinel::providers::{
    body_within_sms_limit, join_targets, parse_result, push_send_outcome, ta_delivery_succeeded,
    text_anywhere_outcome, PushoverConfig, SmsConfig, TextAnywhereConfig,
};
use sentinel::recipients::CommunicationRecipient;
use sentinel::retry::SendOutcome;

fn recipient(target: &str, min_level: AlertLevel) -> CommunicationRecipient {
    CommunicationRecipient { target: target.to_string(), min_level }
}

fn alert(level: AlertLevel) -> AlertInfo {
    AlertInfo {
        source: "internet".to_string(),
        message: "connection lost".to_string(),
        level,
        timestamp: Some(1700000000),
    }
}

#[test]
fn pushover_construction_needs_token_and_users() {
    assert!(PushoverConfig::from_config(None, Some(vec![recipient("u", AlertLevel::Info)]))
        .is_none());
    assert!(PushoverConfig::from_config(Some("t".to_string()), None).is_none());
    assert!(PushoverConfig::from_config(Some("t".to_string()), Some(vec![])).is_none());
    let c = PushoverConfig::from_config(
        Some("t".to_string()),
        Some(vec![recipient("u", AlertLevel::Info)]),
    )
    .expect("constructs");
    assert_eq!(c.token, "t");
    assert_eq!(c.recipients.len(), 1);
}

#[test]
fn pushover_payload_maps_severity_to_priority() {
    let c = PushoverConfig::from_config(
        Some("app-token".to_string()),
        Some(vec![recipient("user-token", AlertLevel::Info)]),
    )
    .expect("constructs");
    let user = "user-token".to_string();
    let p = c.create_payload(&user, &alert(AlertLevel::Info));
    assert_eq!(p.priority, -1);
    assert_eq!(p.retry, None);
    assert_eq!(p.expire, None);
    assert_eq!(c.create_payload(&user, &alert(AlertLevel::Warning)).priority, 0);
    assert_eq!(c.create_payload(&user, &alert(AlertLevel::Critical)).priority, 1);
    let emergency = c.create_payload(&user, &alert(AlertLevel::Alarm));
    assert_eq!(emergency.priority, 2);
    assert_eq!(emergency.retry, Some(30));
    assert_eq!(emergency.expire, Some(1800));
    assert_eq!(emergency.token, "app-token");
    assert_eq!(emergency.user, "user-token");
    assert_eq!(emergency.title, "internet");
    assert_eq!(emergency.message, "connection lost");
    assert_eq!(emergency.timestamp, Some(1700000000));
}

#[test]
fn push_outcome_fails_exactly_the_unreached() {
    let outcome = push_send_outcome(&vec![0, 2, 5], &vec![true, false, true]);
    match outcome {
        SendOutcome::Completed { failed } => assert_eq!(failed, vec![2]),
        SendOutcome::Unavailable => panic!("fan-out always completes"),
    }
}

#[test]
fn sms_message_carries_the_system_name() {
    let c = SmsConfig::from_config(
        Some("http://127.0.0.1:9000".to_string()),
        Some(vec![recipient("447000000001", AlertLevel::Info)]),
    )
    .expect("constructs");
    assert_eq!(c.create_message(&alert(AlertLevel::Critical)), "sentinel - internet - connection lost");
}

#[test]
fn text_anywhere_needs_all_credentials() {
    let c = TextAnywhereConfig::from_config(
        Some("orig".to_string()),
        Some("id".to_string()),
        None,
        Some(vec![recipient("447", AlertLevel::Info)]),
    );
    assert!(c.is_none());
}

#[test]
fn text_anywhere_form_has_the_fixed_fields() {
    let c = TextAnywhereConfig::from_config(
        Some("sentinel".to_string()),
        Some("client-id".to_string()),
        Some("client-pass".to_string()),
        Some(vec![recipient("447000000001", AlertLevel::Info)]),
    )
    .expect("constructs");
    let form = c.create_send_form("hello".to_string(), 5, "447000000001".to_string());
    assert_eq!(form.len(), 11);
    assert_eq!(form[0], ("Client_ID", "client-id".to_string()));
    assert_eq!(form[1], ("Client_Pass", "client-pass".to_string()));
    assert_eq!(form[2], ("Originator", "sentinel".to_string()));
    assert_eq!(form[3], ("Client_Ref", "alarm-5".to_string()));
    assert_eq!(form[4], ("Billing_Ref", "security-alarm".to_string()));
    assert_eq!(form[5], ("Connection", "1".to_string()));
    assert_eq!(form[6], ("OType", "1".to_string()));
    assert_eq!(form[7], ("DestinationEx", "447000000001".to_string()));
    assert_eq!(form[8], ("Body", "hello".to_string()));
    assert_eq!(form[9], ("SMS_Type", "0".to_string()));
    assert_eq!(form[10], ("Reply_Type", "0".to_string()));
}

#[test]
fn destinations_join_with_commas() {
    let recipients = vec![
        recipient("447000000001", AlertLevel::Info),
        recipient("447000000002", AlertLevel::Info),
        recipient("447000000003", AlertLevel::Info),
    ];
    assert_eq!(join_targets(&recipients, &vec![0, 2]), "447000000001,447000000003");
    assert_eq!(join_targets(&recipients, &vec![1]), "447000000002");
    assert_eq!(join_targets(&recipients, &vec![]), "");
}

#[test]
fn sms_body_limit_is_160_bytes() {
    let fits = "a".repeat(160);
    let too_long = "a".repeat(161);
    assert!(body_within_sms_limit(&fits));
    assert!(!body_within_sms_limit(&too_long));
}

#[test]
fn gateway_response_parses_into_pairs() {
    let text = b"447000000001:1,447000000002:0".to_vec();
    let pairs = parse_result(&text);
    assert_eq!(pairs.len(), 2);
    assert_eq!(pairs[0].0, b"447000000001".to_vec());
    assert_eq!(pairs[0].1, b"1".to_vec());
    assert_eq!(pairs[1].0, b"447000000002".to_vec());
    assert_eq!(pairs[1].1, b"0".to_vec());
}

#[test]
fn gateway_response_skips_segments_without_a_colon() {
    let text = b"garbage,447:1,also-garbage".to_vec();
    let pairs = parse_result(&text);
    assert_eq!(pairs.len(), 1);
    assert_eq!(pairs[0].0, b"447".to_vec());
    assert_eq!(pairs[0].1, b"1".to_vec());
}

#[test]
fn gateway_status_one_counts_as_delivery() {
    let ok = parse_result(&b"447:9,448:1".to_vec());
    assert!(ta_delivery_succeeded(&ok));
    let rejected = parse_result(&b"447:9,448:12".to_vec());
    assert!(!ta_delivery_succeeded(&rejected));
}

#[test]
fn gateway_all_rejected_makes_the_provider_unavailable() {
    let ok = parse_result(&b"447:1".to_vec());
    match text_anywhere_outcome(&ok) {
        SendOutcome::Completed { failed } => assert!(failed.is_empty()),
        SendOutcome::Unavailable => panic!("accepted message must complete"),
    }
    let rejected = parse_result(&b"447:0".to_vec());
    assert!(matches!(text_anywhere_outcome(&rejected), SendOutcome::Unavailable));
}
