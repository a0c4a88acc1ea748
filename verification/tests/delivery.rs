use sentinel::alerts::AlertLevel;
use sentinel::config::EnvConfig;
use sentinel::recipients::{filter_recipients, CommunicationRecipient};
use sentinel::registry::{aggregate_reports, BroadcastOutcome, CommunicationRegistry};
use sentinel::retry::{run_retry, RetryDecision, RetryPolicy, RetryState, SendOutcome};

fn recipient(target: &str, min_level: AlertLevel) -> CommunicationRecipient {
    CommunicationRecipient { target: target.to_string(), min_level }
}

fn policy(retry_max: u64) -> RetryPolicy {
    RetryPolicy { retry_max, base_delay: 2, max_delay: 100 }
}

#[test]
fn recipients_filter_by_minimum_severity() {
    let recipients = vec![recipient("A", AlertLevel::Warning), recipient("B", AlertLevel::Alarm)];
    assert_eq!(filter_recipients(&recipients, AlertLevel::Info), Vec::<usize>::new());
    assert_eq!(filter_recipients(&recipients, AlertLevel::Warning), vec![0]);
    assert_eq!(filter_recipients(&recipients, AlertLevel::Alarm), vec![0, 1]);
}

#[test]
fn retry_delivers_late_recipient_within_budget() {
    // A fails on the first two attempts and succeeds on the third; B
    // succeeds at once. Both end delivered, within the attempt budget.
    let recipients = vec![recipient("A", AlertLevel::Info), recipient("B", AlertLevel::Info)];
    let outcomes = vec![
        SendOutcome::Completed { failed: vec![0] },
        SendOutcome::Completed { failed: vec![0] },
        SendOutcome::Completed { failed: vec![] },
    ];
    let report = run_retry(&recipients, AlertLevel::Info, policy(3), &outcomes);
    assert_eq!(report.delivered, vec![1, 0]);
    assert_eq!(report.unsent, Vec::<usize>::new());
    assert_eq!(report.attempts, 3);
    assert!(report.attempts <= 3);
    assert!(!report.unavailable);
}

#[test]
fn retry_stops_after_budget_and_reports_unsent() {
    let recipients = vec![recipient("A", AlertLevel::Info)];
    let outcomes = vec![
        SendOutcome::Completed { failed: vec![0] },
        SendOutcome::Completed { failed: vec![0] },
        SendOutcome::Completed { failed: vec![0] },
    ];
    let report = run_retry(&recipients, AlertLevel::Info, policy(3), &outcomes);
    assert_eq!(report.attempts, 3);
    assert_eq!(report.delivered, Vec::<usize>::new());
    assert_eq!(report.unsent, vec![0]);
    assert!(!report.unavailable);
}

#[test]
fn retry_aborts_on_unavailable_provider() {
    let recipients = vec![recipient("A", AlertLevel::Info), recipient("B", AlertLevel::Info)];
    let outcomes = vec![
        SendOutcome::Unavailable,
        SendOutcome::Completed { failed: vec![] },
    ];
    let report = run_retry(&recipients, AlertLevel::Info, policy(2), &outcomes);
    assert_eq!(report.attempts, 1);
    assert!(report.unavailable);
    assert_eq!(report.unsent, vec![0, 1]);
}

#[test]
fn retry_skips_provider_with_no_targeted_recipient() {
    let recipients = vec![recipient("A", AlertLevel::Alarm)];
    let outcomes = vec![
        SendOutcome::Completed { failed: vec![] },
        SendOutcome::Completed { failed: vec![] },
    ];
    let report = run_retry(&recipients, AlertLevel::Info, policy(2), &outcomes);
    assert_eq!(report.targets, Vec::<usize>::new());
    assert_eq!(report.attempts, 0);
    assert_eq!(report.delivered, Vec::<usize>::new());
}

#[test]
fn retry_state_shrinks_the_pending_set() {
    let recipients = vec![
        recipient("A", AlertLevel::Info),
        recipient("B", AlertLevel::Info),
        recipient("C", AlertLevel::Info),
    ];
    let mut st = RetryState::start(&recipients, AlertLevel::Info, policy(3)).expect("targets");
    assert_eq!(st.pending, vec![0, 1, 2]);
    let d1 = st.step(&SendOutcome::Completed { failed: vec![1] });
    assert_eq!(d1, RetryDecision::Retry { delay: 2 });
    assert_eq!(st.pending, vec![1]);
    assert_eq!(st.delivered, vec![0, 2]);
    let d2 = st.step(&SendOutcome::Completed { failed: vec![] });
    assert_eq!(d2, RetryDecision::Done);
    assert_eq!(st.delivered, vec![0, 2, 1]);
}

#[test]
fn retry_state_gives_up_on_the_last_attempt() {
    let recipients = vec![recipient("A", AlertLevel::Info)];
    let mut st = RetryState::start(&recipients, AlertLevel::Info, policy(1)).expect("targets");
    let d = st.step(&SendOutcome::Completed { failed: vec![0] });
    assert_eq!(d, RetryDecision::GiveUp);
    assert_eq!(st.pending, vec![0]);
}

#[test]
fn retry_start_skips_when_nobody_is_subscribed() {
    let recipients = vec![recipient("A", AlertLevel::Critical)];
    assert!(RetryState::start(&recipients, AlertLevel::Info, policy(3)).is_none());
}

#[test]
fn backoff_doubles_up_to_the_ceiling() {
    let p = RetryPolicy { retry_max: 10, base_delay: 2, max_delay: 100 };
    assert_eq!(p.backoff_delay(1), 2);
    assert_eq!(p.backoff_delay(2), 4);
    assert_eq!(p.backoff_delay(3), 8);
    assert_eq!(p.backoff_delay(6), 64);
    assert_eq!(p.backoff_delay(7), 100);
    assert_eq!(p.backoff_delay(40), 100);
    let fixed = RetryPolicy { retry_max: 10, base_delay: 30, max_delay: 30 };
    assert_eq!(fixed.backoff_delay(1), 30);
    assert_eq!(fixed.backoff_delay(5), 30);
}

fn two_provider_config() -> EnvConfig {
    EnvConfig {
        alarm_cooldown: 300,
        alerts_retry_max: 2,
        alerts_retry_delay: 1,
        alerts_retry_max_delay: 10,
        alerts_concurrency_limit: 3,
        pushover_token: Some("token".to_string()),
        pushover_users: Some(vec![recipient("user-a", AlertLevel::Info)]),
        text_anywhere_originator: Some("sentinel".to_string()),
        text_anywhere_username: Some("client-id".to_string()),
        text_anywhere_password: Some("client-pass".to_string()),
        text_anywhere_destinations: Some(vec![recipient("447000000001", AlertLevel::Warning)]),
        sms_url: None,
        sms_recipients: None,
    }
}

#[test]
fn registry_builds_every_constructible_provider() {
    let registry = CommunicationRegistry::new(two_provider_config()).expect("providers");
    assert_eq!(registry.len(), 2);
    assert_eq!(registry.providers[0].name(), "pushover");
    assert_eq!(registry.providers[1].name(), "text_anywhere");
}

#[test]
fn registry_excludes_providers_with_missing_configuration() {
    let mut config = two_provider_config();
    config.text_anywhere_password = None;
    let registry = CommunicationRegistry::new(config).expect("providers");
    assert_eq!(registry.len(), 1);
    assert_eq!(registry.providers[0].name(), "pushover");
}

#[test]
fn registry_with_no_provider_fails_construction() {
    let mut config = two_provider_config();
    config.pushover_token = None;
    config.text_anywhere_username = None;
    assert!(CommunicationRegistry::new(config).is_err());
}

#[test]
fn registry_refuses_empty_recipient_lists() {
    let mut config = two_provider_config();
    config.pushover_users = Some(vec![]);
    config.text_anywhere_destinations = None;
    assert!(CommunicationRegistry::new(config).is_err());
}

#[test]
fn unavailable_provider_aborts_alone() {
    // One provider times out, the other delivers: the broadcast must not
    // read as a total failure.
    let registry = CommunicationRegistry::new(two_provider_config()).expect("providers");
    let traces = vec![
        vec![SendOutcome::Unavailable, SendOutcome::Unavailable],
        vec![
            SendOutcome::Completed { failed: vec![] },
            SendOutcome::Completed { failed: vec![] },
        ],
    ];
    let reports = registry.broadcast(
        AlertLevel::Warning,
        RetryPolicy { retry_max: 2, base_delay: 1, max_delay: 10 },
        &traces,
    );
    assert!(reports[0].unavailable);
    assert_eq!(reports[1].delivered, vec![0]);
    let outcome = aggregate_reports(&reports);
    assert_eq!(outcome, BroadcastOutcome::Delivered { complete: false });
}

#[test]
fn broadcast_with_no_delivery_is_a_total_failure() {
    let registry = CommunicationRegistry::new(two_provider_config()).expect("providers");
    let traces = vec![
        vec![SendOutcome::Unavailable, SendOutcome::Unavailable],
        vec![
            SendOutcome::Completed { failed: vec![0] },
            SendOutcome::Completed { failed: vec![0] },
        ],
    ];
    let reports = registry.broadcast(
        AlertLevel::Warning,
        RetryPolicy { retry_max: 2, base_delay: 1, max_delay: 10 },
        &traces,
    );
    assert_eq!(aggregate_reports(&reports), BroadcastOutcome::TotalFailure);
}

#[test]
fn broadcast_nobody_subscribed_is_a_no_op() {
    let mut config = two_provider_config();
    config.pushover_users = Some(vec![recipient("user-a", AlertLevel::Alarm)]);
    config.text_anywhere_destinations = Some(vec![recipient("447", AlertLevel::Alarm)]);
    let registry = CommunicationRegistry::new(config).expect("providers");
    let traces = vec![
        vec![SendOutcome::Unavailable, SendOutcome::Unavailable],
        vec![SendOutcome::Unavailable, SendOutcome::Unavailable],
    ];
    let reports = registry.broadcast(
        AlertLevel::Info,
        RetryPolicy { retry_max: 2, base_delay: 1, max_delay: 10 },
        &traces,
    );
    assert_eq!(reports[0].attempts, 0);
    assert_eq!(reports[1].attempts, 0);
    assert_eq!(aggregate_reports(&reports), BroadcastOutcome::AllSkipped);
}

#[test]
fn full_delivery_reads_complete() {
    let registry = CommunicationRegistry::new(two_provider_config()).expect("providers");
    let traces = vec![
        vec![
            SendOutcome::Completed { failed: vec![] },
            SendOutcome::Completed { failed: vec![] },
        ],
        vec![
            SendOutcome::Completed { failed: vec![] },
            SendOutcome::Completed { failed: vec![] },
        ],
    ];
    let reports = registry.broadcast(
        AlertLevel::Alarm,
        RetryPolicy { retry_max: 2, base_delay: 1, max_delay: 10 },
        &traces,
    );
    assert_eq!(aggregate_reports(&reports), BroadcastOutcome::Delivered { complete: true });
}
