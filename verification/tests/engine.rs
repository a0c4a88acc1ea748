use sentinel::alerts::{AlertInfo, AlertLevel};
use sentinel::config::EnvConfig;
use sentinel::cooldown::CooldownGate;
use sentinel::dispatch::{admit_alert, DispatchDecision};
use sentinel::limiter::PermitPool;
use sentinel::manager::AlertManager;
use sentinel::monitor::{
    offline_message, online_message, poll_interval, LinkMonitor, LinkTransition, PingTarget,
    ServiceCheckAction, ServiceState,
};
use sentinel::recipients::CommunicationRecipient;
use sentinel::registry::CommunicationRegistry;

fn config_with_pushover() -> EnvConfig {
    EnvConfig {
        alarm_cooldown: 300,
        alerts_retry_max: 3,
        alerts_retry_delay: 2,
        alerts_retry_max_delay: 100,
        alerts_concurrency_limit: 3,
        pushover_token: Some("token".to_string()),
        pushover_users: Some(vec![CommunicationRecipient {
            target: "user".to_string(),
            min_level: AlertLevel::Info,
        }]),
        text_anywhere_originator: None,
        text_anywhere_username: None,
        text_anywhere_password: None,
        text_anywhere_destinations: None,
        sms_url: None,
        sms_recipients: None,
    }
}

#[test]
fn severity_order_is_fixed() {
    assert!(AlertLevel::Info.rank() < AlertLevel::Warning.rank());
    assert!(AlertLevel::Warning.rank() < AlertLevel::Critical.rank());
    assert!(AlertLevel::Critical.rank() < AlertLevel::Alarm.rank());
    assert!(AlertLevel::Alarm.is_alarm());
    assert!(!AlertLevel::Critical.is_alarm());
    assert_eq!(AlertLevel::try_from_rank(2), Some(AlertLevel::Critical));
    assert_eq!(AlertLevel::try_from_rank(4), None);
}

#[test]
fn alert_new_stamps_current_time() {
    let alert = AlertInfo::new("internet".to_string(), "offline".to_string(), AlertLevel::Warning)
        .expect("clock");
    assert_eq!(alert.source, "internet");
    assert_eq!(alert.message, "offline");
    assert_eq!(alert.level, AlertLevel::Warning);
    assert!(alert.timestamp.is_some());
    assert!(alert.timestamp.unwrap() > 0);
}

#[test]
fn alert_display_line() {
    let alert = AlertInfo {
        source: "cctv".to_string(),
        message: "not responding".to_string(),
        level: AlertLevel::Critical,
        timestamp: None,
    };
    assert_eq!(alert.display_string(), "cctv - not responding");
}

#[test]
fn non_alarm_events_are_never_suppressed() {
    let mut gate = CooldownGate::new(300);
    for _ in 0..2 {
        let d = admit_alert(&mut gate, AlertLevel::Warning, 100);
        assert_eq!(d, DispatchDecision::Dispatch { bypass_limiter: false });
    }
    let d = admit_alert(&mut gate, AlertLevel::Info, 100);
    assert_eq!(d, DispatchDecision::Dispatch { bypass_limiter: false });
    assert_eq!(gate.last_alarm, None);
}

#[test]
fn second_alarm_within_window_is_suppressed() {
    let mut gate = CooldownGate::new(300);
    let d1 = admit_alert(&mut gate, AlertLevel::Alarm, 1000);
    assert_eq!(d1, DispatchDecision::Dispatch { bypass_limiter: true });
    let d2 = admit_alert(&mut gate, AlertLevel::Alarm, 1299);
    assert_eq!(d2, DispatchDecision::Suppressed);
    assert_eq!(gate.last_alarm, Some(1000));
}

#[test]
fn alarms_a_window_apart_both_dispatch() {
    let mut gate = CooldownGate::new(300);
    let d1 = admit_alert(&mut gate, AlertLevel::Alarm, 1000);
    let d2 = admit_alert(&mut gate, AlertLevel::Alarm, 1300);
    assert_eq!(d1, DispatchDecision::Dispatch { bypass_limiter: true });
    assert_eq!(d2, DispatchDecision::Dispatch { bypass_limiter: true });
    assert_eq!(gate.last_alarm, Some(1300));
}

#[test]
fn suppressed_alarm_does_not_extend_the_window() {
    let mut gate = CooldownGate::new(300);
    admit_alert(&mut gate, AlertLevel::Alarm, 1000);
    admit_alert(&mut gate, AlertLevel::Alarm, 1200);
    let d3 = admit_alert(&mut gate, AlertLevel::Alarm, 1300);
    assert_eq!(d3, DispatchDecision::Dispatch { bypass_limiter: true });
}

#[test]
fn permit_pool_bounds_concurrency() {
    let mut pool = PermitPool::new(3);
    let mut granted = 0;
    for _ in 0..7 {
        if pool.try_acquire() {
            granted += 1;
        }
    }
    assert_eq!(granted, 3);
    pool.release();
    assert!(pool.try_acquire());
    assert!(!pool.try_acquire());
}

#[test]
fn manager_resumes_counter_above_existing_ids() {
    let registry = CommunicationRegistry::new(config_with_pushover()).expect("providers");
    let mut manager = AlertManager::new(&config_with_pushover(), registry);
    assert_eq!(manager.next_state_id, 0);
    manager.resume_counter(&vec![3, 7, 2]);
    assert_eq!(manager.next_state_id, 8);
    assert_eq!(manager.fresh_state_id(), 8);
    assert_eq!(manager.fresh_state_id(), 9);
    assert_eq!(manager.next_state_id, 10);
}

#[test]
fn manager_keeps_counter_with_no_leftover_records() {
    let registry = CommunicationRegistry::new(config_with_pushover()).expect("providers");
    let mut manager = AlertManager::new(&config_with_pushover(), registry);
    manager.resume_counter(&vec![]);
    assert_eq!(manager.next_state_id, 0);
}

#[test]
fn manager_admits_like_the_gate() {
    let registry = CommunicationRegistry::new(config_with_pushover()).expect("providers");
    let mut manager = AlertManager::new(&config_with_pushover(), registry);
    let d1 = manager.admit_alert(AlertLevel::Alarm, 50);
    let d2 = manager.admit_alert(AlertLevel::Alarm, 60);
    let d3 = manager.admit_alert(AlertLevel::Info, 60);
    assert_eq!(d1, DispatchDecision::Dispatch { bypass_limiter: true });
    assert_eq!(d2, DispatchDecision::Suppressed);
    assert_eq!(d3, DispatchDecision::Dispatch { bypass_limiter: false });
}

#[test]
fn link_monitor_reports_only_edges() {
    let mut link = LinkMonitor::new();
    assert_eq!(link.observe(true), None);
    assert_eq!(link.observe(false), Some(LinkTransition::WentOffline));
    assert_eq!(link.observe(false), None);
    assert_eq!(link.observe(true), Some(LinkTransition::CameOnline));
}

#[test]
fn poll_interval_halves_on_error() {
    assert_eq!(poll_interval(60, true), 60);
    assert_eq!(poll_interval(60, false), 30);
    assert_eq!(poll_interval(3, false), 1);
    assert_eq!(poll_interval(1, false), 1);
    assert_eq!(poll_interval(0, false), 1);
}

#[test]
fn service_supervisor_announces_each_outage_once() {
    let mut service = ServiceState::new(AlertLevel::Critical);
    assert_eq!(service.on_check(false, 3), ServiceCheckAction::AttemptRestart);
    assert_eq!(service.on_restart_result(false), ServiceCheckAction::AnnounceOffline);
    assert_eq!(service.on_check(false, 3), ServiceCheckAction::AttemptRestart);
    assert_eq!(service.on_restart_result(false), ServiceCheckAction::Nothing);
    assert_eq!(service.on_check(true, 3), ServiceCheckAction::AnnounceOnline);
    assert_eq!(service.on_check(true, 3), ServiceCheckAction::Nothing);
    assert_eq!(service.retry_count, 0);
}

#[test]
fn service_supervisor_gives_up_past_the_budget() {
    let mut service = ServiceState::new(AlertLevel::Warning);
    for _ in 0..2 {
        assert_eq!(service.on_check(false, 2), ServiceCheckAction::AttemptRestart);
    }
    assert_eq!(service.on_check(false, 2), ServiceCheckAction::AnnounceOffline);
    assert_eq!(service.on_check(false, 2), ServiceCheckAction::Nothing);
    assert!(service.is_offline);
}

#[test]
fn restart_success_resets_the_budget() {
    let mut service = ServiceState::new(AlertLevel::Warning);
    assert_eq!(service.on_check(false, 3), ServiceCheckAction::AttemptRestart);
    assert_eq!(service.on_restart_result(true), ServiceCheckAction::Nothing);
    assert_eq!(service.retry_count, 0);
    assert!(!service.is_offline);
}

#[test]
fn ping_target_defaults_and_rank_check() {
    let t = PingTarget::from_parts("nvr".to_string(), "10.0.0.9:80".to_string(), 2, None, Some(30))
        .expect("valid rank");
    assert_eq!(t.level, AlertLevel::Critical);
    assert_eq!(t.timeout, 5);
    assert_eq!(t.interval, 30);
    assert!(PingTarget::from_parts("x".to_string(), "y".to_string(), 9, None, None).is_none());
}

#[test]
fn supervisor_messages() {
    assert_eq!(
        offline_message("security_alarm_modem", 3),
        "security_alarm_modem is OFFLINE after 3 attempts to restart!"
    );
    assert_eq!(online_message("security_alarm_modem"), "security_alarm_modem is now ONLINE!");
}
