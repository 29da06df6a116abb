use shadowghost::lifecycle::{LifecycleEvent, LifecycleManager, LifecycleState};
use shadowghost::node::Config;

fn manager() -> LifecycleManager {
    LifecycleManager::new(Config::for_profile("/tmp/p", "id".to_string(), 7))
}

#[test]
fn starts_uninitialized_with_empty_history() {
    let m = manager();
    assert_eq!(m.get_current_state(), LifecycleState::Uninitialized);
    assert!(m.get_event_history().is_empty());
    assert_eq!(m.get_uptime(), None);
    assert!(!m.is_running());
    assert!(!m.can_start());
    assert_eq!(m.get_state_duration(), 0);
}

#[test]
fn initialization_then_start_and_stop() {
    let mut m = manager();
    m.begin_initialize();
    assert_eq!(m.get_current_state(), LifecycleState::Initializing);
    m.complete_initialize();
    assert!(m.is_running());
    assert!(m.can_stop());
    assert!(m.get_uptime().is_some());
    assert!(m.begin_start().is_ok());
    assert_eq!(m.get_current_state(), LifecycleState::Starting);
    m.complete_start();
    m.begin_stop();
    m.complete_stop();
    assert!(m.is_stopped());
    assert!(m.can_start());
    let messages: Vec<&str> = m.get_event_history().iter().map(|e| e.message.as_str()).collect();
    assert_eq!(
        messages,
        vec![
            "System initialization started",
            "System initialized successfully",
            "System startup initiated",
            "System fully operational",
            "System shutdown initiated",
            "System stopped successfully",
        ]
    );
}

#[test]
fn start_before_initialization_is_refused() {
    let mut m = manager();
    assert_eq!(m.begin_start(), Err("System must be initialized before starting".to_string()));
    assert_eq!(m.get_current_state(), LifecycleState::Uninitialized);
    assert!(m.get_event_history().is_empty());
}

#[test]
fn emergency_stop_records_reason() {
    let mut m = manager();
    m.emergency_stop("disk full".to_string()).unwrap();
    assert_eq!(m.get_current_state(), LifecycleState::Error);
    assert!(m.is_stopped());
    assert_eq!(m.get_event_history()[0].message, "Emergency stop: disk full");
}

#[test]
fn history_keeps_the_last_fifty() {
    let mut m = manager();
    for i in 0..60u64 {
        m.record_component_event_at("net".to_string(), format!("e{}", i), i);
    }
    let h: &Vec<LifecycleEvent> = m.get_event_history();
    assert_eq!(h.len(), 50);
    assert_eq!(h[0].message, "e10");
    assert_eq!(h[49].message, "e59");
    assert_eq!(h[49].component, Some("net".to_string()));
    assert_eq!(m.state_duration_at(100), 100 - 59);
}

#[test]
fn uptime_counts_from_start() {
    let mut m = manager();
    m.complete_initialize();
    assert_eq!(m.uptime_at(0), None);
    let up = m.get_uptime().unwrap();
    assert!(up < 1_000_000_000_000);
}

#[test]
fn the_state_is_that_of_the_newest_entry() {
    let mut m = manager();
    assert_eq!(m.get_current_state(), LifecycleState::Uninitialized);
    m.begin_initialize();
    m.complete_initialize();
    m.record_component_event_at("db".to_string(), "ok".to_string(), 3);
    let h = m.get_event_history();
    assert_eq!(h.last().unwrap().state, m.get_current_state());
    assert_eq!(m.get_current_state(), LifecycleState::Running);
    assert!(m.get_state_duration() < u64::MAX);
}
