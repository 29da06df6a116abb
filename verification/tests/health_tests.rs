use shadowghost::health::{overall_health, HealthIssue, HealthLevel, HealthMonitor, HealthStatus};
use shadowghost::node::Config;

fn monitor() -> HealthMonitor {
    HealthMonitor::new(Config::for_profile("/data", "id".to_string(), 0))
}

#[test]
fn check_with_storage_present_is_healthy() {
    let mut m = monitor();
    m.perform_health_check_at(true, 50).unwrap();
    assert_eq!(m.get_health_summary(), (HealthLevel::Healthy, 50, 0));
}

#[test]
fn check_without_storage_warns() {
    let mut m = monitor();
    m.start(false).unwrap();
    assert!(m.is_running());
    assert_eq!(m.get_health_summary().0, HealthLevel::Warning);
    assert_eq!(m.get_health_summary().2, 1);
    m.stop().unwrap();
    assert!(!m.is_running());
}

#[test]
fn overall_level_follows_the_worst_problem() {
    let issue = |s: HealthLevel| HealthIssue { component: "c".to_string(), severity: s, message: "m".to_string(), timestamp: 0 };
    assert_eq!(overall_health(&vec![]), HealthLevel::Healthy);
    assert_eq!(overall_health(&vec![issue(HealthLevel::Warning)]), HealthLevel::Warning);
    assert_eq!(overall_health(&vec![issue(HealthLevel::Warning), issue(HealthLevel::Critical)]), HealthLevel::Critical);
}

#[test]
fn network_component_measures_the_port() {
    let m = monitor();
    let n = m.check_network_health(9);
    assert_eq!(n.metrics, vec![("port".to_string(), 8080u64)]);
    assert_eq!(n.status, HealthLevel::Healthy);
    let s = m.check_storage_health(false, 9);
    assert_eq!(s.message, "Storage path issues detected");
}

#[test]
fn unhealthy_status_has_one_system_problem() {
    let s = HealthStatus::unhealthy_at("boom".to_string(), 3);
    assert_eq!(s.overall_health, HealthLevel::Critical);
    assert_eq!(s.issues.len(), 1);
    assert_eq!(s.issues[0].component, "system");
    assert_eq!(HealthStatus::healthy_at(4).overall_health, HealthLevel::Healthy);
    assert_eq!(HealthStatus::default().overall_health, HealthLevel::Unknown);
}

#[test]
fn the_last_status_names_each_component() {
    let mut m = monitor();
    assert_eq!(m.get_health_status().unwrap().overall_health, HealthLevel::Unknown);
    m.perform_health_check_at(false, 77).unwrap();
    let st = m.get_health_status().unwrap();
    assert_eq!(st.last_check, 77);
    let names: Vec<&str> = st.components.iter().map(|(k, _)| k.as_str()).collect();
    assert_eq!(names, vec!["core", "network", "storage"]);
    assert_eq!(st.issues[0].component, "storage");
    assert_eq!(st.issues[0].message, "Storage path issues detected");
}

#[test]
fn a_check_now_keeps_three_components() {
    let mut m = monitor();
    m.perform_health_check(false).unwrap();
    let st = m.get_health_status().unwrap();
    let mut names: Vec<&str> = st.components.iter().map(|(k, _)| k.as_str()).collect();
    names.sort();
    assert_eq!(names, vec!["core", "network", "storage"]);
    assert_eq!(st.issues.len(), 1);
    assert_eq!(st.issues[0].component, "storage");
    assert_eq!(st.issues[0].severity, HealthLevel::Warning);
    assert_eq!(st.issues[0].timestamp, st.last_check);
}

#[test]
fn each_component_carries_its_name_and_message() {
    let mut m = monitor();
    m.perform_health_check_at(true, 9).unwrap();
    let st = m.get_health_status().unwrap();
    for (key, c) in st.components.iter() {
        assert_eq!(c.last_check, 9);
        match key.as_str() {
            "core" => {
                assert_eq!(c.name, "Core System");
                assert_eq!(c.message, "Core system operational");
                assert!(c.metrics.is_empty());
            }
            "network" => {
                assert_eq!(c.name, "Network");
                assert_eq!(c.message, "Network services operational");
                assert_eq!(c.metrics.len(), 1);
                assert_eq!(c.metrics[0].0, "port");
            }
            "storage" => {
                assert_eq!(c.name, "Storage");
                assert_eq!(c.message, "Storage accessible");
            }
            _ => panic!("unexpected component"),
        }
    }
}
