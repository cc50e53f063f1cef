use gluetun_connector::config::{Config, Environment};
use gluetun_connector::containers::{ContainerState, ContainerSummary, HealthStatus};
use gluetun_connector::docker::ExecOutcome;
use gluetun_connector::failures::FailureCounts;
use gluetun_connector::monitor::{Action, CheckCycle, CycleOutcome, Event, MonitorState};
use gluetun_connector::upstream::{JsonBody, JsonField};

fn config(vars: &[(&str, &str)]) -> Config {
    let e = Environment { vars: vars.iter().map(|(k, v)| (k.to_string(), v.to_string())).collect() };
    match Config::load(&e) {
        Ok(c) => c,
        Err(_) => panic!("valid settings"),
    }
}

fn step(cycle: &mut CheckCycle, c: &Config, f: &mut FailureCounts, e: Event) -> Action {
    assert!(cycle.accepts(c, f, &e), "event not accepted: {e:?}");
    cycle.step(c, f, e)
}

fn running(started: &str, health: Option<HealthStatus>) -> Option<ContainerState> {
    Some(ContainerState { running: Some(true), started_at: Some(started.to_string()), health })
}

fn ip_body(ip: &str) -> Option<JsonBody> {
    Some(JsonBody { members: Some(vec![("public_ip".to_string(), JsonField::Text(ip.to_string()))]) })
}

fn listing() -> Option<Vec<ContainerSummary>> {
    Some(vec![
        ContainerSummary {
            id: Some("abcdef0123456789".to_string()),
            names: Some(vec!["/gluetun".to_string()]),
            network_mode: Some("bridge".to_string()),
        },
        ContainerSummary {
            id: Some("1".to_string()),
            names: Some(vec!["/qbit".to_string()]),
            network_mode: Some("container:gluetun".to_string()),
        },
    ])
}

fn names(v: &[&str]) -> Vec<String> {
    v.iter().map(|s| s.to_string()).collect()
}

fn done(e: i64) -> ExecOutcome {
    ExecOutcome::Finished { exit_code: Some(e), output: String::new() }
}

/// Runs the heal and tunnel phases up to the container list, with Gluetun not running.
fn reach_probes(cycle: &mut CheckCycle, c: &Config, f: &mut FailureCounts, sites: &str) -> Action {
    step(cycle, c, f, Event::Start);
    step(cycle, c, f, Event::Inspected(None));
    step(cycle, c, f, Event::PublicIp(ip_body("1.2.3.4")));
    step(cycle, c, f, Event::Listed(listing()));
    step(cycle, c, f, Event::SitesText(sites.to_string()))
}

#[test]
fn a_cycle_without_tunnel_probes_nothing() {
    let c = config(&[]);
    let mut f = FailureCounts::new();
    f.set(&"a".to_string(), 1);
    let mut cycle = CheckCycle::new();
    match step(&mut cycle, &c, &mut f, Event::Start) {
        Action::InspectContainer { name } => assert_eq!(name, "gluetun"),
        a => panic!("{a:?}"),
    }
    match step(&mut cycle, &c, &mut f, Event::Inspected(None)) {
        Action::FetchPublicIp { url } => assert_eq!(url, "http://gluetun:8000/v1/publicip/ip"),
        a => panic!("{a:?}"),
    }
    match step(&mut cycle, &c, &mut f, Event::PublicIp(ip_body(""))) {
        Action::Finish { outcome } => assert_eq!(outcome, CycleOutcome::TunnelDown),
        a => panic!("{a:?}"),
    }
    assert_eq!(f.to_pairs(), vec![("a".to_string(), 1)]);
}

#[test]
fn stale_dependents_are_restarted_before_the_tunnel_check() {
    let c = config(&[]);
    let mut f = FailureCounts::new();
    let mut cycle = CheckCycle::new();
    step(&mut cycle, &c, &mut f, Event::Start);
    let a = step(&mut cycle, &c, &mut f, Event::Inspected(running("2024-01-01T00:00:00Z", Some(HealthStatus::Healthy))));
    assert!(matches!(a, Action::ListContainers));
    match step(&mut cycle, &c, &mut f, Event::Listed(listing())) {
        Action::InspectEach { names } => assert_eq!(names, vec!["qbit"]),
        a => panic!("{a:?}"),
    }
    let states = vec![running("2023-12-31T00:00:00Z", None)];
    match step(&mut cycle, &c, &mut f, Event::InspectedEach(states)) {
        Action::RestartEach { names } => assert_eq!(names, vec!["qbit"]),
        a => panic!("{a:?}"),
    }
    let a = step(&mut cycle, &c, &mut f, Event::RestartedEach);
    assert!(matches!(a, Action::FetchPublicIp { .. }));
}

#[test]
fn dependents_in_sync_are_left_alone() {
    let c = config(&[("DEPENDENT_CONTAINERS", "qbit")]);
    let mut f = FailureCounts::new();
    let mut cycle = CheckCycle::new();
    step(&mut cycle, &c, &mut f, Event::Start);
    match step(&mut cycle, &c, &mut f, Event::Inspected(running("2024-01-01T00:00:00Z", None))) {
        Action::InspectEach { names } => assert_eq!(names, vec!["qbit"]),
        a => panic!("{a:?}"),
    }
    let states = vec![running("2024-01-02T00:00:00Z", None)];
    let a = step(&mut cycle, &c, &mut f, Event::InspectedEach(states));
    assert!(matches!(a, Action::FetchPublicIp { .. }));
}

#[test]
fn a_missing_container_or_empty_sites_end_the_cycle() {
    let c = config(&[]);
    let mut f = FailureCounts::new();
    let mut cycle = CheckCycle::new();
    step(&mut cycle, &c, &mut f, Event::Start);
    step(&mut cycle, &c, &mut f, Event::Inspected(None));
    step(&mut cycle, &c, &mut f, Event::PublicIp(ip_body("1.2.3.4")));
    match step(&mut cycle, &c, &mut f, Event::Listed(None)) {
        Action::Finish { outcome } => assert_eq!(outcome, CycleOutcome::GluetunNotFound),
        a => panic!("{a:?}"),
    }
    let mut again = CheckCycle::new();
    match reach_probes(&mut again, &c, &mut f, "# nothing\n") {
        Action::Finish { outcome } => assert_eq!(outcome, CycleOutcome::NoSites),
        a => panic!("{a:?}"),
    }
}

#[test]
fn failures_below_the_threshold_are_only_counted() {
    let c = config(&[("FAIL_THRESHOLD", "3"), ("TIMEOUT", "7")]);
    let mut f = FailureCounts::new();
    let mut cycle = CheckCycle::new();
    match reach_probes(&mut cycle, &c, &mut f, "a\nb\n") {
        Action::ProbeSites { container_id, sites, timeout_secs } => {
            assert_eq!(container_id, "abcdef0123456789");
            assert_eq!(sites, vec!["a", "b"]);
            assert_eq!(timeout_secs, 7);
        },
        a => panic!("{a:?}"),
    }
    match step(&mut cycle, &c, &mut f, Event::Probed(vec![done(0), done(4)])) {
        Action::Finish { outcome } => assert_eq!(outcome, CycleOutcome::Checked),
        a => panic!("{a:?}"),
    }
    assert_eq!(f.to_pairs(), vec![("a".to_string(), 0), ("b".to_string(), 1)]);
}

#[test]
fn reaching_the_threshold_recovers_and_clears_counts() {
    let c = config(&[("FAIL_THRESHOLD", "2"), ("HEALTHY_WAIT_TIMEOUT", "60")]);
    let mut f = FailureCounts::new();
    f.set(&"b".to_string(), 1);
    let mut cycle = CheckCycle::new();
    reach_probes(&mut cycle, &c, &mut f, "a\nb\n");
    match step(&mut cycle, &c, &mut f, Event::Probed(vec![done(0), done(5)])) {
        Action::RestartContainer { name } => assert_eq!(name, "gluetun"),
        a => panic!("{a:?}"),
    }
    match step(&mut cycle, &c, &mut f, Event::Restarted(true)) {
        Action::StartHealthWait { name, timeout_secs } => {
            assert_eq!(name, "gluetun");
            assert_eq!(timeout_secs, 60);
        },
        a => panic!("{a:?}"),
    }
    let a = step(&mut cycle, &c, &mut f, Event::Inspected(running("x", Some(HealthStatus::Starting))));
    assert!(matches!(a, Action::PauseHealthWait));
    let a = step(&mut cycle, &c, &mut f, Event::Slept);
    assert!(matches!(a, Action::InspectAgain { .. }));
    match step(&mut cycle, &c, &mut f, Event::Inspected(running("x", Some(HealthStatus::Healthy)))) {
        Action::Sleep { secs } => assert_eq!(secs, 10),
        a => panic!("{a:?}"),
    }
    assert_eq!(f.get(&"b".to_string()), Some(2));
    let a = step(&mut cycle, &c, &mut f, Event::Slept);
    assert!(matches!(a, Action::ListContainers));
    assert!(f.to_pairs().is_empty());
    match step(&mut cycle, &c, &mut f, Event::Listed(listing())) {
        Action::RestartEach { names } => assert_eq!(names, vec!["qbit"]),
        a => panic!("{a:?}"),
    }
    match step(&mut cycle, &c, &mut f, Event::RestartedEach) {
        Action::Finish { outcome } => assert_eq!(outcome, CycleOutcome::Recovered { healthy: true }),
        a => panic!("{a:?}"),
    }
}

#[test]
fn a_failed_restart_still_restarts_the_dependents() {
    let c = config(&[("FAIL_THRESHOLD", "1"), ("DEPENDENT_CONTAINERS", "x,y")]);
    let mut f = FailureCounts::new();
    let mut cycle = CheckCycle::new();
    step(&mut cycle, &c, &mut f, Event::Start);
    step(&mut cycle, &c, &mut f, Event::Inspected(None));
    step(&mut cycle, &c, &mut f, Event::PublicIp(ip_body("1.2.3.4")));
    step(&mut cycle, &c, &mut f, Event::Listed(listing()));
    step(&mut cycle, &c, &mut f, Event::SitesText("a".to_string()));
    step(&mut cycle, &c, &mut f, Event::Probed(vec![ExecOutcome::CreateFailed]));
    match step(&mut cycle, &c, &mut f, Event::Restarted(false)) {
        Action::RestartEach { names } => assert_eq!(names, names_of(&["x", "y"])),
        a => panic!("{a:?}"),
    }
    assert!(f.to_pairs().is_empty());
    match step(&mut cycle, &c, &mut f, Event::RestartedEach) {
        Action::Finish { outcome } => assert_eq!(outcome, CycleOutcome::Recovered { healthy: false }),
        a => panic!("{a:?}"),
    }
}

fn names_of(v: &[&str]) -> Vec<String> {
    names(v)
}

#[test]
fn a_health_wait_that_times_out_goes_on_with_the_recovery() {
    let c = config(&[("FAIL_THRESHOLD", "1"), ("DEPENDENT_CONTAINERS", "x")]);
    let mut f = FailureCounts::new();
    let mut cycle = CheckCycle::new();
    reach_probes(&mut cycle, &c, &mut f, "a");
    step(&mut cycle, &c, &mut f, Event::Probed(vec![done(1)]));
    step(&mut cycle, &c, &mut f, Event::Restarted(true));
    step(&mut cycle, &c, &mut f, Event::Inspected(None));
    match step(&mut cycle, &c, &mut f, Event::TimedOut) {
        Action::RestartEach { names } => assert_eq!(names, vec!["x"]),
        a => panic!("{a:?}"),
    }
    match step(&mut cycle, &c, &mut f, Event::RestartedEach) {
        Action::Finish { outcome } => assert_eq!(outcome, CycleOutcome::Recovered { healthy: false }),
        a => panic!("{a:?}"),
    }
}

#[test]
fn events_that_do_not_answer_the_action_are_refused() {
    let c = config(&[]);
    let f = FailureCounts::new();
    let cycle = CheckCycle::new();
    assert!(!cycle.accepts(&c, &f, &Event::Slept));
    assert!(cycle.accepts(&c, &f, &Event::Start));
    let mut probing = CheckCycle::new();
    let mut g = FailureCounts::new();
    reach_probes(&mut probing, &c, &mut g, "a\nb");
    assert!(!probing.accepts(&c, &g, &Event::Probed(vec![done(0)])));
    assert!(probing.accepts(&c, &g, &Event::Probed(vec![done(0), done(0)])));
}

#[test]
fn a_new_monitor_state_is_idle_and_empty() {
    let c = config(&[("CHECK_INTERVAL", "15"), ("DEPENDENT_CONTAINERS", "a,b")]);
    let s = MonitorState::new(&c);
    assert!(!s.is_monitoring);
    assert_eq!(s.check_interval_secs, 15);
    assert_eq!(s.dependent_containers, "a, b");
    assert!(s.site_failures.to_pairs().is_empty());
}
