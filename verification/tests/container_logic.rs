use gluetun_connector::containers::{
    container_is_up, discover_dependents, find_container, out_of_sync_dependents, parse_rfc3339,
    running_since, short_id_usable, ContainerState, ContainerSummary, HealthStatus,
};

fn summary(id: Option<&str>, names: &[&str], mode: Option<&str>) -> ContainerSummary {
    ContainerSummary {
        id: id.map(|s| s.to_string()),
        names: Some(names.iter().map(|s| s.to_string()).collect()),
        network_mode: mode.map(|s| s.to_string()),
    }
}

fn state(running: Option<bool>, started: Option<&str>, health: Option<HealthStatus>) -> Option<ContainerState> {
    Some(ContainerState { running, started_at: started.map(|s| s.to_string()), health })
}

const GLUETUN_ID: &str = "0123456789abcdef0123456789abcdef";

#[test]
fn the_first_container_with_the_name_is_found() {
    let cs = vec![
        summary(Some("aaa"), &["/other"], None),
        summary(Some("bbb"), &["/x", "/gluetun"], None),
        summary(Some("ccc"), &["/gluetun"], None),
    ];
    assert_eq!(find_container(&cs, "gluetun").as_deref(), Some("bbb"));
    assert_eq!(find_container(&cs, "missing"), None);
    assert_eq!(find_container(&cs, "x").as_deref(), Some("bbb"));
    let no_id = vec![summary(None, &["/gluetun"], None), summary(Some("ddd"), &["/gluetun"], None)];
    assert_eq!(find_container(&no_id, "gluetun"), None);
    let unnamed = vec![ContainerSummary { id: Some("e".to_string()), names: None, network_mode: None }];
    assert_eq!(find_container(&unnamed, "gluetun"), None);
}

#[test]
fn up_means_healthy_or_running_without_health_check() {
    assert!(container_is_up(&state(Some(false), None, Some(HealthStatus::Healthy))));
    assert!(!container_is_up(&state(Some(true), None, Some(HealthStatus::Starting))));
    assert!(!container_is_up(&state(Some(true), None, Some(HealthStatus::Unhealthy))));
    assert!(container_is_up(&state(Some(true), None, None)));
    assert!(!container_is_up(&state(None, None, None)));
    assert!(!container_is_up(&None));
}

#[test]
fn rfc3339_times_become_instants() {
    assert_eq!(parse_rfc3339("2024-01-01T00:00:00Z"), Some((1704067200, 0)));
    assert_eq!(parse_rfc3339("2024-01-01T01:00:00.5+01:00"), Some((1704067200, 500_000_000)));
    assert_eq!(parse_rfc3339("yesterday"), None);
}

#[test]
fn only_running_containers_have_a_start_time() {
    assert_eq!(running_since(&state(Some(true), Some("2024-01-01T00:00:00Z"), None)), Some((1704067200, 0)));
    assert_eq!(running_since(&state(Some(false), Some("2024-01-01T00:00:00Z"), None)), None);
    assert_eq!(running_since(&state(None, Some("2024-01-01T00:00:00Z"), None)), None);
    assert_eq!(running_since(&state(Some(true), None, None)), None);
    assert_eq!(running_since(&state(Some(true), Some("garbage"), None)), None);
    assert_eq!(running_since(&None), None);
}

#[test]
fn dependents_started_before_gluetun_are_out_of_sync() {
    let reference = (1704067200i64, 500u32);
    let names = vec!["old".to_string(), "new".to_string(), "same".to_string(), "stopped".to_string(), "gone".to_string()];
    let states = vec![
        state(Some(true), Some("2023-12-31T23:00:00Z"), None),
        state(Some(true), Some("2024-01-01T00:00:01Z"), None),
        state(Some(true), Some("2024-01-01T00:00:00.0000005Z"), None),
        state(Some(false), Some("2020-01-01T00:00:00Z"), None),
        None,
    ];
    assert_eq!(out_of_sync_dependents(reference, &names, &states), vec!["old"]);
    let earlier_nanos = vec![state(Some(true), Some("2024-01-01T00:00:00.0000004Z"), None)];
    assert_eq!(out_of_sync_dependents(reference, &vec!["n".to_string()], &earlier_nanos), vec!["n"]);
}

#[test]
fn dependents_are_found_by_name_id_or_short_id() {
    let cs = vec![
        summary(Some(GLUETUN_ID), &["/gluetun"], Some("bridge")),
        summary(Some("1"), &["/by-name"], Some("container:gluetun")),
        summary(Some("2"), &["//by-id"], Some(&format!("container:{GLUETUN_ID}"))),
        summary(Some("3"), &["/by-short"], Some("container:0123456789abXYZ")),
        summary(Some("4"), &["/too-short"], Some("container:0123456789a")),
        summary(Some("5"), &["/bridged"], Some("bridge")),
        summary(Some("6"), &["/gluetun"], Some("container:gluetun")),
        summary(Some("7"), &[], Some("container:gluetun")),
        ContainerSummary { id: Some("8".to_string()), names: Some(vec!["/no-mode".to_string()]), network_mode: None },
    ];
    assert_eq!(discover_dependents(&cs, "gluetun"), vec!["by-name", "by-id", "by-short", ""]);
}

#[test]
fn without_gluetun_in_the_list_only_names_match() {
    let cs = vec![
        summary(Some("1"), &["/a"], Some("container:gluetun")),
        summary(Some("2"), &["/b"], Some("container:0123456789ab")),
    ];
    assert_eq!(discover_dependents(&cs, "gluetun"), vec!["a"]);
    assert!(discover_dependents(&Vec::new(), "gluetun").is_empty());
}

#[test]
fn the_short_id_must_end_between_characters() {
    let ascii = vec![summary(Some(GLUETUN_ID), &["/gluetun"], None)];
    assert!(short_id_usable(&ascii, "gluetun"));
    let split = vec![summary(Some("01234567890\u{e9}xyz"), &["/gluetun"], None)];
    assert!(!short_id_usable(&split, "gluetun"));
    let whole = vec![summary(Some("0123456789\u{e9}xyz"), &["/gluetun"], None)];
    assert!(short_id_usable(&whole, "gluetun"));
    let short = vec![summary(Some("\u{e9}"), &["/gluetun"], None)];
    assert!(short_id_usable(&short, "gluetun"));
    assert!(short_id_usable(&Vec::new(), "gluetun"));
}
