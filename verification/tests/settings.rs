use gluetun_connector::config::{
    describe_dependents, listen_port, parse_dependents, Config, ConfigError, DependentContainers,
    Environment,
};

fn env(vars: &[(&str, &str)]) -> Environment {
    Environment { vars: vars.iter().map(|(k, v)| (k.to_string(), v.to_string())).collect() }
}

fn explicit(d: &DependentContainers) -> Vec<String> {
    match d {
        DependentContainers::Explicit(v) => v.clone(),
        DependentContainers::Auto => panic!("expected a list"),
    }
}

#[test]
fn defaults_apply_to_an_empty_environment() {
    let c = match Config::load(&env(&[])) {
        Ok(c) => c,
        Err(_) => panic!("the default URL parses"),
    };
    assert_eq!(c.port, 3000);
    assert_eq!(c.gluetun_url, "http://gluetun:8000/");
    assert_eq!(c.gluetun_api_key, None);
    assert_eq!(c.gluetun_user, None);
    assert_eq!(c.gluetun_password, None);
    assert_eq!(c.check_interval, 30);
    assert_eq!(c.request_timeout, 10);
    assert_eq!(c.fail_threshold, 2);
    assert_eq!(c.gluetun_container, "gluetun");
    assert!(matches!(c.dependent_containers, DependentContainers::Auto));
    assert_eq!(c.healthy_wait_timeout, 120);
    assert_eq!(c.config_file, "/config/sites.conf");
}

#[test]
fn settings_are_read_from_the_environment() {
    let e = env(&[
        ("GLUETUN_CONTROL_URL", "http://10.0.0.2:8000/base"),
        ("PORT", "8080"),
        ("GLUETUN_API_KEY", "k"),
        ("GLUETUN_USER", ""),
        ("GLUETUN_PASSWORD", "p"),
        ("CHECK_INTERVAL", "+60"),
        ("TIMEOUT", "3"),
        ("FAIL_THRESHOLD", "5"),
        ("GLUETUN_CONTAINER", "vpn"),
        ("DEPENDENT_CONTAINERS", " qbit , ,sonarr,"),
        ("HEALTHY_WAIT_TIMEOUT", "30"),
        ("CONFIG_FILE", "/tmp/s.conf"),
    ]);
    let c = match Config::load(&e) {
        Ok(c) => c,
        Err(_) => panic!("valid settings"),
    };
    assert_eq!(c.port, 8080);
    assert_eq!(c.gluetun_url, "http://10.0.0.2:8000/base");
    assert_eq!(c.gluetun_api_key.as_deref(), Some("k"));
    assert_eq!(c.gluetun_user, None);
    assert_eq!(c.gluetun_password.as_deref(), Some("p"));
    assert_eq!(c.check_interval, 60);
    assert_eq!(c.request_timeout, 3);
    assert_eq!(c.fail_threshold, 5);
    assert_eq!(c.gluetun_container, "vpn");
    assert_eq!(explicit(&c.dependent_containers), vec!["qbit", "sonarr"]);
    assert_eq!(c.healthy_wait_timeout, 30);
    assert_eq!(c.config_file, "/tmp/s.conf");
}

#[test]
fn numbers_that_do_not_fit_fall_back_to_defaults() {
    let e = env(&[("PORT", "70000"), ("FAIL_THRESHOLD", "4294967296"), ("TIMEOUT", "ten")]);
    let c = match Config::load(&e) {
        Ok(c) => c,
        Err(_) => panic!("valid settings"),
    };
    assert_eq!(c.port, 3000);
    assert_eq!(c.fail_threshold, 2);
    assert_eq!(c.request_timeout, 10);
    assert_eq!(listen_port(&env(&[("PORT", "65535")])), 65535);
    assert_eq!(listen_port(&env(&[("PORT", "-1")])), 3000);
}

#[test]
fn an_invalid_control_url_is_refused() {
    match Config::load(&env(&[("GLUETUN_CONTROL_URL", "not a url")])) {
        Err(ConfigError::InvalidUrl(msg)) => assert!(!msg.is_empty()),
        Ok(_) => panic!("must be refused"),
    }
    assert!(Config::load(&env(&[("GLUETUN_CONTROL_URL", "")])).is_err());
}

#[test]
fn the_first_entry_of_a_variable_counts() {
    let e = env(&[("PORT", "1"), ("PORT", "2")]);
    assert_eq!(e.get("PORT").as_deref(), Some("1"));
    assert_eq!(e.get("MISSING"), None);
}

#[test]
fn auto_is_recognised_in_any_ascii_case() {
    assert!(matches!(parse_dependents("AUTO"), DependentContainers::Auto));
    assert!(matches!(parse_dependents("Auto"), DependentContainers::Auto));
    assert_eq!(explicit(&parse_dependents(" auto ")), vec!["auto"]);
    assert_eq!(explicit(&parse_dependents("")), Vec::<String>::new());
    assert_eq!(explicit(&parse_dependents("a,b")), vec!["a", "b"]);
}

#[test]
fn dependents_are_described_for_the_status_route() {
    assert_eq!(describe_dependents(&DependentContainers::Auto), "auto");
    assert_eq!(describe_dependents(&parse_dependents("a, b ,c")), "a, b, c");
    assert_eq!(describe_dependents(&parse_dependents("")), "");
    assert_eq!(describe_dependents(&parse_dependents("solo")), "solo");
}
