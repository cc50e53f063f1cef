use gluetun_connector::auth::{build_auth_headers, AuthHeader};
use gluetun_connector::config::{Config, Environment};

fn config(vars: &[(&str, &str)]) -> Config {
    let e = Environment { vars: vars.iter().map(|(k, v)| (k.to_string(), v.to_string())).collect() };
    match Config::load(&e) {
        Ok(c) => c,
        Err(_) => panic!("valid settings"),
    }
}

fn pairs(h: Vec<AuthHeader>) -> Vec<(String, String)> {
    h.into_iter().map(|a| (a.name, a.value)).collect()
}

#[test]
fn api_key_is_sent_as_x_api_key() {
    let h = pairs(build_auth_headers(&config(&[("GLUETUN_API_KEY", "secret")])));
    assert_eq!(h, vec![("x-api-key".to_string(), "secret".to_string())]);
}

#[test]
fn api_key_wins_over_basic_credentials() {
    let h = pairs(build_auth_headers(&config(&[
        ("GLUETUN_API_KEY", "secret"),
        ("GLUETUN_USER", "user"),
        ("GLUETUN_PASSWORD", "pass"),
    ])));
    assert_eq!(h, vec![("x-api-key".to_string(), "secret".to_string())]);
}

#[test]
fn an_api_key_that_cannot_be_a_header_is_skipped() {
    let h = build_auth_headers(&config(&[
        ("GLUETUN_API_KEY", "bad\nkey"),
        ("GLUETUN_USER", "user"),
        ("GLUETUN_PASSWORD", "pass"),
    ]));
    assert!(h.is_empty());
    let del = build_auth_headers(&config(&[("GLUETUN_API_KEY", "x\u{7f}")]));
    assert!(del.is_empty());
    let tab = pairs(build_auth_headers(&config(&[("GLUETUN_API_KEY", "a\tb")])));
    assert_eq!(tab.len(), 1);
}

#[test]
fn basic_credentials_are_base64_encoded() {
    let h = pairs(build_auth_headers(&config(&[("GLUETUN_USER", "user"), ("GLUETUN_PASSWORD", "pass")])));
    assert_eq!(h, vec![("authorization".to_string(), "Basic dXNlcjpwYXNz".to_string())]);
    let u = pairs(build_auth_headers(&config(&[("GLUETUN_USER", "admin"), ("GLUETUN_PASSWORD", "pässwörd")])));
    assert_eq!(u, vec![("authorization".to_string(), "Basic YWRtaW46cMOkc3N3w7ZyZA==".to_string())]);
}

#[test]
fn basic_needs_both_user_and_password() {
    assert!(build_auth_headers(&config(&[("GLUETUN_USER", "user")])).is_empty());
    assert!(build_auth_headers(&config(&[("GLUETUN_PASSWORD", "pass")])).is_empty());
    assert!(build_auth_headers(&config(&[])).is_empty());
}
