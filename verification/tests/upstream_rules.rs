use gluetun_connector::routes::{api_not_found, rate_limit_for, too_many_requests_reply, RouteGroup};
use gluetun_connector::upstream::{
    endpoint_url, fetch_succeeded, to_result, is_tunnel_up, proxy_reply, public_ip, vpn_reply, vpn_status_for,
    GluetunEndpoint, JsonBody, JsonField, Reply, Upstream,
};

fn body(members: &[(&str, Option<&str>)]) -> JsonBody {
    JsonBody {
        members: Some(
            members
                .iter()
                .map(|(k, v)| {
                    (k.to_string(), match v {
                        Some(s) => JsonField::Text(s.to_string()),
                        None => JsonField::Other,
                    })
                })
                .collect(),
        ),
    }
}

fn reply(r: Reply) -> (u16, Option<String>) {
    match r {
        Reply::Data { status } => (status, None),
        Reply::Failure { status, message } => (status, Some(message)),
    }
}

#[test]
fn endpoint_urls_are_joined_to_the_control_url() {
    assert_eq!(
        endpoint_url("http://gluetun:8000/", GluetunEndpoint::PublicIp).as_deref(),
        Some("http://gluetun:8000/v1/publicip/ip")
    );
    assert_eq!(
        endpoint_url("http://10.0.0.2:8000/base/x", GluetunEndpoint::VpnStatus).as_deref(),
        Some("http://10.0.0.2:8000/v1/vpn/status")
    );
    assert_eq!(endpoint_url("not a url", GluetunEndpoint::DnsStatus), None);
    assert_eq!(GluetunEndpoint::PortForward.path(), "/v1/portforward");
    assert_eq!(GluetunEndpoint::VpnSettings.path(), "/v1/vpn/settings");
}

#[test]
fn a_read_succeeds_on_a_json_success() {
    assert!(fetch_succeeded(&Upstream::Answered { status: 200, json: true }));
    assert!(fetch_succeeded(&Upstream::Answered { status: 299, json: true }));
    assert!(!fetch_succeeded(&Upstream::Answered { status: 200, json: false }));
    assert!(!fetch_succeeded(&Upstream::Answered { status: 300, json: true }));
    assert!(!fetch_succeeded(&Upstream::Answered { status: 199, json: true }));
    assert!(!fetch_succeeded(&Upstream::Unreachable));
}

#[test]
fn proxied_reads_answer_data_or_bad_gateway() {
    assert_eq!(reply(proxy_reply(true, &Upstream::Answered { status: 200, json: true })), (200, None));
    assert_eq!(
        reply(proxy_reply(true, &Upstream::Answered { status: 401, json: true })),
        (502, Some("Upstream error".to_string()))
    );
    assert_eq!(reply(proxy_reply(false, &Upstream::Unreachable)), (502, Some("Upstream error".to_string())));
}

#[test]
fn vpn_actions_map_to_statuses() {
    assert_eq!(vpn_status_for("start").as_deref(), Some("running"));
    assert_eq!(vpn_status_for("stop").as_deref(), Some("stopped"));
    assert_eq!(vpn_status_for("Start"), None);
    assert_eq!(vpn_status_for("restart"), None);
}

#[test]
fn vpn_replies_follow_the_action_and_the_answer() {
    assert_eq!(
        reply(vpn_reply("reboot", true, &Upstream::Unreachable)),
        (400, Some("Invalid action. Use start or stop.".to_string()))
    );
    assert_eq!(reply(vpn_reply("start", false, &Upstream::Unreachable)), (500, Some("Internal server error".to_string())));
    assert_eq!(reply(vpn_reply("stop", true, &Upstream::Answered { status: 200, json: false })), (200, None));
    assert_eq!(
        reply(vpn_reply("stop", true, &Upstream::Answered { status: 500, json: true })),
        (502, Some("Upstream error".to_string()))
    );
    assert_eq!(reply(vpn_reply("start", true, &Upstream::Unreachable)), (502, Some("Upstream error".to_string())));
}

#[test]
fn the_public_ip_comes_from_the_first_present_key() {
    assert_eq!(public_ip(&body(&[("ip", Some("2.2.2.2")), ("public_ip", Some("1.1.1.1"))])), "1.1.1.1");
    assert_eq!(public_ip(&body(&[("ip", Some("2.2.2.2")), ("IP", Some("3.3.3.3"))])), "2.2.2.2");
    assert_eq!(public_ip(&body(&[("IP", Some("3.3.3.3"))])), "3.3.3.3");
    assert_eq!(public_ip(&body(&[("public_ip", None), ("ip", Some("2.2.2.2"))])), "");
    assert_eq!(public_ip(&body(&[("country", Some("NL"))])), "");
    assert_eq!(public_ip(&JsonBody { members: None }), "");
}

#[test]
fn the_tunnel_is_up_with_a_public_ip() {
    assert!(is_tunnel_up(&Some(body(&[("public_ip", Some("1.1.1.1"))]))));
    assert!(!is_tunnel_up(&Some(body(&[("public_ip", Some(""))]))));
    assert!(!is_tunnel_up(&None));
}

#[test]
fn quotas_spread_the_window_evenly() {
    let r = rate_limit_for(RouteGroup::Read);
    assert_eq!((r.period_ms, r.burst), (500, 120));
    let v = rate_limit_for(RouteGroup::Vpn);
    assert_eq!((v.period_ms, v.burst), (6000, 10));
    let s = rate_limit_for(RouteGroup::Static);
    assert_eq!((s.period_ms, s.burst), (9000, 100));
    assert_eq!(s.period_ms * s.burst as u64, 900_000);
}

#[test]
fn fixed_replies() {
    assert_eq!(reply(too_many_requests_reply()), (429, Some("Too many requests, please try again later.".to_string())));
    assert_eq!(reply(api_not_found()), (404, Some("Not found".to_string())));
}

#[test]
fn health_entries_carry_data_or_upstream_error() {
    assert_eq!(to_result(true, &Upstream::Answered { status: 200, json: true }), Ok(()));
    assert_eq!(to_result(true, &Upstream::Answered { status: 200, json: false }), Err("Upstream error".to_string()));
    assert_eq!(to_result(false, &Upstream::Answered { status: 200, json: true }), Err("Upstream error".to_string()));
    assert_eq!(to_result(true, &Upstream::Unreachable), Err("Upstream error".to_string()));
}
