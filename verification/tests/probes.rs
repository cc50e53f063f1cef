use gluetun_connector::docker::{extract_http_code, site_test_command, test_site, ExecOutcome, SiteResult, SiteStatus};

fn finished(code: Option<i64>, output: &str) -> ExecOutcome {
    ExecOutcome::Finished { exit_code: code, output: output.to_string() }
}

#[test]
fn pass_and_fail_build_results() {
    let p = SiteResult::pass("https://a", None);
    assert_eq!(p.site, "https://a");
    assert_eq!(p.status, SiteStatus::Pass);
    assert_eq!(p.reason, None);
    let f = SiteResult::fail("https://b", "down".to_string());
    assert_eq!(f.status, SiteStatus::Fail);
    assert_eq!(f.reason.as_deref(), Some("down"));
}

#[test]
fn the_probe_command_has_no_shell() {
    assert_eq!(
        site_test_command("https://example.com", 10),
        vec!["wget", "--spider", "-S", "--timeout=10", "--tries=1", "-q", "https://example.com"]
    );
    assert_eq!(site_test_command("x", 0)[3], "--timeout=0");
}

#[test]
fn the_http_code_is_the_word_after_the_version() {
    assert_eq!(extract_http_code("Connecting...\n  HTTP/1.1 404 Not Found\n").as_deref(), Some("404"));
    assert_eq!(extract_http_code("HTTP/2   301\tMoved").as_deref(), Some("301"));
    assert_eq!(extract_http_code("xHTTP/1.0 200 OK\nHTTP/1.1 500").as_deref(), Some("200"));
    assert_eq!(extract_http_code("no status here"), None);
    assert_eq!(extract_http_code("HTTP/1.1"), None);
    assert_eq!(extract_http_code("HTTP/1.1   \n"), None);
}

#[test]
fn exit_zero_passes() {
    let r = test_site("s", &finished(Some(0), ""));
    assert_eq!(r.status, SiteStatus::Pass);
    assert_eq!(r.reason, None);
}

#[test]
fn server_errors_show_the_tunnel_works() {
    let r = test_site("s", &finished(Some(8), "  HTTP/1.1 403 Forbidden"));
    assert_eq!(r.status, SiteStatus::Pass);
    assert_eq!(r.reason.as_deref(), Some("HTTP 403 (VPN working)"));
    let q = test_site("s", &finished(Some(6), "auth failed"));
    assert_eq!(q.status, SiteStatus::Pass);
    assert_eq!(q.reason.as_deref(), Some("HTTP ? (VPN working)"));
}

#[test]
fn network_and_tls_failures_fail() {
    let n = test_site("s", &finished(Some(4), ""));
    assert_eq!(n.status, SiteStatus::Fail);
    assert_eq!(n.reason.as_deref(), Some("Network failure (DNS or connection)"));
    let t = test_site("s", &finished(Some(5), ""));
    assert_eq!(t.reason.as_deref(), Some("SSL verification failure"));
}

#[test]
fn other_exit_codes_are_reported() {
    let r = test_site("s", &finished(Some(1), ""));
    assert_eq!(r.status, SiteStatus::Fail);
    assert_eq!(r.reason.as_deref(), Some("wget exited with code 1"));
    let unknown = test_site("s", &finished(None, "HTTP/1.1 200"));
    assert_eq!(unknown.reason.as_deref(), Some("wget exited with code -1"));
    let low = test_site("s", &finished(Some(i64::MIN), ""));
    assert_eq!(low.reason.as_deref(), Some("wget exited with code -9223372036854775808"));
}

#[test]
fn exec_failures_fail() {
    let c = test_site("s", &ExecOutcome::CreateFailed);
    assert_eq!(c.status, SiteStatus::Fail);
    assert_eq!(c.reason.as_deref(), Some("Failed to create exec instance"));
    let s = test_site("s", &ExecOutcome::StartFailed);
    assert_eq!(s.reason.as_deref(), Some("Failed to start exec command"));
    assert_eq!(s.site, "s");
}
