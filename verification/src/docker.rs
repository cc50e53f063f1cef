//! Connectivity probes run inside the Gluetun container, and how their
//! outcome is judged.
use vstd::prelude::*;
use crate::text::{
    append_str, owned, chars_of, decimal_text, find_chars, find_spec, push_decimal, lemma_second_word, second_word, skip_space,
    skip_word, string_of_range,
};

verus! {

/// Whether a site could be reached through the tunnel.
#[derive(PartialEq, Eq, Structural, Debug, Clone, Copy)]
pub enum SiteStatus {
    Pass,
    Fail,
}

/// The verdict on one site.
#[derive(Debug)]
pub struct SiteResult {
    pub site: String,
    pub status: SiteStatus,
    pub reason: Option<String>,
}

impl SiteResult {
    /// A passing result, with an optional explanation.
    pub fn pass(site: &str, reason: Option<String>) -> (r: Self)
        ensures
            r.site@ == site@,
            r.status == SiteStatus::Pass,
            r.reason == reason,
    {
        SiteResult { site: owned(site), status: SiteStatus::Pass, reason }
    }

    /// A failing result with its reason.
    pub fn fail(site: &str, reason: String) -> (r: Self)
        ensures
            r.site@ == site@,
            r.status == SiteStatus::Fail,
            r.reason == Some(reason),
    {
        SiteResult { site: owned(site), status: SiteStatus::Fail, reason: Some(reason) }
    }
}

/// The text of a signed number, as `Display` writes it.
pub open spec fn signed_decimal_text(n: int) -> Seq<char> {
    if n < 0 {
        "-"@ + decimal_text((-n) as nat)
    } else {
        decimal_text(n as nat)
    }
}

fn push_signed_decimal(s: &mut String, n: i64)
    ensures
        final(s)@ == old(s)@ + signed_decimal_text(n as int),
{
    if n < 0 {
        append_str(s, "-");
        let magnitude: u64 = if n == i64::MIN {
            9223372036854775808u64
        } else {
            (-n) as u64
        };
        push_decimal(s, magnitude);
        assert(final(s)@ == old(s)@ + ("-"@ + decimal_text((-n) as nat)));
    } else {
        push_decimal(s, n as u64);
    }
}

/// The command that probes `site` from inside the container: `wget` in
/// spider mode, one try, with the given timeout. Passed as separate
/// arguments, with no shell between.
pub open spec fn probe_command(site: Seq<char>, timeout_secs: nat) -> Seq<Seq<char>> {
    seq![
        "wget"@,
        "--spider"@,
        "-S"@,
        "--timeout="@ + decimal_text(timeout_secs),
        "--tries=1"@,
        "-q"@,
        site,
    ]
}

/// Builds the probe command for `site`.
pub fn site_test_command(site: &str, timeout_secs: u64) -> (cmd: Vec<String>)
    ensures
        cmd.deep_view() == probe_command(site@, timeout_secs as nat),
{
    let mut timeout = owned("--timeout=");
    push_decimal(&mut timeout, timeout_secs);
    let cmd = vec![
        owned("wget"),
        owned("--spider"),
        owned("-S"),
        timeout,
        owned("--tries=1"),
        owned("-q"),
        owned(site),
    ];
    assert(cmd.deep_view() == probe_command(site@, timeout_secs as nat));
    cmd
}

/// The HTTP status code in a probe's output: the word after the first
/// `HTTP/` version token.
pub open spec fn http_code_in(output: Seq<char>) -> Option<Seq<char>> {
    match find_spec(output, "HTTP/"@) {
        Some(p) => second_word(output.skip(p)),
        None => None,
    }
}

/// Finds the HTTP status code that `wget -S` printed.
pub fn extract_http_code(output: &str) -> (code: Option<String>)
    ensures
        match http_code_in(output@) {
            Some(c) => code matches Some(s) && s@ == c,
            None => code is None,
        },
{
    let v = chars_of(output);
    let p = chars_of("HTTP/");
    match find_chars(&v, &p) {
        None => None,
        Some(at) => {
            let i0 = skip_space(&v, at);
            let j0 = skip_word(&v, i0);
            let i1 = skip_space(&v, j0);
            let j1 = skip_word(&v, i1);
            proof {
                lemma_second_word(v@, at as int, i0 as int, j0 as int, i1 as int, j1 as int);
            }
            if i1 == v.len() {
                None
            } else {
                Some(string_of_range(&v, i1, j1))
            }
        },
    }
}

/// How a probe ended.
#[derive(Debug)]
pub enum ExecOutcome {
    /// The exec instance could not be created.
    CreateFailed,
    /// The exec command could not be started.
    StartFailed,
    /// The command ran; its exit code (`None` where it could not be read)
    /// and everything it wrote.
    Finished { exit_code: Option<i64>, output: String },
}

/// The verdict on a site whose probe ended with `outcome`: status and reason.
/// `wget` exits with 6 or 8 when the server answered with an error status,
/// which still shows that the tunnel carries traffic.
pub open spec fn verdict(outcome: &ExecOutcome) -> (SiteStatus, Option<Seq<char>>) {
    match outcome {
        ExecOutcome::CreateFailed => (SiteStatus::Fail, Some("Failed to create exec instance"@)),
        ExecOutcome::StartFailed => (SiteStatus::Fail, Some("Failed to start exec command"@)),
        ExecOutcome::Finished { exit_code, output } => {
            let code: int = match exit_code {
                Some(c) => *c as int,
                None => -1,
            };
            if code == 0 {
                (SiteStatus::Pass, None)
            } else if code == 6 || code == 8 {
                let http = match http_code_in(output@) {
                    Some(h) => h,
                    None => "?"@,
                };
                (SiteStatus::Pass, Some("HTTP "@ + http + " (VPN working)"@))
            } else if code == 4 {
                (SiteStatus::Fail, Some("Network failure (DNS or connection)"@))
            } else if code == 5 {
                (SiteStatus::Fail, Some("SSL verification failure"@))
            } else {
                (SiteStatus::Fail, Some("wget exited with code "@ + signed_decimal_text(code)))
            }
        },
    }
}


/// The status of a probe depends on how it ended alone: it passes exactly
/// when `wget` ran and exited with 0 (the site answered), or with 6 or 8
/// (the server answered with an error, which still crossed the tunnel),
/// whatever it printed. A probe that could not run fails.
pub proof fn law_status_by_exit_code(outcome: ExecOutcome)
    ensures
        verdict(&outcome).0 == SiteStatus::Pass <==> (outcome matches ExecOutcome::Finished { exit_code, .. }
            && (exit_code == Some(0i64) || exit_code == Some(6i64) || exit_code == Some(8i64))),
{
}

/// A site whose probe ended with exit code 6 or 8 passes, and its reason
/// names the HTTP status found in the output (`?` where there is none).
pub proof fn law_server_errors_pass(code: i64, output: String)
    requires
        code == 6 || code == 8,
    ensures
        verdict(&ExecOutcome::Finished { exit_code: Some(code), output }).0 == SiteStatus::Pass,
        verdict(&ExecOutcome::Finished { exit_code: Some(code), output }).1 == Some(
            "HTTP "@ + (match http_code_in(output@) {
                Some(h) => h,
                None => "?"@,
            }) + " (VPN working)"@,
        ),
{
}

pub open spec fn reason_view(r: Option<String>) -> Option<Seq<char>> {
    match r {
        Some(s) => Some(s@),
        None => None,
    }
}

/// Judges the probe of `site` from how it ended.
pub fn test_site(site: &str, outcome: &ExecOutcome) -> (r: SiteResult)
    ensures
        r.site@ == site@,
        (r.status, reason_view(r.reason)) == verdict(outcome),
{
    match outcome {
        ExecOutcome::CreateFailed => SiteResult::fail(site, owned("Failed to create exec instance")),
        ExecOutcome::StartFailed => SiteResult::fail(site, owned("Failed to start exec command")),
        ExecOutcome::Finished { exit_code, output } => {
            let code: i64 = match exit_code {
                Some(c) => *c,
                None => -1,
            };
            if code == 0 {
                SiteResult::pass(site, None)
            } else if code == 6 || code == 8 {
                let mut reason = owned("HTTP ");
                match extract_http_code(output.as_str()) {
                    Some(h) => append_str(&mut reason, h.as_str()),
                    None => append_str(&mut reason, "?"),
                }
                append_str(&mut reason, " (VPN working)");
                SiteResult::pass(site, Some(reason))
            } else if code == 4 {
                SiteResult::fail(site, owned("Network failure (DNS or connection)"))
            } else if code == 5 {
                SiteResult::fail(site, owned("SSL verification failure"))
            } else {
                let mut reason = owned("wget exited with code ");
                push_signed_decimal(&mut reason, code);
                SiteResult::fail(site, reason)
            }
        },
    }
}

} // verus!
