//! Requests to Gluetun's control server: where they go, and what the
//! answers mean.
use vstd::prelude::*;
use crate::text::{chars_of, owned};

verus! {

/// The control-server endpoints that the connector reads.
#[derive(PartialEq, Eq, Structural, Debug, Clone, Copy)]
pub enum GluetunEndpoint {
    VpnStatus,
    PublicIp,
    PortForward,
    DnsStatus,
    VpnSettings,
}

/// The path of an endpoint.
pub open spec fn endpoint_path(e: GluetunEndpoint) -> Seq<char> {
    match e {
        GluetunEndpoint::VpnStatus => "/v1/vpn/status"@,
        GluetunEndpoint::PublicIp => "/v1/publicip/ip"@,
        GluetunEndpoint::PortForward => "/v1/portforward"@,
        GluetunEndpoint::DnsStatus => "/v1/dns/status"@,
        GluetunEndpoint::VpnSettings => "/v1/vpn/settings"@,
    }
}

impl GluetunEndpoint {
    /// The endpoint's path on the control server.
    pub fn path(&self) -> (p: String)
        ensures
            p@ == endpoint_path(*self),
    {
        match self {
            GluetunEndpoint::VpnStatus => owned("/v1/vpn/status"),
            GluetunEndpoint::PublicIp => owned("/v1/publicip/ip"),
            GluetunEndpoint::PortForward => owned("/v1/portforward"),
            GluetunEndpoint::DnsStatus => owned("/v1/dns/status"),
            GluetunEndpoint::VpnSettings => owned("/v1/vpn/settings"),
        }
    }
}

/// The serialization of the URL that `url::Url::join` resolves `reference`
/// to against the URL whose serialization is `base`, or `None` where either
/// does not parse.
pub uninterp spec fn url_join(base: Seq<char>, reference: Seq<char>) -> Option<Seq<char>>;

/// Calls `url::Url::join` on the URL that `url::Url::parse` reads back from
/// its own serialization `base`. Claims that the result is `url_join` of the
/// two texts.
#[verifier::external_body]
fn join_url(base: &str, reference: &str) -> (r: Option<String>)
    ensures
        match url_join(base@, reference@) {
            Some(u) => r matches Some(s) && s@ == u,
            None => r is None,
        },
{
    match url::Url::parse(base) {
        Ok(b) => match b.join(reference) {
            Ok(u) => Some(u.as_str().to_string()),
            Err(_) => None,
        },
        Err(_) => None,
    }
}

/// The URL of `endpoint` on the control server at `base`.
pub fn endpoint_url(base: &str, endpoint: GluetunEndpoint) -> (r: Option<String>)
    ensures
        match url_join(base@, endpoint_path(endpoint)) {
            Some(u) => r matches Some(s) && s@ == u,
            None => r is None,
        },
{
    let path = endpoint.path();
    join_url(base, path.as_str())
}

/// What became of a request to the control server.
#[derive(Debug)]
pub enum Upstream {
    /// The request could not be sent, or no answer came.
    Unreachable,
    /// An answer came with this status; `json` says whether its body read
    /// as JSON.
    Answered { status: u16, json: bool },
}

/// An HTTP status in the success class.
pub open spec fn is_success(status: u16) -> bool {
    200 <= status <= 299
}

/// What a route answers: the upstream data under `ok: true`, or an error
/// message under `ok: false`.
#[derive(Debug)]
pub enum Reply {
    Data { status: u16 },
    Failure { status: u16, message: String },
}

/// The reply as (status, error message or `None` for data).
pub open spec fn reply_view(r: Reply) -> (u16, Option<Seq<char>>) {
    match r {
        Reply::Data { status } => (status, None),
        Reply::Failure { status, message } => (status, Some(message@)),
    }
}

/// A read from the control server gives its data only where the answer is a
/// success and its body is JSON.
pub open spec fn fetch_gives_data(u: Upstream) -> bool {
    match u {
        Upstream::Answered { status, json } => is_success(status) && json,
        Upstream::Unreachable => false,
    }
}

/// Whether a read from the control server gave data (`gluetun_fetch`).
pub fn fetch_succeeded(u: &Upstream) -> (ok: bool)
    ensures
        ok == fetch_gives_data(*u),
{
    match u {
        Upstream::Answered { status, json } => 200 <= *status && *status <= 299 && *json,
        Upstream::Unreachable => false,
    }
}

/// The reply of a route that passes on one read (`proxy_get`): the data
/// with 200, else `Upstream error` with 502. `url` is `false` where no URL
/// could be formed.
pub fn proxy_reply(url: bool, u: &Upstream) -> (r: Reply)
    ensures
        reply_view(r) == if url && fetch_gives_data(*u) {
            (200u16, None)
        } else {
            (502u16, Some("Upstream error"@))
        },
{
    if url && fetch_succeeded(u) {
        Reply::Data { status: 200 }
    } else {
        Reply::Failure { status: 502, message: owned("Upstream error") }
    }
}


/// One entry of the health report: the data where the read gave it, else
/// the error `Upstream error`.
pub fn to_result(url: bool, u: &Upstream) -> (r: Result<(), String>)
    ensures
        r is Ok <==> (url && fetch_gives_data(*u)),
        r matches Err(message) ==> message@ == "Upstream error"@,
{
    if url && fetch_succeeded(u) {
        Ok(())
    } else {
        Err(owned("Upstream error"))
    }
}


/// A VPN action is reported done (200, with data) only where the action is
/// `start` or `stop`, a URL was formed and Gluetun answered with a status in
/// 200–299; any other answer, or no answer, gives 502 `Upstream error`.
pub proof fn law_vpn_done_only_on_success(action: Seq<char>, url: bool, u: Upstream)
    ensures
        vpn_reply_spec(action, url, u).0 == 200 ==> ((action == "start"@ || action == "stop"@) && url && (
        u matches Upstream::Answered { status, .. } && 200 <= status <= 299)),
        vpn_reply_spec(action, url, u).0 == 200 ==> vpn_reply_spec(action, url, u).1 is None,
        ((action == "start"@ || action == "stop"@) && url && !(u matches Upstream::Answered { status, .. }
            && 200 <= status <= 299)) ==> vpn_reply_spec(action, url, u) == (502u16, Some("Upstream error"@)),
{
}

/// The VPN status that an action asks Gluetun for: `start` asks for
/// `running`, `stop` for `stopped`.
pub open spec fn vpn_target(action: Seq<char>) -> Option<Seq<char>> {
    if action == "start"@ {
        Some("running"@)
    } else if action == "stop"@ {
        Some("stopped"@)
    } else {
        None
    }
}

/// The VPN status that `action` asks for, if it is an action.
pub fn vpn_status_for(action: &str) -> (r: Option<String>)
    ensures
        match vpn_target(action@) {
            Some(t) => r matches Some(s) && s@ == t,
            None => r is None,
        },
{
    let a = owned(action);
    if a == owned("start") {
        Some(owned("running"))
    } else if a == owned("stop") {
        Some(owned("stopped"))
    } else {
        None
    }
}

/// The reply to a VPN action: 400 for an unknown action, 500 where no URL
/// could be formed, the (possibly empty) data with 200 on success, and
/// `Upstream error` with 502 otherwise.
pub open spec fn vpn_reply_spec(action: Seq<char>, url: bool, u: Upstream) -> (u16, Option<Seq<char>>) {
    if vpn_target(action) is None {
        (400, Some("Invalid action. Use start or stop."@))
    } else if !url {
        (500, Some("Internal server error"@))
    } else {
        match u {
            Upstream::Answered { status, json } => if is_success(status) {
                (200, None)
            } else {
                (502, Some("Upstream error"@))
            },
            Upstream::Unreachable => (502, Some("Upstream error"@)),
        }
    }
}

/// The reply to a VPN action, once the request (if any) was made. A body that
/// does not read as JSON is passed on as `null`.
pub fn vpn_reply(action: &str, url: bool, u: &Upstream) -> (r: Reply)
    ensures
        reply_view(r) == vpn_reply_spec(action@, url, *u),
{
    if vpn_status_for(action).is_none() {
        return Reply::Failure { status: 400, message: owned("Invalid action. Use start or stop.") };
    }
    if !url {
        return Reply::Failure { status: 500, message: owned("Internal server error") };
    }
    match u {
        Upstream::Answered { status, json: _ } => if 200 <= *status && *status <= 299 {
            Reply::Data { status: 200 }
        } else {
            Reply::Failure { status: 502, message: owned("Upstream error") }
        },
        Upstream::Unreachable => Reply::Failure { status: 502, message: owned("Upstream error") },
    }
}

/// A top-level value of a JSON object, as far as the connector reads it.
#[derive(Debug)]
pub enum JsonField {
    Text(String),
    Other,
}

/// The top-level members of a JSON body, where it is an object.
#[derive(Debug)]
pub struct JsonBody {
    pub members: Option<Vec<(String, JsonField)>>,
}

pub open spec fn field_view(f: JsonField) -> Option<Seq<char>> {
    match f {
        JsonField::Text(s) => Some(s@),
        JsonField::Other => None,
    }
}

/// The member `key` of an object: present or not, and its text if it is a
/// string.
pub open spec fn member(members: Seq<(String, JsonField)>, key: Seq<char>) -> Option<Option<Seq<char>>>
    decreases members.len(),
{
    if members.len() == 0 {
        None
    } else if members[0].0@ == key {
        Some(field_view(members[0].1))
    } else {
        member(members.drop_first(), key)
    }
}

/// The public IP that Gluetun reports: the first of `public_ip`, `ip`, `IP`
/// that is present, if it is a string; empty text otherwise.
pub open spec fn reported_ip(body: JsonBody) -> Seq<char> {
    match body.members {
        Some(ms) => {
            let found = match member(ms@, "public_ip"@) {
                Some(v) => Some(v),
                None => match member(ms@, "ip"@) {
                    Some(v) => Some(v),
                    None => member(ms@, "IP"@),
                },
            };
            match found {
                Some(Some(t)) => t,
                _ => Seq::empty(),
            }
        },
        None => Seq::empty(),
    }
}

fn find_member(members: &Vec<(String, JsonField)>, key: &str) -> (r: Option<Option<String>>)
    ensures
        match member(members@, key@) {
            Some(Some(t)) => r matches Some(Some(s)) && s@ == t,
            Some(None) => r == Some(None::<String>),
            None => r is None,
        },
{
    let k = owned(key);
    let mut i: usize = 0;
    assert(members@.skip(0) == members@);
    while i < members.len()
        invariant
            i <= members@.len(),
            k@ == key@,
            member(members@, key@) == member(members@.skip(i as int), key@),
        decreases members.len() - i,
    {
        assert(members@.skip(i as int)[0] == members@[i as int]);
        assert(members@.skip(i as int).drop_first() == members@.skip(i + 1));
        if members[i].0 == k {
            return match &members[i].1 {
                JsonField::Text(s) => Some(Some(s.clone())),
                JsonField::Other => Some(None),
            };
        }
        i = i + 1;
    }
    None
}

/// The public IP that the body of Gluetun's public-IP answer reports.
pub fn public_ip(body: &JsonBody) -> (ip: String)
    ensures
        ip@ == reported_ip(*body),
{
    match &body.members {
        Some(ms) => {
            let mut found = find_member(ms, "public_ip");
            if found.is_none() {
                found = find_member(ms, "ip");
            }
            if found.is_none() {
                found = find_member(ms, "IP");
            }
            match found {
                Some(Some(t)) => t,
                _ => String::new(),
            }
        },
        None => String::new(),
    }
}

/// The tunnel is up: Gluetun reports a public IP.
pub open spec fn tunnel_up(body: Option<JsonBody>) -> bool {
    match body {
        Some(b) => reported_ip(b).len() > 0,
        None => false,
    }
}

/// Whether the VPN tunnel is established, from Gluetun's answer to the
/// public-IP request (`None` where it failed or was not a success).
pub fn is_tunnel_up(body: &Option<JsonBody>) -> (up: bool)
    ensures
        up == tunnel_up(*body),
{
    match body {
        Some(b) => {
            let ip = public_ip(b);
            chars_of(ip.as_str()).len() > 0
        },
        None => false,
    }
}

} // verus!
