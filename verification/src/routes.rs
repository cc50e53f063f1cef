//! Fixed rules of the HTTP interface: request-rate quotas and the replies
//! that do not depend on Gluetun.
use vstd::prelude::*;
use crate::text::owned;
use crate::upstream::{Reply, reply_view};

verus! {

/// The groups of routes that share a request-rate quota.
#[derive(PartialEq, Eq, Structural, Debug, Clone, Copy)]
pub enum RouteGroup {
    /// The read-only API.
    Read,
    /// The VPN start/stop API.
    Vpn,
    /// The static files of the web interface.
    Static,
}

/// A quota per client address: one request more every `period_ms`
/// milliseconds, up to `burst` at once.
#[derive(Debug)]
pub struct RateLimit {
    pub period_ms: u64,
    pub burst: u32,
}

/// The window, in milliseconds, in which a group allows `burst` requests:
/// 120 per minute, 10 per minute, 100 per fifteen minutes.
pub open spec fn window_ms(g: RouteGroup) -> nat {
    match g {
        RouteGroup::Read => 60_000,
        RouteGroup::Vpn => 60_000,
        RouteGroup::Static => 900_000,
    }
}

pub open spec fn burst_of(g: RouteGroup) -> nat {
    match g {
        RouteGroup::Read => 120,
        RouteGroup::Vpn => 10,
        RouteGroup::Static => 100,
    }
}

/// The quota of a group: `burst` requests, replenished evenly over the
/// group's window.
pub fn rate_limit_for(g: RouteGroup) -> (r: RateLimit)
    ensures
        r.burst == burst_of(g),
        r.period_ms * r.burst == window_ms(g),
        r.period_ms > 0,
        r.burst > 0,
{
    match g {
        RouteGroup::Read => RateLimit { period_ms: 500, burst: 120 },
        RouteGroup::Vpn => RateLimit { period_ms: 6000, burst: 10 },
        RouteGroup::Static => RateLimit { period_ms: 9000, burst: 100 },
    }
}

/// The reply to a client over its quota.
pub fn too_many_requests_reply() -> (r: Reply)
    ensures
        reply_view(r) == (429u16, Some("Too many requests, please try again later."@)),
{
    Reply::Failure { status: 429, message: owned("Too many requests, please try again later.") }
}

/// The reply to an unknown API path.
pub fn api_not_found() -> (r: Reply)
    ensures
        reply_view(r) == (404u16, Some("Not found"@)),
{
    Reply::Failure { status: 404, message: owned("Not found") }
}

} // verus!
