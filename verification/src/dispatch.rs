//! The per-request dispatch rules: classify the request against the traffic
//! filter, then decide between the block response, the CONNECT tunnel, the
//! plain forward, and the two bad-request responses.
//!
//! The socket work itself (dialling the origin, the handshake, the byte
//! copy of a tunnel) belongs to the runner; it executes the plan decided
//! here and publishes the record as a `RequestEvent` command.

use vstd::prelude::*;
use crate::filter::{spec_blocked, TrafficFilter};
use crate::proxy::ProxyRequestLog;
use crate::uri::{connect_authority, forward_target, spec_connect_ok, spec_forward_target};

verus! {

/// What the runner must do with one request.
pub enum RequestPlan {
    /// Respond 403 with the fixed block body; do not forward.
    Blocked,
    /// Respond 200, complete the upgrade, then tunnel bytes to and from
    /// this authority until either side closes.
    ConnectTunnel(String),
    /// Respond 400: the CONNECT target is not a socket address.
    ConnectBadRequest,
    /// Dial this host and port, send the request as received, and relay
    /// the origin response verbatim.
    Forward(String, u16),
    /// Respond 400: the request URI names no usable host.
    ForwardBadRequest,
}

/// The dispatch decision for one request: the plan, and the record to
/// publish (none while the filter is disabled).
pub struct RequestDecision {
    pub plan: RequestPlan,
    pub record: Option<ProxyRequestLog>,
}

/// The request method that asks for a tunnel.
pub open spec fn is_connect(method: Seq<char>) -> bool {
    method == "CONNECT"@
}

fn is_connect_method(method: &str) -> (r: bool)
    ensures
        r == is_connect(method@),
{
    let m = method.to_owned();
    let c = String::from_str("CONNECT");
    m.eq(&c)
}

/// Decides one request.
///
/// With the filter enabled, a record carrying the classification is always
/// produced, and a blocked request goes no further. With the filter
/// disabled, classification is skipped and no record is produced. An
/// unblocked CONNECT is planned as a tunnel when its target is a socket
/// address; any other unblocked method is planned as a forward when its
/// URI names a host (port 80 when none is written).
pub fn plan_request(method: &str, uri: &str, filter: &TrafficFilter) -> (d: RequestDecision)
    ensures
        filter.enabled ==> (d.record matches Some(r) && r.method@ == method@ && r.request@ == uri@
            && r.blocked == spec_blocked(*filter, uri@)),
        !filter.enabled ==> d.record is None,
        filter.enabled && spec_blocked(*filter, uri@) ==> d.plan is Blocked,
        !(filter.enabled && spec_blocked(*filter, uri@)) && is_connect(method@) ==> (
        if spec_connect_ok(uri@) {
            d.plan matches RequestPlan::ConnectTunnel(a) && a@ == uri@
        } else {
            d.plan is ConnectBadRequest
        }),
        !(filter.enabled && spec_blocked(*filter, uri@)) && !is_connect(method@) ==> (
        match spec_forward_target(uri@) {
            Some(hp) => d.plan matches RequestPlan::Forward(h, p) && h@ == hp.0 && p == hp.1,
            None => d.plan is ForwardBadRequest,
        }),
{
    let enabled = filter.get_enabled();
    let mut record: Option<ProxyRequestLog> = None;
    let mut blocked = false;
    if enabled {
        let matched = filter.in_filter_list(uri);
        let blocking = filter.is_blocking();
        blocked = (matched && !blocking) || (!matched && blocking);
        record = Some(
            ProxyRequestLog { method: method.to_owned(), request: uri.to_owned(), blocked },
        );
    }
    if enabled && blocked {
        return RequestDecision { plan: RequestPlan::Blocked, record };
    }
    if is_connect_method(method) {
        match connect_authority(uri) {
            Some(authority) => RequestDecision {
                plan: RequestPlan::ConnectTunnel(authority),
                record,
            },
            None => RequestDecision { plan: RequestPlan::ConnectBadRequest, record },
        }
    } else {
        match forward_target(uri) {
            Some(target) => RequestDecision {
                plan: RequestPlan::Forward(target.0, target.1),
                record,
            },
            None => RequestDecision { plan: RequestPlan::ForwardBadRequest, record },
        }
    }
}

/// The HTTP status code of each plan: 403 for a block, 400 for either
/// bad request, 200 otherwise.
pub fn plan_status_code(plan: &RequestPlan) -> (c: u16)
    ensures
        plan is Blocked ==> c == 403,
        plan is ConnectBadRequest || plan is ForwardBadRequest ==> c == 400,
        plan is ConnectTunnel || plan is Forward ==> c == 200,
{
    match plan {
        RequestPlan::Blocked => 403,
        RequestPlan::ConnectBadRequest => 400,
        RequestPlan::ForwardBadRequest => 400,
        RequestPlan::ConnectTunnel(_) => 200,
        RequestPlan::Forward(_, _) => 200,
    }
}

/// The response body the proxy itself emits for each plan.
pub fn plan_body(plan: &RequestPlan) -> (b: String)
    ensures
        plan is Blocked ==> b@ == "Oopsie Whoopsie!"@,
        plan is ConnectBadRequest ==> b@ == "CONNECT must be to a socket address"@,
        plan is ForwardBadRequest ==> b@ == "Host address could not be processed."@,
        plan is ConnectTunnel || plan is Forward ==> b@.len() == 0,
{
    match plan {
        RequestPlan::Blocked => String::from_str("Oopsie Whoopsie!"),
        RequestPlan::ConnectBadRequest => String::from_str("CONNECT must be to a socket address"),
        RequestPlan::ForwardBadRequest => String::from_str(
            "Host address could not be processed.",
        ),
        RequestPlan::ConnectTunnel(_) => String::new(),
        RequestPlan::Forward(_, _) => String::new(),
    }
}

} // verus!
