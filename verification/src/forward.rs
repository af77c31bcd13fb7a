//! The forwarding planner: reconstructs an equivalent outbound request for
//! the upstream target and relays the upstream response back, copying headers
//! and body verbatim except for a small set of transport-framing headers.

use vstd::prelude::*;
use vstd::string::StringExecFns;

verus! {

/// The characters and bytes of a header list.
pub open spec fn header_views(hs: Seq<(String, Vec<u8>)>) -> Seq<(Seq<char>, Seq<u8>)> {
    hs.map_values(|h: (String, Vec<u8>)| (h.0@, h.1@))
}

/// The headers of `hs` whose names are neither `a` nor `b`, in order.
pub open spec fn strip(hs: Seq<(Seq<char>, Seq<u8>)>, a: Seq<char>, b: Seq<char>) -> Seq<
    (Seq<char>, Seq<u8>),
> {
    hs.filter(|h: (Seq<char>, Seq<u8>)| h.0 != a && h.0 != b)
}

/// The outbound URL: the target base, then the inbound path, then, when a
/// query string is present, `?` and that query string verbatim.
pub open spec fn outbound_url(target: Seq<char>, path: Seq<char>, query: Option<Seq<char>>) -> Seq<
    char,
> {
    match query {
        Some(q) => target + path + "?"@ + q,
        None => target + path,
    }
}

/// An outbound request ready to dispatch to the upstream target.
pub struct OutboundRequest {
    pub method: String,
    pub url: String,
    pub headers: Vec<(String, Vec<u8>)>,
    pub body: Option<Vec<u8>>,
}

/// The answer relayed to the original caller after a successful upstream
/// exchange.
pub struct RelayedResponse {
    pub status: u16,
    pub headers: Vec<(String, Vec<u8>)>,
    pub body: Vec<u8>,
}

/// A per-request failure of the forwarding pipeline.
pub enum ProxyFailure {
    /// The inbound body could not be read.
    UnreadableBody,
    /// The upstream could not be reached or the exchange failed in transport.
    UpstreamUnreachable,
    /// The outbound request or the relayed response could not be constructed.
    ResponseConstruction,
}

fn copy_bytes(v: &Vec<u8>) -> (r: Vec<u8>)
    ensures
        r@ == v@,
{
    let mut r: Vec<u8> = Vec::new();
    let n = v.len();
    let mut i: usize = 0;
    while i < n
        invariant
            i <= n,
            n == v@.len(),
            r@ == v@.take(i as int),
        decreases n - i,
    {
        r.push(v[i]);
        proof {
            assert(r@ =~= v@.take(i as int + 1));
        }
        i += 1;
    }
    proof {
        assert(v@.take(n as int) =~= v@);
    }
    r
}

/// Copies `headers`, leaving out every header whose name is `a` or `b`.
fn strip_headers(headers: &Vec<(String, Vec<u8>)>, a: &str, b: &str) -> (out: Vec<
    (String, Vec<u8>),
>)
    ensures
        header_views(out@) == strip(header_views(headers@), a@, b@),
{
    let ghost hv = header_views(headers@);
    let ghost pred = |h: (Seq<char>, Seq<u8>)| h.0 != a@ && h.0 != b@;
    let a_owned = a.to_owned();
    let b_owned = b.to_owned();
    let mut out: Vec<(String, Vec<u8>)> = Vec::new();
    let n = headers.len();
    let mut i: usize = 0;
    proof {
        reveal_with_fuel(Seq::filter, 1);
        assert(hv.take(0) =~= Seq::<(Seq<char>, Seq<u8>)>::empty());
        assert(header_views(out@) =~= hv.take(0).filter(pred));
    }
    while i < n
        invariant
            i <= n,
            n == headers@.len(),
            hv == header_views(headers@),
            pred == (|h: (Seq<char>, Seq<u8>)| h.0 != a@ && h.0 != b@),
            a_owned@ == a@,
            b_owned@ == b@,
            header_views(out@) == hv.take(i as int).filter(pred),
        decreases n - i,
    {
        let keep = !(headers[i].0 == a_owned || headers[i].0 == b_owned);
        let ghost prev = hv.take(i as int);
        proof {
            assert(hv.take(i as int + 1) =~= prev.push(hv[i as int]));
            assert(hv.take(i as int + 1).drop_last() =~= prev);
            reveal_with_fuel(Seq::filter, 2);
        }
        if keep {
            let name = headers[i].0.clone();
            let value = copy_bytes(&headers[i].1);
            out.push((name, value));
            proof {
                assert(header_views(out@) =~= hv.take(i as int).filter(pred).push(
                    hv[i as int],
                ));
                assert(hv.take(i as int + 1).filter(pred) == hv.take(i as int).filter(pred).push(
                    hv[i as int],
                ));
            }
        } else {
            proof {
                assert(hv.take(i as int + 1).filter(pred) == hv.take(i as int).filter(pred));
            }
        }
        i += 1;
    }
    proof {
        assert(hv.take(n as int) =~= hv);
    }
    out
}

/// Builds the outbound request for the upstream target: the same method, the
/// target base URL with the inbound path and query string appended verbatim,
/// all inbound headers except `host` and `content-length` (recomputed by the
/// outbound client for the new destination), and the inbound body attached
/// only when it is non-empty.
pub fn plan_forward(
    target: &str,
    method: String,
    path: &str,
    query: Option<&str>,
    headers: &Vec<(String, Vec<u8>)>,
    body: Vec<u8>,
) -> (r: OutboundRequest)
    ensures
        r.method == method,
        r.url@ == outbound_url(
            target@,
            path@,
            (match query {
                Some(q) => Some(q@),
                None => None::<Seq<char>>,
            }),
        ),
        header_views(r.headers@) == strip(header_views(headers@), "host"@, "content-length"@),
        (match r.body {
            Some(b) => body@.len() > 0 && b@ == body@,
            None => body@.len() == 0,
        }),
{
    let mut url = target.to_owned();
    url.append(path);
    if let Some(q) = query {
        url.append("?");
        url.append(q);
    }
    let out_headers = strip_headers(headers, "host", "content-length");
    let out_body = if body.len() == 0 {
        None
    } else {
        Some(body)
    };
    OutboundRequest { method, url, headers: out_headers, body: out_body }
}

/// Builds the answer relayed to the original caller: the upstream status, all
/// upstream headers except `content-length` and `transfer-encoding`
/// (recomputed by the serving layer for the new body), and the upstream body
/// bytes unchanged.
pub fn plan_relay(status: u16, headers: &Vec<(String, Vec<u8>)>, body: Vec<u8>) -> (r:
    RelayedResponse)
    ensures
        r.status == status,
        header_views(r.headers@) == strip(
            header_views(headers@),
            "content-length"@,
            "transfer-encoding"@,
        ),
        r.body@ == body@,
{
    let out_headers = strip_headers(headers, "content-length", "transfer-encoding");
    RelayedResponse { status, headers: out_headers, body }
}

/// The status answering a blocked request: the design intentionally signals
/// interception as a server-error-class status, with no upstream call.
pub fn blocked_status() -> (s: u16)
    ensures
        s == 500u16,
{
    500
}

/// The status answering each forwarding failure: a client error for an
/// unreadable inbound body, a gateway failure for an unreachable upstream,
/// and an internal error for a construction failure.
pub fn failure_status(failure: &ProxyFailure) -> (s: u16)
    ensures
        s == (match failure {
            ProxyFailure::UnreadableBody => 400u16,
            ProxyFailure::UpstreamUnreachable => 502u16,
            ProxyFailure::ResponseConstruction => 500u16,
        }),
{
    match failure {
        ProxyFailure::UnreadableBody => 400,
        ProxyFailure::UpstreamUnreachable => 502,
        ProxyFailure::ResponseConstruction => 500,
    }
}

/// Law: stripping keeps no header named `a` or `b`, and every header named
/// otherwise survives, so a forwarded header set is exactly the inbound one
/// minus the named transport-framing headers.
pub proof fn lemma_strip_exact(hs: Seq<(Seq<char>, Seq<u8>)>, a: Seq<char>, b: Seq<char>)
    ensures
        forall|i: int|
            0 <= i < strip(hs, a, b).len() ==> (#[trigger] strip(hs, a, b)[i]).0 != a && strip(
                hs,
                a,
                b,
            )[i].0 != b,
        forall|i: int|
            0 <= i < hs.len() && (#[trigger] hs[i]).0 != a && hs[i].0 != b ==> strip(
                hs,
                a,
                b,
            ).contains(hs[i]),
{
    broadcast use vstd::seq_lib::group_filter_ensures;


}

} // verus!
