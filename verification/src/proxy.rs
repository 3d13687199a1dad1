//! The proxy handler's decision logic: what the client-facing response is for
//! each outcome of the single forwarding attempt to the live-data backend.
//! Transport failures and malformed header bytes are mapped to a generic
//! server-error status; a well-formed backend response is relayed with its
//! status and every header copied verbatim, the body streamed through.

use vstd::prelude::*;

verus! {

use crate::bytes::lower_byte;
use crate::headers::{all_headers_valid, check_headers};

/// The status returned to the client when the backend cannot be reached or
/// hands back malformed header bytes; the failure is for the log, not for the
/// client.
pub const UPSTREAM_FAILURE_STATUS: u16 = 500;

/// What came back from the one forwarding attempt to the backend, as plain
/// values: either a transport failure, or a status code with the response's
/// header pairs (the body stays a lazy stream and is not part of the
/// decision).
#[derive(Debug, PartialEq, Eq)]
pub enum UpstreamOutcome {
    /// The backend could not be reached or the exchange failed in transport.
    TransportFailed,
    /// The backend answered with this status and these header name/value
    /// pairs, in order.
    Delivered { status: u16, headers: Vec<(Vec<u8>, Vec<u8>)> },
}

/// The client-facing response the handler must produce.
#[derive(Debug, PartialEq, Eq)]
pub enum ProxyReply {
    /// Answer with this status and an empty body; nothing of the failure
    /// reaches the client.
    ErrorStatus(u16),
    /// Relay: answer with this status and exactly these headers, streaming
    /// the backend's body bytes through unchanged.
    Relay { status: u16, headers: Vec<(Vec<u8>, Vec<u8>)> },
}

/// The reply owed for each backend outcome: a transport failure becomes the
/// generic upstream-failure status; a delivered response whose headers all
/// re-validate is relayed with the same status and the same header pairs; one
/// with any malformed header pair is treated as an upstream failure for this
/// request.
pub open spec fn relay_spec(u: UpstreamOutcome) -> ProxyReply {
    match u {
        UpstreamOutcome::TransportFailed => ProxyReply::ErrorStatus(UPSTREAM_FAILURE_STATUS),
        UpstreamOutcome::Delivered { status, headers } => if all_headers_valid(headers@) {
            ProxyReply::Relay { status, headers }
        } else {
            ProxyReply::ErrorStatus(UPSTREAM_FAILURE_STATUS)
        },
    }
}

/// Decides the client-facing response for one backend outcome.
pub fn relay_decision(u: UpstreamOutcome) -> (r: ProxyReply)
    ensures
        r == relay_spec(u),
        u is TransportFailed ==> r == ProxyReply::ErrorStatus(UPSTREAM_FAILURE_STATUS),
{
    match u {
        UpstreamOutcome::TransportFailed => ProxyReply::ErrorStatus(UPSTREAM_FAILURE_STATUS),
        UpstreamOutcome::Delivered { status, headers } => {
            if check_headers(&headers) {
                ProxyReply::Relay { status, headers }
            } else {
                ProxyReply::ErrorStatus(UPSTREAM_FAILURE_STATUS)
            }
        },
    }
}


/// Law: relaying is a round trip. For every backend status and every header
/// set whose bytes are valid, the reply keeps the status and every header
/// pair exactly; nothing is renamed, reordered, dropped or added. (The body
/// is streamed through outside this decision and is not altered by it.)
pub proof fn lemma_relay_round_trip(status: u16, headers: Vec<(Vec<u8>, Vec<u8>)>)
    requires
        all_headers_valid(headers@),
    ensures
        relay_spec(UpstreamOutcome::Delivered { status, headers }) == (ProxyReply::Relay {
            status,
            headers,
        }),
{
}


/// The pair's name is `Host`, ignoring ASCII case.
pub open spec fn is_host_header(h: (Vec<u8>, Vec<u8>)) -> bool {
    &&& h.0@.len() == 4
    &&& lower_byte(h.0@[0]) == 104
    &&& lower_byte(h.0@[1]) == 111
    &&& lower_byte(h.0@[2]) == 115
    &&& lower_byte(h.0@[3]) == 116
}

/// The forwarded set built from the first `n` inbound pairs: every pair
/// except `Host`, order kept.
pub open spec fn forwarded_prefix(hs: Seq<(Vec<u8>, Vec<u8>)>, n: int) -> Seq<(Vec<u8>, Vec<u8>)>
    decreases n,
{
    if n <= 0 {
        Seq::empty()
    } else if is_host_header(hs[n - 1]) {
        forwarded_prefix(hs, n - 1)
    } else {
        forwarded_prefix(hs, n - 1).push(hs[n - 1])
    }
}

/// The request headers the proxy forwards to the backend: every inbound
/// name/value pair except `Host`, in order and untouched.
pub open spec fn forwarded_headers(hs: Seq<(Vec<u8>, Vec<u8>)>) -> Seq<(Vec<u8>, Vec<u8>)> {
    forwarded_prefix(hs, hs.len() as int)
}

/// Checks whether a pair's name is `Host`, ignoring ASCII case.
fn is_host_header_exec(h: &(Vec<u8>, Vec<u8>)) -> (r: bool)
    ensures
        r == is_host_header(*h),
{
    if h.0.len() != 4 {
        return false;
    }
    lower_byte_exec(h.0[0]) == 104 && lower_byte_exec(h.0[1]) == 111 && lower_byte_exec(h.0[2])
        == 115 && lower_byte_exec(h.0[3]) == 116
}

fn lower_byte_exec(b: u8) -> (r: u8)
    ensures
        r == lower_byte(b),
{
    if 65 <= b && b <= 90 {
        b + 32
    } else {
        b
    }
}

/// Selects the request headers to forward to the backend: every inbound pair
/// except `Host`, in order, each preserved untouched. The authority toward
/// the backend is the upstream origin, so the inbound `Host` is dropped;
/// standard proxy hygiene drops nothing else here.
pub fn select_forward_headers(hs: Vec<(Vec<u8>, Vec<u8>)>) -> (r: Vec<(Vec<u8>, Vec<u8>)>)
    ensures
        r@ == forwarded_headers(hs@),
{
    let ghost orig = hs@;
    let mut rest = hs;
    let mut out: Vec<(Vec<u8>, Vec<u8>)> = Vec::new();
    let ghost mut i: int = 0;
    while rest.len() > 0
        invariant
            0 <= i,
            i + rest@.len() == orig.len(),
            rest@ == orig.subrange(i, orig.len() as int),
            out@ == forwarded_prefix(orig, i),
        decreases rest@.len(),
    {
        let h = rest.remove(0);
        proof {
            assert(h == orig[i]);
            assert(orig.subrange(i, orig.len() as int).remove(0) =~= orig.subrange(
                i + 1,
                orig.len() as int,
            ));
        }
        if !is_host_header_exec(&h) {
            out.push(h);
        }
        proof {
            i = i + 1;
        }
    }
    out
}

} // verus!


