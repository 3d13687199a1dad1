//! The upstream origin (`host:port`) and the target URL the proxy sends each
//! live-data request to (`http://{origin}{path_and_query}`). The scheme toward
//! the backend is always plaintext HTTP: the backend is local and trusted,
//! whether or not the public listener terminates TLS.

use vstd::prelude::*;

verus! {

use crate::bytes::push_all;

/// Decimal digit bytes of `n`, most significant first, no leading zeros.
pub open spec fn dec_digits(n: nat) -> Seq<u8>
    decreases n,
{
    if n < 10 {
        seq![(48 + n) as u8]
    } else {
        dec_digits(n / 10).push((48 + n % 10) as u8)
    }
}

/// The byte sequence `http://`.
pub open spec fn scheme_prefix() -> Seq<u8> {
    seq![104u8, 116u8, 116u8, 112u8, 58u8, 47u8, 47u8]
}

/// The authority string `host:port` as bytes.
pub open spec fn origin_seq(host: Seq<u8>, port: u16) -> Seq<u8> {
    host + seq![58u8] + dec_digits(port as nat)
}

/// The full upstream URL for a request target: `http://` + origin + target.
pub open spec fn target_seq(origin: Seq<u8>, path_and_query: Seq<u8>) -> Seq<u8> {
    scheme_prefix() + origin + path_and_query
}

/// Appends the decimal digits of `n` to `out`.
fn push_decimal(n: u16, out: &mut Vec<u8>)
    ensures
        final(out)@ == old(out)@ + dec_digits(n as nat),
    decreases n,
{
    if n < 10 {
        out.push(48 + n as u8);
        proof {
            assert(out@ =~= old(out)@ + dec_digits(n as nat));
        }
    } else {
        push_decimal(n / 10, out);
        out.push(48 + (n % 10) as u8);
        proof {
            assert(out@ =~= old(out)@ + dec_digits(n as nat));
        }
    }
}

/// Builds the upstream authority string `host:port`, computed once at startup
/// and reused for every proxied request.
pub fn build_origin(host: &[u8], port: u16) -> (r: Vec<u8>)
    ensures
        r@ == origin_seq(host@, port),
{
    let mut out: Vec<u8> = Vec::new();
    push_all(&mut out, host);
    out.push(58);
    push_decimal(port, &mut out);
    proof {
        assert(out@ =~= origin_seq(host@, port));
    }
    out
}

/// Builds the upstream URL `http://{origin}{path_and_query}` for one request.
pub fn build_target(origin: &[u8], path_and_query: &[u8]) -> (r: Vec<u8>)
    ensures
        r@ == target_seq(origin@, path_and_query@),
{
    let mut out: Vec<u8> = Vec::new();
    out.push(104);
    out.push(116);
    out.push(116);
    out.push(112);
    out.push(58);
    out.push(47);
    out.push(47);
    proof {
        assert(out@ =~= scheme_prefix());
    }
    push_all(&mut out, origin);
    push_all(&mut out, path_and_query);
    proof {
        assert(out@ =~= target_seq(origin@, path_and_query@));
    }
    out
}

/// Law: the proxied target is exactly `http://{host}:{port}` followed by the
/// original path and query, byte for byte; only the authority is substituted,
/// the request target itself is untouched.
pub proof fn lemma_live_target_exact(host: Seq<u8>, port: u16, path_and_query: Seq<u8>)
    ensures
        target_seq(origin_seq(host, port), path_and_query) == scheme_prefix() + host + seq![58u8]
            + dec_digits(port as nat) + path_and_query,
{
    assert(target_seq(origin_seq(host, port), path_and_query) =~= scheme_prefix() + host
        + seq![58u8] + dec_digits(port as nat) + path_and_query);
}

} // verus!
