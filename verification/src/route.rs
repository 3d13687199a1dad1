//! Request routing: decide whether a request path belongs to the live-data
//! proxy (`/maps/{world}/live/**`) or to the static asset store.

use vstd::prelude::*;

verus! {

use crate::bytes::{first_at, lemma_first_at, find_byte, SLASH};
use crate::upstream::{build_target, target_seq};

/// The byte sequence `/maps/`.
pub open spec fn maps_prefix() -> Seq<u8> {
    seq![47u8, 109u8, 97u8, 112u8, 115u8, 47u8]
}

/// The byte sequence `/live`.
pub open spec fn live_seg() -> Seq<u8> {
    seq![47u8, 108u8, 105u8, 118u8, 101u8]
}

/// A path is a live-data path when it is `/maps/`, then a non-empty world
/// segment (no `/`), then the literal segment `live`, then either nothing or
/// `/` and an arbitrary remainder.
pub open spec fn is_live_path(p: Seq<u8>) -> bool {
    let w_end = first_at(p, 6, SLASH);
    &&& p.len() >= 6
    &&& p.subrange(0, 6) == maps_prefix()
    &&& w_end > 6
    &&& w_end + 5 <= p.len()
    &&& p.subrange(w_end, w_end + 5) == live_seg()
    &&& (p.len() == w_end + 5 || p[w_end + 5] == SLASH)
}

/// Where a request is dispatched.
#[derive(Clone, Copy, Debug, PartialEq, Eq, Structural)]
pub enum Route {
    /// Forward to the live-data backend.
    Proxy,
    /// Serve from the static asset store.
    Asset,
}

/// The route of a path: live-data paths are proxied, everything else is
/// served from the asset store.
pub open spec fn route_of(p: Seq<u8>) -> Route {
    if is_live_path(p) {
        Route::Proxy
    } else {
        Route::Asset
    }
}

/// Classifies a request path: `Route::Proxy` exactly for live-data paths,
/// `Route::Asset` for everything else.
pub fn classify(p: &[u8]) -> (r: Route)
    ensures
        r == route_of(p@),
        r == Route::Proxy <==> is_live_path(p@),
{
    if p.len() < 12 {
        proof {
            if p@.len() >= 6 {
                lemma_first_at(p@, 6, SLASH);
            }
        }
        return Route::Asset;
    }
    if !(p[0] == 47 && p[1] == 109 && p[2] == 97 && p[3] == 112 && p[4] == 115 && p[5] == 47) {
        proof {
            assert(p@.subrange(0, 6) != maps_prefix()) by {
                let pre = p@.subrange(0, 6);
                if pre == maps_prefix() {
                    assert(pre[0] == 47 && pre[1] == 109 && pre[2] == 97 && pre[3] == 112
                        && pre[4] == 115 && pre[5] == 47);
                }
            }
        }
        return Route::Asset;
    }
    proof {
        assert(p@.subrange(0, 6) =~= maps_prefix());
        lemma_first_at(p@, 6, SLASH);
    }
    let w_end = find_byte(p, 6, SLASH);
    if w_end == 6 || w_end >= p.len() {
        return Route::Asset;
    }
    if p.len() - w_end < 5 {
        return Route::Asset;
    }
    if !(p[w_end + 1] == 108 && p[w_end + 2] == 105 && p[w_end + 3] == 118 && p[w_end + 4] == 101)
    {
        proof {
            assert(p@.subrange(w_end as int, w_end + 5) != live_seg()) by {
                let seg = p@.subrange(w_end as int, w_end + 5);
                if seg == live_seg() {
                    assert(seg[1] == 108 && seg[2] == 105 && seg[3] == 118 && seg[4] == 101);
                }
            }
        }
        return Route::Asset;
    }
    proof {
        assert(p@.subrange(w_end as int, w_end + 5) =~= live_seg());
    }
    if p.len() - w_end == 5 {
        return Route::Proxy;
    }
    if p[w_end + 5] == 47 {
        Route::Proxy
    } else {
        Route::Asset
    }
}

/// Law: the router is a total, exclusive dispatch. A path that is not a
/// live-data path is dispatched to the asset store and never reaches the
/// proxy; a live-data path is always proxied.
pub proof fn lemma_non_live_routed_to_assets(p: Seq<u8>)
    ensures
        !is_live_path(p) ==> route_of(p) == Route::Asset,
        is_live_path(p) ==> route_of(p) == Route::Proxy,
{
}

/// The router's full decision for one request: either the upstream URL the
/// proxy must fetch, or dispatch to the asset store with the path unchanged.
#[derive(Debug, PartialEq, Eq)]
pub enum RequestDecision {
    /// Forward to the live-data backend at this URL, preserving method and
    /// headers, streaming the response back.
    ProxyTo(Vec<u8>),
    /// Hand the request to the asset store reader.
    ServeAsset,
}

/// Dispatches one request. A live-data path is proxied to
/// `http://{origin}{path_and_query}`: the original target byte for byte, with
/// only the authority substituted. Every other path goes to the asset store
/// and never reaches the upstream client.
pub fn route_request(path: &[u8], path_and_query: &[u8], origin: &[u8]) -> (r: RequestDecision)
    ensures
        is_live_path(path@) ==> (r matches RequestDecision::ProxyTo(t) && t@ == target_seq(
            origin@,
            path_and_query@,
        )),
        !is_live_path(path@) ==> r == RequestDecision::ServeAsset,
{
    match classify(path) {
        Route::Proxy => RequestDecision::ProxyTo(build_target(origin, path_and_query)),
        Route::Asset => RequestDecision::ServeAsset,
    }
}

} // verus!

