use bluemap_edge::route::{classify, route_request, RequestDecision, Route};
use bluemap_edge::upstream::{build_origin, build_target};

#[test]
fn live_paths_are_proxied() {
    assert_eq!(classify(b"/maps/world1/live/tiles/0/0/0.png"), Route::Proxy);
    assert_eq!(classify(b"/maps/w/live/markers.json"), Route::Proxy);
    assert_eq!(classify(b"/maps/overworld/live/"), Route::Proxy);
    assert_eq!(classify(b"/maps/overworld/live"), Route::Proxy);
}

#[test]
fn non_live_paths_go_to_assets() {
    assert_eq!(classify(b"/"), Route::Asset);
    assert_eq!(classify(b"/index.html"), Route::Asset);
    assert_eq!(classify(b"/assets/app.js"), Route::Asset);
    assert_eq!(classify(b"/maps"), Route::Asset);
    assert_eq!(classify(b"/maps/"), Route::Asset);
    assert_eq!(classify(b"/maps/world1"), Route::Asset);
    assert_eq!(classify(b"/maps/world1/textures.json"), Route::Asset);
    assert_eq!(classify(b"/mapsx/world1/live/a"), Route::Asset);
    assert_eq!(classify(b""), Route::Asset);
}

#[test]
fn partial_live_segment_does_not_match() {
    assert_eq!(classify(b"/maps/foo/liveX"), Route::Asset);
    assert_eq!(classify(b"/maps/foo/livedata/x"), Route::Asset);
    assert_eq!(classify(b"/maps/foo/liv"), Route::Asset);
}

#[test]
fn empty_world_segment_does_not_match() {
    assert_eq!(classify(b"/maps//live/a"), Route::Asset);
}

#[test]
fn world_is_a_single_segment() {
    assert_eq!(classify(b"/maps/a/b/live/x"), Route::Asset);
}

#[test]
fn origin_is_host_colon_port() {
    assert_eq!(build_origin(b"127.0.0.1", 8100), b"127.0.0.1:8100".to_vec());
    assert_eq!(build_origin(b"localhost", 80), b"localhost:80".to_vec());
    assert_eq!(build_origin(b"10.0.0.7", 65535), b"10.0.0.7:65535".to_vec());
}

#[test]
fn target_is_scheme_origin_and_original_bytes() {
    let origin = build_origin(b"127.0.0.1", 8100);
    let target = build_target(&origin, b"/maps/world1/live/tiles/0/0/0.png?t=5");
    assert_eq!(
        target,
        b"http://127.0.0.1:8100/maps/world1/live/tiles/0/0/0.png?t=5".to_vec()
    );
}

#[test]
fn router_proxies_live_with_exact_target() {
    let origin = build_origin(b"127.0.0.1", 8100);
    let d = route_request(
        b"/maps/world1/live/markers",
        b"/maps/world1/live/markers?since=3",
        &origin,
    );
    assert_eq!(
        d,
        RequestDecision::ProxyTo(b"http://127.0.0.1:8100/maps/world1/live/markers?since=3".to_vec())
    );
}

#[test]
fn router_sends_everything_else_to_assets() {
    let origin = build_origin(b"127.0.0.1", 8100);
    assert_eq!(
        route_request(b"/index.html", b"/index.html", &origin),
        RequestDecision::ServeAsset
    );
    assert_eq!(
        route_request(b"/maps/foo/liveX", b"/maps/foo/liveX", &origin),
        RequestDecision::ServeAsset
    );
}
