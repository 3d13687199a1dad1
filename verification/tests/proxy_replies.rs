use bluemap_edge::config::{tls_mode, validate_asset_root, ConfigError, StartupError, TlsMode};
use bluemap_edge::headers::{check_header_name, check_header_value, check_headers};
use bluemap_edge::proxy::{
    relay_decision, select_forward_headers, ProxyReply, UpstreamOutcome, UPSTREAM_FAILURE_STATUS,
};

fn pair(name: &[u8], value: &[u8]) -> (Vec<u8>, Vec<u8>) {
    (name.to_vec(), value.to_vec())
}

#[test]
fn unreachable_backend_gives_server_error() {
    assert_eq!(
        relay_decision(UpstreamOutcome::TransportFailed),
        ProxyReply::ErrorStatus(UPSTREAM_FAILURE_STATUS)
    );
    assert_eq!(UPSTREAM_FAILURE_STATUS, 500);
}

#[test]
fn delivered_response_round_trips() {
    let headers = vec![
        pair(b"Content-Type", b"application/octet-stream"),
        pair(b"X-Custom", b"v"),
    ];
    let reply = relay_decision(UpstreamOutcome::Delivered {
        status: 200,
        headers: headers.clone(),
    });
    assert_eq!(reply, ProxyReply::Relay { status: 200, headers });
}

#[test]
fn backend_status_is_copied_even_for_errors() {
    let reply = relay_decision(UpstreamOutcome::Delivered { status: 404, headers: vec![] });
    assert_eq!(reply, ProxyReply::Relay { status: 404, headers: vec![] });
}

#[test]
fn malformed_header_name_is_an_upstream_error() {
    let headers = vec![pair(b"bad name", b"v")];
    assert_eq!(
        relay_decision(UpstreamOutcome::Delivered { status: 200, headers }),
        ProxyReply::ErrorStatus(500)
    );
}

#[test]
fn malformed_header_value_is_an_upstream_error() {
    let headers = vec![pair(b"x-ok", b"bad\x01value")];
    assert_eq!(
        relay_decision(UpstreamOutcome::Delivered { status: 200, headers }),
        ProxyReply::ErrorStatus(500)
    );
}

#[test]
fn header_name_validation() {
    assert!(check_header_name(b"content-type"));
    assert!(check_header_name(b"Content-Type"));
    assert!(check_header_name(b"x-custom-1"));
    assert!(!check_header_name(b""));
    assert!(!check_header_name(b"bad name"));
    assert!(!check_header_name(b"bad:name"));
    assert!(!check_header_name(b"bad\nname"));
}

#[test]
fn header_value_validation() {
    assert!(check_header_value(b""));
    assert!(check_header_value(b"application/octet-stream"));
    assert!(check_header_value(b"with tab\there"));
    assert!(check_header_value(&[0x80, 0xff]));
    assert!(!check_header_value(b"no\rreturn"));
    assert!(!check_header_value(b"no\nnewline"));
    assert!(!check_header_value(&[0x7f]));
}

#[test]
fn header_set_validation() {
    assert!(check_headers(&vec![pair(b"a", b"1"), pair(b"b", b"2")]));
    assert!(!check_headers(&vec![pair(b"a", b"1"), pair(b"", b"2")]));
}

#[test]
fn tls_needs_both_cert_and_key() {
    assert_eq!(tls_mode(true, true), Ok(TlsMode::Tls));
    assert_eq!(tls_mode(false, false), Ok(TlsMode::Plain));
    assert_eq!(tls_mode(true, false), Err(ConfigError::PartialTls));
    assert_eq!(tls_mode(false, true), Err(ConfigError::PartialTls));
}

#[test]
fn startup_fails_without_index_file() {
    assert_eq!(validate_asset_root(true, true), Ok(()));
    assert_eq!(validate_asset_root(true, false), Err(StartupError::IndexFileMissing));
    assert_eq!(validate_asset_root(false, false), Err(StartupError::AssetRootNotDir));
    assert_eq!(validate_asset_root(false, true), Err(StartupError::AssetRootNotDir));
}

#[test]
fn host_is_dropped_from_forwarded_headers() {
    let inbound = vec![
        pair(b"Host", b"example.org"),
        pair(b"accept", b"*/*"),
        pair(b"X-Custom", b"v"),
        pair(b"HOST", b"other"),
    ];
    let forwarded = select_forward_headers(inbound);
    assert_eq!(forwarded, vec![pair(b"accept", b"*/*"), pair(b"X-Custom", b"v")]);
}

#[test]
fn non_host_headers_are_forwarded_untouched() {
    let inbound = vec![pair(b"hostile", b"kept"), pair(b"x-host", b"kept")];
    let forwarded = select_forward_headers(inbound.clone());
    assert_eq!(forwarded, inbound);
}
