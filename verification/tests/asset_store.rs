use bluemap_edge::assets::{
    accepts_encoding, asset_error_status, choose_variant, encoding_token, sanitize_asset_path,
    serve_plan, variant_file_name, Variant,
};

#[test]
fn zstd_preferred_when_both_accepted() {
    assert_eq!(choose_variant(b"zstd, gzip", true, true), Variant::Zstd);
}

#[test]
fn gzip_served_when_only_gzip_accepted() {
    assert_eq!(choose_variant(b"gzip", true, true), Variant::Gzip);
}

#[test]
fn plain_file_when_no_encoding_matches() {
    assert_eq!(choose_variant(b"br, deflate", true, true), Variant::Identity);
    assert_eq!(choose_variant(b"", true, true), Variant::Identity);
}

#[test]
fn missing_sibling_falls_back() {
    assert_eq!(choose_variant(b"zstd, gzip", true, false), Variant::Gzip);
    assert_eq!(choose_variant(b"zstd, gzip", false, false), Variant::Identity);
}

#[test]
fn encoding_entries_allow_case_space_and_params() {
    assert_eq!(choose_variant(b" GZip ;q=0.5 , br", true, false), Variant::Gzip);
    assert!(accepts_encoding(b"deflate,  zstd;q=1.0", b"zstd"));
    assert!(!accepts_encoding(b"zst", b"zstd"));
    assert!(!accepts_encoding(b"zstdx", b"zstd"));
    assert!(!accepts_encoding(b"gzip;zstd", b"zstd"));
}

#[test]
fn variant_file_names_append_suffix() {
    assert_eq!(variant_file_name(b"file.js", Variant::Zstd), b"file.js.zst".to_vec());
    assert_eq!(variant_file_name(b"file.js", Variant::Gzip), b"file.js.gz".to_vec());
    assert_eq!(variant_file_name(b"file.js", Variant::Identity), b"file.js".to_vec());
}

#[test]
fn encoding_tokens_match_variants() {
    assert_eq!(encoding_token(Variant::Zstd), Some(b"zstd".to_vec()));
    assert_eq!(encoding_token(Variant::Gzip), Some(b"gzip".to_vec()));
    assert_eq!(encoding_token(Variant::Identity), None);
}

#[test]
fn root_resolves_to_index_file() {
    let root = sanitize_asset_path(b"/");
    let index = sanitize_asset_path(b"/index.html");
    assert_eq!(root, Some(b"index.html".to_vec()));
    assert_eq!(root, index);
}

#[test]
fn directory_paths_resolve_to_their_index() {
    assert_eq!(
        sanitize_asset_path(b"/maps/world1/"),
        Some(b"maps/world1/index.html".to_vec())
    );
}

#[test]
fn plain_files_resolve_relative() {
    assert_eq!(sanitize_asset_path(b"/assets/app.js"), Some(b"assets/app.js".to_vec()));
}

#[test]
fn traversal_is_rejected() {
    assert_eq!(sanitize_asset_path(b"/../etc/passwd"), None);
    assert_eq!(sanitize_asset_path(b"/a/../b"), None);
    assert_eq!(sanitize_asset_path(b"/a/.."), None);
    assert_eq!(sanitize_asset_path(b"/.."), None);
}

#[test]
fn dots_inside_names_are_allowed() {
    assert_eq!(sanitize_asset_path(b"/a..b/c"), Some(b"a..b/c".to_vec()));
    assert_eq!(sanitize_asset_path(b"/v1.2.3/app.js"), Some(b"v1.2.3/app.js".to_vec()));
}

#[test]
fn relative_paths_are_rejected() {
    assert_eq!(sanitize_asset_path(b"index.html"), None);
    assert_eq!(sanitize_asset_path(b""), None);
}

#[test]
fn asset_errors_map_to_status() {
    assert_eq!(asset_error_status(true), 404);
    assert_eq!(asset_error_status(false), 500);
}

#[test]
fn q_zero_withdraws_an_encoding() {
    assert!(!accepts_encoding(b"zstd;q=0", b"zstd"));
    assert!(!accepts_encoding(b"zstd;q=0.000", b"zstd"));
    assert!(!accepts_encoding(b"zstd; Q=0 ", b"zstd"));
    assert!(!accepts_encoding(b"zstd;a=b;q=0", b"zstd"));
    assert!(accepts_encoding(b"zstd;q=0.5", b"zstd"));
    assert!(accepts_encoding(b"zstd;q=1", b"zstd"));
    assert_eq!(choose_variant(b"zstd;q=0, gzip", true, true), Variant::Gzip);
    assert_eq!(choose_variant(b"zstd;q=0, gzip;q=0", true, true), Variant::Identity);
}

#[test]
fn double_slash_paths_are_rejected() {
    assert_eq!(sanitize_asset_path(b"//etc/passwd"), None);
    assert_eq!(sanitize_asset_path(b"//"), None);
    assert_eq!(sanitize_asset_path(b"/a//b"), Some(b"a//b".to_vec()));
}

#[test]
fn serve_plan_pairs_each_variant() {
    let p = serve_plan(b"file.js", Variant::Zstd);
    assert_eq!(p.file, b"file.js.zst".to_vec());
    assert_eq!(p.content_type_from, b"file.js".to_vec());
    assert_eq!(p.content_encoding, Some(b"zstd".to_vec()));
    let p = serve_plan(b"file.js", Variant::Gzip);
    assert_eq!(p.file, b"file.js.gz".to_vec());
    assert_eq!(p.content_type_from, b"file.js".to_vec());
    assert_eq!(p.content_encoding, Some(b"gzip".to_vec()));
    let p = serve_plan(b"file.js", Variant::Identity);
    assert_eq!(p.file, b"file.js".to_vec());
    assert_eq!(p.content_type_from, b"file.js".to_vec());
    assert_eq!(p.content_encoding, None);
}
