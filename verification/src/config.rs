//! Startup configuration decisions: whether the listener runs plaintext or
//! TLS-terminated, and whether the asset root is usable at all. Both are
//! decided once, before any listener is bound; a bad configuration is fatal
//! and never silently degraded.

use vstd::prelude::*;

verus! {

/// How the listener serves accepted connections.
#[derive(Clone, Copy, Debug, PartialEq, Eq, Structural)]
pub enum TlsMode {
    /// Serve plaintext HTTP.
    Plain,
    /// Terminate TLS with the configured certificate and key.
    Tls,
}

/// A configuration that cannot be served.
#[derive(Clone, Copy, Debug, PartialEq, Eq, Structural)]
pub enum ConfigError {
    /// Exactly one of the TLS certificate and key was supplied; serving
    /// plaintext would silently drop the requested security, so this is
    /// rejected at startup.
    PartialTls,
}

/// Decides the listener mode from which TLS inputs were supplied: both give
/// TLS, neither gives plaintext, and a one-sided configuration is an error
/// rather than a silent fallback.
pub fn tls_mode(has_cert: bool, has_key: bool) -> (r: Result<TlsMode, ConfigError>)
    ensures
        has_cert && has_key ==> r == Ok::<TlsMode, ConfigError>(TlsMode::Tls),
        !has_cert && !has_key ==> r == Ok::<TlsMode, ConfigError>(TlsMode::Plain),
        has_cert != has_key ==> r == Err::<TlsMode, ConfigError>(ConfigError::PartialTls),
{
    if has_cert && has_key {
        Ok(TlsMode::Tls)
    } else if !has_cert && !has_key {
        Ok(TlsMode::Plain)
    } else {
        Err(ConfigError::PartialTls)
    }
}

/// Why startup must fail before any listener is bound.
#[derive(Clone, Copy, Debug, PartialEq, Eq, Structural)]
pub enum StartupError {
    /// The configured asset root is not an existing directory.
    AssetRootNotDir,
    /// The asset root has no `web/index.html`, so it does not look like the
    /// map application's output directory.
    IndexFileMissing,
}

/// Decides whether serving may start, from what the filesystem said about the
/// asset root: the root must be a directory and `web/index.html` must exist
/// in it. Startup succeeds exactly when both hold.
pub fn validate_asset_root(root_is_dir: bool, index_is_file: bool) -> (r: Result<
    (),
    StartupError,
>)
    ensures
        r is Ok <==> root_is_dir && index_is_file,
        !root_is_dir ==> r == Err::<(), StartupError>(StartupError::AssetRootNotDir),
        root_is_dir && !index_is_file ==> r == Err::<(), StartupError>(
            StartupError::IndexFileMissing,
        ),
{
    if !root_is_dir {
        Err(StartupError::AssetRootNotDir)
    } else if !index_is_file {
        Err(StartupError::IndexFileMissing)
    } else {
        Ok(())
    }
}

} // verus!
