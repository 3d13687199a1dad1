//! Decision core of a small edge server that sits in front of a web-map
//! application: it classifies each request path as either a live-data request
//! to be proxied to a local backend or a static asset request, builds the
//! upstream target URL, negotiates precompressed asset variants, validates
//! header bytes crossing the proxy boundary, and maps upstream and asset
//! failures to client-visible status codes.

pub mod bytes;
pub mod route;
pub mod upstream;
pub mod headers;
pub mod proxy;
pub mod assets;
pub mod config;
