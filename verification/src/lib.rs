//! A minimal HTTP server core: it matches a request to a registered route
//! by method and path pattern, extracts the values the route's handler
//! declares, runs the handler, and serializes what it returns. A shutdown
//! coordinator tells the accept loop when to stop admitting work.
//!
//! Everything here is verified except the items of `outside`, which state
//! what is taken on trust from `serde_json`, `base64`, `form_urlencoded`
//! and the standard formatter.

pub mod extract;
pub mod handlers;
pub mod method;
pub mod outside;
pub mod params;
pub mod pattern;
pub mod response;
pub mod router;
pub mod shutdown;
pub mod text;
