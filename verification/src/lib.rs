//! Verified core of a timeline-to-RSS gateway.
//!
//! Given a social-network instance hostname and an access credential, the
//! surrounding application fetches a user's home timeline and serves it as an
//! RSS 2.0 feed. This crate holds the transformation core of that gateway,
//! with machine-checked contracts:
//!
//! * [`validate`] — sanitizing a user-supplied hostname into a safe base URL;
//! * [`classify`] — deciding what an upstream HTTP response means, probing
//!   heterogeneous JSON error bodies for a usable message;
//! * [`render`] — turning one post (with reposts, quote-posts and media) into
//!   a well-formed, escaped HTML fragment;
//! * [`assemble`] — building the RSS document from the rendered items, in
//!   input order, through the `rss` crate.
//!
//! The HTTP server and the upstream API clients live outside this crate and
//! hand it plain values.

pub mod assemble;
pub mod classify;
pub mod escape;
pub mod post;
pub mod render;
pub mod rfc2822;
pub mod validate;
