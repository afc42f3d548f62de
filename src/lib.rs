//! An ephemeral, authenticated file relay.
//!
//! Clients post a byte stream to `upload.<ext>` with a bearer token; the server
//! stores it under a fresh `{name}.{ext}` in a directory that lives as long as
//! the process, deletes it after a retention window, and serves it back,
//! rendering Markdown and HTML documents as themed pages. Uploaders that have no
//! file extension classify a stream from a bounded prefix and forward it whole.
//!
//! This crate holds the decisions: which requests are uploads ([`route`]), how
//! names are drawn and kept unique ([`naming`]), when artifacts expire
//! ([`retention`]), how the storage directory is shut down ([`store`]), how
//! streams are classified ([`sniff`]), and how documents are rendered
//! ([`markdown`], [`render`], [`serve`]), plus what the uploaders compute
//! ([`client`]).
use vstd::prelude::*;

pub mod client;
pub mod markdown;
pub mod naming;
pub mod retention;
pub mod render;
pub mod route;
pub mod serve;
pub mod sniff;
pub mod store;
pub mod text;

pub use sniff::{guess_ext_from_bytes, TEXT_EXT, UNKNOWN_EXT};

verus! {

} // verus!
