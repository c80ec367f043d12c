//! Capture of an OAuth 2.0 authorization code for a cloud drive, verified.
//!
//! The library holds the decisions of the capture helper: how the
//! authorization URL is built, how a redirect request is routed and its code
//! extracted, what the persisted artifact holds, and the session that makes
//! the capture single-shot. Sockets, files, the browser and the console are
//! left to the program that drives it.
pub mod text;
pub mod authorize;
pub mod callback;
pub mod artifact;
pub mod session;
pub mod webview;
