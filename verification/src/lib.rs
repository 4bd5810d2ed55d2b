//! A local credential agent that exchanges a long-lived signing key for
//! short-lived, scoped access tokens issued by a code-hosting platform's
//! app-authentication flow.
//!
//! The verified core consists of:
//! - [`parser`]: the line-oriented `attr=value` request parser that produces a
//!   validated repository identity;
//! - [`token`]: the token cache that maps repository identities to platform
//!   installations and installations to tokens with expiry, and decides when a
//!   remote exchange is needed;
//! - [`server`]: the per-connection protocol state machine and the response
//!   formatter.
//!
//! Socket handling, signal handling, HTTP and JWT signing are unverified
//! plumbing that drives this library from the outside.

pub mod parser;
pub mod server;
pub mod strutil;
pub mod token;
