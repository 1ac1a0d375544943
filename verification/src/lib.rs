//! Authorization decision engine for a publish/subscribe messaging broker.
//!
//! Given a bearer token, a topic string and a requested operation the engine
//! decides ALLOW or DENY: it keeps a hot-reloadable policy document (an ordered
//! access-control list with a signing key), resolves a topic against each
//! rule's resource path, and evaluates the rule's access grants against the
//! verified token's claims.

pub mod auth;
pub mod claims;
pub mod config;
pub mod pattern;
pub mod percent;
pub mod store;
pub mod text;
pub mod topic;

pub use pattern::CompiledRegex;
