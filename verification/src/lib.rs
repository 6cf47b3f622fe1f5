//! The session and authorization core of a small blog API: a signed
//! time-bounded token codec, a stateless session issuer with separate access
//! and refresh namespaces, a request guard that resolves bearer tokens to
//! stored identities, single-purpose password-reset and email-verification
//! tokens, and an ownership rule for mutating posts. Every operation is
//! specified against a mathematical model of the store and the wire format,
//! and verified against it.

pub mod authz;
pub mod errors;
pub mod flows;
pub mod guard;
pub mod hex;
pub mod posts;
pub mod session;
pub mod store;
pub mod sys;
pub mod token;
