//! A webhook gateway's verified core: per-request authentication under a
//! fixed policy (open, static bearer token, or signed webhook with an
//! optional event allow-list), streaming signature verification over the
//! request body, rate-limit key derivation from the authorization header,
//! and classification of the external update command's captured outcome
//! into typed records.

pub mod auth;
pub mod gateway;
pub mod hashing;
pub mod headers;
pub mod invoker;
pub mod ratelimit;
pub mod signature;
pub mod strutil;
