//! Core of a federation endpoint for a decentralised social-networking
//! protocol: a typed document model with lossless JSON decode/encode, the
//! digest and HTTP-signature codec used to authenticate exchanged documents,
//! the decision logic of a TTL cache with per-domain backoff, and the inbound
//! request verifier that ties them together.

pub mod account;
pub mod cache;
pub mod codec;
pub mod crypto;
pub mod iri;
pub mod json;
pub mod laws;
pub mod util;
pub mod verification;
pub mod vocab;
pub mod webfinger;
