//! The UniDPP interop gateway: a neutral-core passport rendered in foreign
//! protocol shapes, and imported back from them.
//!
//! Two protocol renderings of one core, both registered as render profiles:
//!
//! - [`untp`]: a passport as a verifiable-credential triad (the passport
//!   credential, the conformity credentials and the link-resolver entry), with
//!   the verdict of [`verdict`] over its evidence; [`ingest`] is the way back;
//! - [`en18222`]: a passport as the EN 18222 REST interface serves it, full or
//!   compressed.
//!
//! [`source`] decides who answers for an identifier: the seeded [`fixtures`],
//! the issuer upstream, or the ingested passports. [`feedback`] is the
//! consumer report channel, [`scan`] the scan-token policy, [`api`] the reply
//! to each request.
//!
//! The library decides and writes replies; the service around it speaks HTTP,
//! keeps the journal on disk and calls the core.

pub mod api;
pub mod canonical;
mod clock;
pub mod discovery;
pub mod en18222;
pub mod feedback;
pub mod fixtures;
pub mod ingest;
pub mod json;
pub mod model;
pub mod reply;
pub mod scan;
pub mod source;
pub mod text;
pub mod untp;
pub mod verdict;
pub mod window;

pub use crate::api::{Config, NOT_FOUND_BODY};
