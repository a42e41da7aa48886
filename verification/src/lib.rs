//! A verified core for a small real-estate listing service: a transactional
//! in-memory store of listings and their pictures, a binary-to-text transport
//! codec, and an image transcoder that derives bounded-size thumbnails.

pub mod codec;
pub mod errors;
pub mod ids;
pub mod store;
pub mod transcode;

pub use errors::Error;
