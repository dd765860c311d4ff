//! Content-addressed files: a payload is cut into fixed-size blocks, each block
//! is stored under the hex form of its BLAKE3 digest, and a manifest lists the
//! blocks in order together with the digest of the whole payload and an
//! optional Ed25519 signature over that digest.

pub mod acquirer;
pub mod block;
pub mod converter;
pub mod crypto;
pub mod digest;
pub mod encoding;
pub mod error;
pub mod file;
pub mod laws;
pub mod local;
pub mod storage;
