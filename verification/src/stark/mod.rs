//! The query bundle and the verdict under the names of the proof system that uses them.

pub use crate::fri::evaluation::FriProof;
pub use crate::fri::{FriChallenge, VerificationResult};
