//! Verified core of a BBS+ signature library over BLS12-381.
pub mod bbs;
pub mod crypto;
pub mod encoding;
pub mod protocol;
pub mod status;
pub mod types;
pub mod utils;
