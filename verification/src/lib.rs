//! Verified mint-authority model for fungible tokens: a single-admin
//! authority that can be rotated or permanently renounced, the token account
//! data it guards, and the handlers that create, mint, rotate and revoke.
pub mod account;
pub mod approval;
pub mod codec;
pub mod token;
pub mod program;
