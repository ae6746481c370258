//! A local, single-user secret vault: account credentials are sealed field
//! by field under one master key with an authenticated cipher, stored as
//! rows of text tokens, and listed, edited, deleted and purged through a
//! record store whose behaviour is specified and verified.
//!
//! The caller owns all I/O: it reads and writes the key file and the row
//! store, and hands this crate plain values.

pub mod crypto;
pub mod errors;
pub mod generate;
pub mod vault;
