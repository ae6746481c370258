use vstd::prelude::*;

verus! {

/// The failure modes of the vault's core operations.
///
/// I/O failures (an unreadable key file, an unreachable row store) belong to
/// the collaborators that perform the I/O; they never reach this library.
#[derive(Debug, Clone, Copy, PartialEq, Eq, Structural)]
pub enum VaultError {
    /// The supplied master-key text is not a usable key.
    InvalidKey,
    /// An authenticated-decryption check failed: the token was produced under
    /// a different key, or was corrupted or truncated.
    Decryption,
    /// An update or delete targeted an identifier with zero matching records.
    NotFound,
    /// A caller-supplied parameter violates a stated minimum, or an
    /// unrecognized field name was given.
    Validation,
}

} // verus!
