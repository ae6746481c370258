use vstd::prelude::*;

use crate::errors::VaultError;

verus! {

/// Whether the cipher accepts `key` as a key text: exactly the 32-byte,
/// url-safe-base64 serializations. A property of the text alone.
pub uninterp spec fn key_accepted(key: Seq<char>) -> bool;

/// The plaintext sealed in `token` under `key`: `Some` of the authenticated
/// text when the token was produced under `key`, is intact, and carries valid
/// text; `None` for every corrupted, truncated or foreign token. A function
/// of the token and the key alone.
pub uninterp spec fn decryption_of(token: Seq<char>, key: Seq<char>) -> Option<Seq<char>>;

/// A decryption instant so far in the future that the token-freshness check
/// can never reject a token stamped by a real clock, yet small enough that
/// the check's arithmetic cannot overflow.
const DISTANT_DECRYPT_TIME: u64 = 1u64 << 62;

/// Relies on fernet::Fernet::new: it returns `Some` exactly for the 32-byte,
/// url-safe-base64 key texts, a deterministic property of the text.
#[verifier::external_body]
fn fernet_key_accepted(key: &str) -> (r: bool)
    ensures
        r == key_accepted(key@),
{
    fernet::Fernet::new(key).is_some()
}

/// Relies on fernet::Fernet::generate_key: it returns a fresh 32-byte random
/// key in the serialization that Fernet::new accepts.
#[verifier::external_body]
fn fernet_generate_key() -> (r: String)
    ensures
        key_accepted(r@),
{
    fernet::Fernet::generate_key()
}

/// Relies on fernet::Fernet::encrypt (with Fernet::new building the cipher,
/// which the precondition keeps from failing): whatever token comes back
/// seals exactly the given plaintext under the given key, so a
/// timestamp-ignoring decryption under that key recovers it.
#[verifier::external_body]
fn fernet_encrypt(key: &str, plaintext: &str) -> (r: String)
    requires
        key_accepted(key@),
    ensures
        decryption_of(r@, key@) == Some(plaintext@),
{
    let cipher = fernet::Fernet::new(key).expect("accepted key");
    cipher.encrypt(plaintext.as_bytes())
}

/// Relies on fernet::Fernet::decrypt_at_time with no time-to-live and a fixed
/// distant instant, so that its verdict is a function of the token and the
/// key alone: the authenticated plaintext bytes, or failure for any token
/// that was not produced intact under this key. The bytes are decoded back
/// to text here; encryption only ever seals text.
#[verifier::external_body]
fn fernet_decrypt(key: &str, token: &str) -> (r: Option<String>)
    requires
        key_accepted(key@),
    ensures
        (match r {
            Some(s) => decryption_of(token@, key@) == Some(s@),
            None => decryption_of(token@, key@) is None,
        }),
{
    let cipher = fernet::Fernet::new(key).expect("accepted key");
    let bytes = cipher.decrypt_at_time(token, None, DISTANT_DECRYPT_TIME).ok()?;
    String::from_utf8(bytes).ok()
}

/// The textual encrypted form of one plaintext field: an authenticated,
/// self-contained token, safe to store as a text column.
pub struct CipherToken {
    pub text: String,
}

impl View for CipherToken {
    type V = Seq<char>;

    open spec fn view(&self) -> Seq<char> {
        self.text@
    }
}

impl CipherToken {
    /// An exact copy of the token.
    pub fn duplicate(&self) -> (r: CipherToken)
        ensures
            r@ == self@,
    {
        CipherToken { text: self.text.clone() }
    }
}

/// The one symmetric key protecting every record of a vault. Loaded or
/// generated once and held for the life of the process; the key file I/O
/// itself belongs to the caller.
pub struct MasterKey {
    text: String,
}

impl View for MasterKey {
    type V = Seq<char>;

    closed spec fn view(&self) -> Seq<char> {
        self.text@
    }
}

impl MasterKey {
    /// The key text is one the cipher accepts.
    pub closed spec fn wf(&self) -> bool {
        key_accepted(self.text@)
    }

    /// Adopts a stored key text verbatim: `Ok` exactly when the cipher
    /// accepts it, `Err` otherwise, never a silently regenerated key.
    pub fn from_text(text: String) -> (r: Result<MasterKey, VaultError>)
        ensures
            r matches Ok(k) ==> k.wf() && k@ == text@ && key_accepted(text@),
            r matches Err(e) ==> e == VaultError::InvalidKey && !key_accepted(text@),
    {
        if fernet_key_accepted(text.as_str()) {
            Ok(MasterKey { text })
        } else {
            Err(VaultError::InvalidKey)
        }
    }

    /// Generates a fresh random key, fit for a new vault.
    pub fn generate() -> (r: MasterKey)
        ensures
            r.wf(),
    {
        MasterKey { text: fernet_generate_key() }
    }

    /// The key's serialization, for the caller to persist; it round-trips
    /// through `from_text` unchanged.
    pub fn text(&self) -> (r: &String)
        ensures
            r@ == self@,
    {
        &self.text
    }

    /// Seals `plaintext` into a fresh token. The token is randomized — two
    /// calls on the same plaintext need not agree — but every outcome
    /// decrypts under this key back to exactly `plaintext`.
    pub fn encrypt(&self, plaintext: &str) -> (t: CipherToken)
        requires
            self.wf(),
        ensures
            decryption_of(t@, self@) == Some(plaintext@),
    {
        CipherToken { text: fernet_encrypt(self.text.as_str(), plaintext) }
    }

    /// Opens `token`: returns the sealed plaintext exactly when the token is
    /// intact and was produced under this key, and a decryption error
    /// otherwise — never partial or altered plaintext.
    pub fn decrypt(&self, token: &CipherToken) -> (r: Result<String, VaultError>)
        requires
            self.wf(),
        ensures
            r matches Ok(s) ==> decryption_of(token@, self@) == Some(s@),
            r matches Err(e) ==> e == VaultError::Decryption && decryption_of(token@, self@) is None,
    {
        match fernet_decrypt(self.text.as_str(), token.text.as_str()) {
            Some(s) => Ok(s),
            None => Err(VaultError::Decryption),
        }
    }
}

} // verus!
