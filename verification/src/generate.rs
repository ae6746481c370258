use vstd::prelude::*;

use crate::errors::VaultError;

verus! {

/// The smallest password length a caller may request.
pub const MIN_PASSWORD_LENGTH: u32 = 8;

/// The smallest passphrase word count a caller may request.
pub const MIN_PASSPHRASE_WORDS: u32 = 3;

/// Relies on rand::Rng::gen_range on the thread-local generator: it returns
/// a value of the given range, which the precondition keeps non-empty.
#[verifier::external_body]
fn random_below(bound: usize) -> (r: usize)
    requires
        bound > 0,
    ensures
        r < bound,
{
    rand::Rng::gen_range(&mut rand::thread_rng(), 0..bound)
}

/// Relies on rand::random: an arbitrary machine word; nothing is promised of
/// its value, and the callers hold for every value.
#[verifier::external_body]
fn random_word() -> usize {
    rand::random::<usize>()
}

/// Every character a generated password may contain: uppercase letters,
/// lowercase letters, a fixed symbol set, and digits.
pub open spec fn password_alphabet() -> Seq<char> {
    "ABCDEFGHIJKLMNOPQRSTUVWXYZabcdefghijklmnopqrstuvwxyz)(*&^%$#@!~0123456789"@
}

fn alphabet_chars() -> (s: &'static str)
    ensures
        s@ == password_alphabet(),
        s@.len() == 73,
{
    let s = "ABCDEFGHIJKLMNOPQRSTUVWXYZabcdefghijklmnopqrstuvwxyz)(*&^%$#@!~0123456789";
    proof {
        reveal_strlit("ABCDEFGHIJKLMNOPQRSTUVWXYZabcdefghijklmnopqrstuvwxyz)(*&^%$#@!~0123456789");
    }
    s
}

/// Draws `length` characters, each independently and uniformly at random
/// from the password alphabet. The result has exactly `length` characters
/// and every one of them belongs to the alphabet.
pub fn generate_password(length: u32) -> (r: String)
    ensures
        r@.len() == length,
        forall|i: int| 0 <= i < r@.len() ==> password_alphabet().contains(#[trigger] r@[i]),
{
    let chars = alphabet_chars();
    let mut out = String::new();
    let mut i: u32 = 0;
    while i < length
        invariant
            i <= length,
            out@.len() == i,
            forall|j: int| 0 <= j < out@.len() ==> password_alphabet().contains(#[trigger] out@[j]),
            chars@ == password_alphabet(),
            chars@.len() == 73,
        decreases length - i,
    {
        let idx = random_below(73);
        let c = chars.substring_char(idx, idx + 1);
        proof {
            assert(c@ =~= seq![chars@[idx as int]]);
            assert(password_alphabet().contains(chars@[idx as int]));
        }
        out.append(c);
        i = i + 1;
    }
    out
}

/// The words of a passphrase joined by a separator: the first word, then
/// each further word preceded by one copy of the separator.
pub open spec fn joined(words: Seq<Seq<char>>, sep: Seq<char>) -> Seq<char>
    decreases words.len(),
{
    if words.len() == 0 {
        Seq::empty()
    } else if words.len() == 1 {
        words[0]
    } else {
        joined(words.drop_last(), sep) + sep + words.last()
    }
}

/// Draws `word_count` words, each independently and uniformly at random
/// (with replacement) from `words`, and joins them with `separator`. The
/// word index is the raw random value reduced modulo the list length, so no
/// list length and no random value can drive it out of bounds.
pub fn generate_passphrase(word_count: u32, separator: &str, words: &Vec<String>) -> (r: String)
    requires
        words@.len() > 0,
    ensures
        exists|ws: Seq<Seq<char>>|
            {
                &&& ws.len() == word_count
                &&& (forall|j: int| 0 <= j < ws.len() ==> words.deep_view().contains(#[trigger] ws[j]))
                &&& r@ == joined(ws, separator@)
            },
{
    let mut out = String::new();
    let ghost mut chosen: Seq<Seq<char>> = Seq::empty();
    let mut i: u32 = 0;
    while i < word_count
        invariant
            i <= word_count,
            words@.len() > 0,
            chosen.len() == i,
            forall|j: int| 0 <= j < chosen.len() ==> words.deep_view().contains(#[trigger] chosen[j]),
            out@ == joined(chosen, separator@),
        decreases word_count - i,
    {
        let raw = random_word();
        let idx = raw % words.len();
        let w: &String = &words[idx];
        if i > 0 {
            out.append(separator);
        }
        out.append(w.as_str());
        proof {
            assert(words.deep_view()[idx as int] == w@);
            assert(words.deep_view().contains(w@));
            let prev = chosen;
            chosen = chosen.push(w@);
            assert(chosen.drop_last() =~= prev);
            assert(chosen.last() == w@);
        }
        i = i + 1;
    }
    out
}

/// Accepts a requested password length: `Ok` exactly when it meets the
/// minimum of eight characters.
pub fn check_password_length(length: u32) -> (r: Result<(), VaultError>)
    ensures
        r is Ok <==> length >= MIN_PASSWORD_LENGTH,
        r matches Err(e) ==> e == VaultError::Validation,
{
    if length >= MIN_PASSWORD_LENGTH {
        Ok(())
    } else {
        Err(VaultError::Validation)
    }
}

/// Accepts a requested passphrase word count: `Ok` exactly when it meets the
/// minimum of three words.
pub fn check_passphrase_words(word_count: u32) -> (r: Result<(), VaultError>)
    ensures
        r is Ok <==> word_count >= MIN_PASSPHRASE_WORDS,
        r matches Err(e) ==> e == VaultError::Validation,
{
    if word_count >= MIN_PASSPHRASE_WORDS {
        Ok(())
    } else {
        Err(VaultError::Validation)
    }
}

} // verus!
