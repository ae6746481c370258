use rpass::crypto::{CipherToken, MasterKey};
use rpass::errors::VaultError;

fn generated_key() -> MasterKey {
    MasterKey::generate()
}

#[test]
fn round_trip_same_key() {
    let key = generated_key();
    let token = key.encrypt("correct horse battery staple");
    let back = key.decrypt(&token);
    assert_eq!(back, Ok("correct horse battery staple".to_string()));
}

#[test]
fn round_trip_empty_plaintext() {
    let key = generated_key();
    let token = key.encrypt("");
    assert_eq!(key.decrypt(&token), Ok(String::new()));
}

#[test]
fn round_trip_unicode_plaintext() {
    let key = generated_key();
    let token = key.encrypt("p@ssw\u{00f6}rd \u{2713}");
    assert_eq!(key.decrypt(&token), Ok("p@ssw\u{00f6}rd \u{2713}".to_string()));
}

#[test]
fn encryption_is_not_deterministic() {
    let key = generated_key();
    let one = key.encrypt("same plaintext");
    let two = key.encrypt("same plaintext");
    assert_ne!(one.text, two.text);
    assert_eq!(key.decrypt(&one), Ok("same plaintext".to_string()));
    assert_eq!(key.decrypt(&two), Ok("same plaintext".to_string()));
}

#[test]
fn encryption_transforms_its_input() {
    let key = generated_key();
    let token = key.encrypt("visible");
    assert_ne!(token.text, "visible");
    assert!(!token.text.contains("visible"));
}

#[test]
fn tampering_any_character_is_detected() {
    let key = generated_key();
    let token = key.encrypt("account secret");
    let original: Vec<char> = token.text.chars().collect();
    for i in 0..original.len() {
        let mut altered = original.clone();
        altered[i] = if altered[i] != 'A' { 'A' } else { 'B' };
        let mangled: String = altered.into_iter().collect();
        if mangled == token.text {
            continue;
        }
        let tampered = CipherToken { text: mangled };
        assert_eq!(key.decrypt(&tampered), Err(VaultError::Decryption));
    }
}

#[test]
fn truncated_token_is_rejected() {
    let key = generated_key();
    let token = key.encrypt("account secret");
    let cut: String = token.text.chars().take(token.text.chars().count() / 2).collect();
    assert_eq!(key.decrypt(&CipherToken { text: cut }), Err(VaultError::Decryption));
}

#[test]
fn garbage_token_is_rejected() {
    let key = generated_key();
    let garbage = CipherToken { text: "not a token at all".to_string() };
    assert_eq!(key.decrypt(&garbage), Err(VaultError::Decryption));
}

#[test]
fn wrong_key_is_rejected() {
    let k1 = generated_key();
    let k2 = generated_key();
    assert_ne!(k1.text(), k2.text());
    let token = k1.encrypt("only for k1");
    assert_eq!(k2.decrypt(&token), Err(VaultError::Decryption));
}

#[test]
fn key_text_round_trips_through_from_text() {
    let key = generated_key();
    let stored = key.text().clone();
    let reloaded = match MasterKey::from_text(stored.clone()) {
        Ok(k) => k,
        Err(_) => panic!("a generated key text must be accepted"),
    };
    assert_eq!(reloaded.text(), &stored);
    let token = key.encrypt("shared secret");
    assert_eq!(reloaded.decrypt(&token), Ok("shared secret".to_string()));
}

#[test]
fn invalid_key_text_is_rejected() {
    let result = MasterKey::from_text("definitely not a key".to_string());
    assert!(matches!(result, Err(VaultError::InvalidKey)));
    let empty = MasterKey::from_text(String::new());
    assert!(matches!(empty, Err(VaultError::InvalidKey)));
}
