use rpass::errors::VaultError;
use rpass::generate::{
    check_passphrase_words, check_password_length, generate_passphrase, generate_password,
    MIN_PASSPHRASE_WORDS, MIN_PASSWORD_LENGTH,
};

const ALPHABET: &str = "ABCDEFGHIJKLMNOPQRSTUVWXYZabcdefghijklmnopqrstuvwxyz)(*&^%$#@!~0123456789";

#[test]
fn password_has_exactly_the_requested_length() {
    for n in [1u32, 8, 16, 64, 73, 100] {
        let p = generate_password(n);
        assert_eq!(p.chars().count(), n as usize);
    }
}

#[test]
fn password_of_length_zero_is_empty() {
    assert_eq!(generate_password(0), String::new());
}

#[test]
fn password_uses_only_the_alphabet() {
    let p = generate_password(512);
    for c in p.chars() {
        assert!(ALPHABET.contains(c), "unexpected password character");
    }
}

#[test]
fn password_samples_cover_the_alphabet_roughly_uniformly() {
    let mut counts = vec![0u32; ALPHABET.chars().count()];
    for _ in 0..200 {
        for c in generate_password(73).chars() {
            let idx = ALPHABET.chars().position(|a| a == c).unwrap();
            counts[idx] += 1;
        }
    }
    // 14600 draws over 73 characters: every character should appear, and none
    // should dominate.
    for &count in &counts {
        assert!(count > 0, "an alphabet character was never drawn");
        assert!(count < 1460, "an alphabet character dominates the draws");
    }
}

#[test]
fn passphrase_joins_exactly_the_requested_word_count() {
    let words = vec![
        "alpha".to_string(),
        "bravo".to_string(),
        "charlie".to_string(),
        "delta".to_string(),
    ];
    for n in [3u32, 4, 10] {
        let phrase = generate_passphrase(n, "-", &words);
        let parts: Vec<&str> = phrase.split('-').collect();
        assert_eq!(parts.len(), n as usize);
        for part in parts {
            assert!(words.iter().any(|w| w == part), "word not from the list");
        }
    }
}

#[test]
fn passphrase_respects_the_separator() {
    let words = vec!["left".to_string(), "right".to_string()];
    let phrase = generate_passphrase(5, "::", &words);
    let parts: Vec<&str> = phrase.split("::").collect();
    assert_eq!(parts.len(), 5);
}

#[test]
fn passphrase_on_a_single_word_list_never_panics() {
    // A one-word list forces every raw random value to reduce to index zero;
    // an off-by-one in the modulo reduction would panic here.
    let words = vec!["solo".to_string()];
    for _ in 0..50 {
        let phrase = generate_passphrase(4, "-", &words);
        assert_eq!(phrase, "solo-solo-solo-solo");
    }
}

#[test]
fn passphrase_samples_cover_the_word_list() {
    let words = vec![
        "north".to_string(),
        "south".to_string(),
        "east".to_string(),
        "west".to_string(),
    ];
    let mut seen = vec![false; words.len()];
    for _ in 0..100 {
        for part in generate_passphrase(3, "-", &words).split('-') {
            let idx = words.iter().position(|w| w == part).unwrap();
            seen[idx] = true;
        }
    }
    assert!(seen.iter().all(|&s| s), "a word was never drawn in 300 draws");
}

#[test]
fn passphrase_of_zero_words_is_empty() {
    let words = vec!["alpha".to_string()];
    assert_eq!(generate_passphrase(0, "-", &words), String::new());
}

#[test]
fn password_length_minimum_is_enforced() {
    assert_eq!(MIN_PASSWORD_LENGTH, 8);
    assert_eq!(check_password_length(7), Err(VaultError::Validation));
    assert_eq!(check_password_length(0), Err(VaultError::Validation));
    assert_eq!(check_password_length(8), Ok(()));
    assert_eq!(check_password_length(64), Ok(()));
}

#[test]
fn passphrase_word_minimum_is_enforced() {
    assert_eq!(MIN_PASSPHRASE_WORDS, 3);
    assert_eq!(check_passphrase_words(2), Err(VaultError::Validation));
    assert_eq!(check_passphrase_words(0), Err(VaultError::Validation));
    assert_eq!(check_passphrase_words(3), Ok(()));
    assert_eq!(check_passphrase_words(12), Ok(()));
}
