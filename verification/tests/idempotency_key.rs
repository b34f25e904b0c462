use zero2prod::idempotency::IdempotencyKey;
use zero2prod::idempotency::KeyError;

#[test]
fn empty_key_is_rejected() {
    assert_eq!(IdempotencyKey::parse(String::new()).unwrap_err(), KeyError::Empty);
}

#[test]
fn key_of_51_characters_is_rejected() {
    let raw = "k".repeat(51);
    assert_eq!(IdempotencyKey::parse(raw).unwrap_err(), KeyError::TooLong);
}

#[test]
fn key_of_one_character_is_accepted() {
    let key = IdempotencyKey::parse("k".to_string()).unwrap();
    assert_eq!(key.as_str(), "k");
}

#[test]
fn key_of_50_characters_is_accepted() {
    let raw = "k".repeat(50);
    let key = IdempotencyKey::parse(raw.clone()).unwrap();
    assert_eq!(key.as_str(), raw);
}

#[test]
fn key_length_is_counted_in_characters() {
    let raw = "ö".repeat(50);
    assert!(IdempotencyKey::parse(raw).is_ok());
    let raw = "ö".repeat(51);
    assert_eq!(IdempotencyKey::parse(raw).unwrap_err(), KeyError::TooLong);
}

#[test]
fn key_is_kept_as_given() {
    let key = IdempotencyKey::parse("AbC-123".to_string()).unwrap();
    assert_eq!(key.as_str(), "AbC-123");
    assert_eq!(key.as_string(), "AbC-123");
}

#[test]
fn a_generated_key_is_the_text_of_an_identifier() {
    let key = IdempotencyKey::generate();
    assert_eq!(key.as_str().len(), 36);
    for (i, c) in key.as_str().chars().enumerate() {
        if i == 8 || i == 13 || i == 18 || i == 23 {
            assert_eq!(c, '-');
        } else {
            assert!(c.is_ascii_hexdigit() && !c.is_ascii_uppercase());
        }
    }
    assert!(IdempotencyKey::parse(key.as_str().to_string()).is_ok());
    assert_ne!(IdempotencyKey::generate().as_str(), key.as_str());
}

#[test]
fn the_faults_of_a_key_in_words() {
    assert_eq!(KeyError::Empty.message(), "the idempotency key cannot be empty");
    assert_eq!(KeyError::TooLong.message(), "the idempotency key must be shorter than 50 characters");
}

#[test]
fn a_key_converts_from_and_to_a_string() {
    let key = IdempotencyKey::try_from("abc123".to_string()).unwrap();
    let text: &str = key.as_ref();
    assert_eq!(text, "abc123");
    assert_eq!(String::from(key), "abc123");
    assert_eq!(IdempotencyKey::try_from(String::new()).unwrap_err(), KeyError::Empty);
    assert_eq!(IdempotencyKey::try_from("k".repeat(51)).unwrap_err(), KeyError::TooLong);
}
