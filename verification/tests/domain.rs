use zero2prod::domain::NewSubscriber;
use zero2prod::domain::SubscriberEmail;
use zero2prod::domain::SubscriberName;
use zero2prod::domain::SubscriptionToken;
use zero2prod::domain::subscriber_name::forbidden_characters;
use zero2prod::domain::subscriber_name::is_forbidden;

#[test]
fn a_256_grapheme_long_name_is_valid() {
    let name = "ö".repeat(256);
    assert!(SubscriberName::parse(&name).is_ok());
}

#[test]
fn a_name_longer_than_256_is_rejected() {
    let name = "a".repeat(257);
    assert!(SubscriberName::parse(&name).is_err());
}

#[test]
fn whitespace_only_names_are_rejected() {
    let name = "      ";
    assert!(SubscriberName::parse(name).is_err());
}

#[test]
fn empty_string_is_rejected() {
    let name = "";
    assert!(SubscriberName::parse(name).is_err());
}

#[test]
fn names_containing_an_invalid_character_are_rejected() {
    for char in forbidden_characters() {
        let name = char.to_string();
        assert!(SubscriberName::parse(&name).is_err());
    }
}

#[test]
fn a_valid_name_is_parsed_successfully() {
    let name = "Ursula Le Guin".to_string();
    assert!(SubscriberName::parse(&name).is_ok());
}

#[test]
fn generated_token_is_valid() {
    let token1 = SubscriptionToken::new();
    assert!(SubscriptionToken::parse(token1.as_ref()).is_ok());

    let token2 = SubscriptionToken::new();
    assert!(SubscriptionToken::parse(token2.as_ref()).is_ok());

    assert_ne!(token1.as_ref(), token2.as_ref());
}

#[test]
fn a_name_is_kept_as_given() {
    let name = SubscriberName::parse("Ursula Le Guin").unwrap();
    assert_eq!(name.as_ref(), "Ursula Le Guin");
}

#[test]
fn an_invalid_name_is_reported_with_its_text() {
    assert_eq!(
        SubscriberName::parse("sat,wik").unwrap_err(),
        "sat,wik is not a valid subscriber name."
    );
    assert_eq!(SubscriberName::parse("").unwrap_err(), " is not a valid subscriber name.");
}

#[test]
fn names_are_measured_in_grapheme_clusters() {
    // 256 clusters of two characters each
    let name = "e\u{301}".repeat(256);
    assert_eq!(name.chars().count(), 512);
    assert!(SubscriberName::parse(&name).is_ok());
    let name = "e\u{301}".repeat(257);
    assert!(SubscriberName::parse(&name).is_err());
}

#[test]
fn whitespace_of_any_script_does_not_make_a_name() {
    assert!(SubscriberName::parse("\u{2003}\t\n\u{3000}").is_err());
    assert!(SubscriberName::parse(" a ").is_ok());
}

#[test]
fn a_forbidden_character_anywhere_spoils_the_name() {
    assert!(SubscriberName::parse("Ursula {Le} Guin").is_err());
    assert!(SubscriberName::parse("Ursula Le Guin>").is_err());
    assert!(SubscriberName::parse("Ursula_Le.Guin").is_ok());
}

#[test]
fn there_are_fourteen_forbidden_characters() {
    let all = forbidden_characters();
    assert_eq!(all, vec!['&', '=', ',', '"', '-', '+', '(', ')', '<', '>', '\\', '/', '{', '}']);
    for c in all {
        assert!(is_forbidden(c));
    }
    assert!(!is_forbidden('a'));
    assert!(!is_forbidden(' '));
}

#[test]
fn valid_emails_are_parsed_successfully() {
    for address in ["ursula_le_guin@gmail.com", "a.b+c@example.co.uk", "email@[127.0.0.1]"] {
        let email = SubscriberEmail::parse(address).unwrap();
        assert_eq!(email.as_ref(), address);
    }
}

#[test]
fn invalid_emails_are_rejected() {
    for address in ["", "abc.com", "@domain.com", "ursula@", "a @x.cz", "something@@somewhere.com"] {
        assert_eq!(
            SubscriberEmail::parse(address).unwrap_err(),
            format!("{} is not a valid subscriber email.", address)
        );
    }
}

#[test]
fn a_token_has_25_alphanumeric_characters() {
    let token = SubscriptionToken::new();
    assert_eq!(token.as_ref().len(), 25);
    assert!(token.as_ref().chars().all(|c| c.is_ascii_alphanumeric()));
}

#[test]
fn tokens_of_another_form_are_rejected() {
    assert!(SubscriptionToken::parse("abcdefghijklmnopqrstuvwxy").is_ok());
    assert!(SubscriptionToken::parse("ABCDEFGHIJ0123456789abcde").is_ok());
    assert_eq!(
        SubscriptionToken::parse("abcdefghijklmnopqrstuvwx").unwrap_err(),
        "abcdefghijklmnopqrstuvwx is not a valid subscription token."
    );
    assert!(SubscriptionToken::parse("abcdefghijklmnopqrstuvwxyz").is_err());
    assert!(SubscriptionToken::parse("abcdefghijklmnopqrstuvwx-").is_err());
    assert!(SubscriptionToken::parse("abcdefghijklmnopqrstuvwx ").is_err());
    assert!(SubscriptionToken::parse("").is_err());
}

#[test]
fn the_length_of_a_token_is_counted_in_bytes() {
    // twelve letters of two bytes each and one of one byte: 25 bytes
    let token = format!("{}a", "é".repeat(12));
    assert_eq!(token.len(), 25);
    assert!(SubscriptionToken::parse(&token).is_ok());
    // 25 letters of two bytes each
    assert!(SubscriptionToken::parse(&"é".repeat(25)).is_err());
}

#[test]
fn the_default_token_is_empty() {
    assert_eq!(SubscriptionToken::default().as_ref(), "");
}

#[test]
fn a_new_subscriber_holds_what_it_was_given() {
    let email = SubscriberEmail::parse("ursula_le_guin@gmail.com").unwrap();
    let name = SubscriberName::parse("Ursula Le Guin").unwrap();
    let subscriber = NewSubscriber::new(email, name);
    assert_eq!(subscriber.email.as_ref(), "ursula_le_guin@gmail.com");
    assert_eq!(subscriber.name.as_ref(), "Ursula Le Guin");
}
