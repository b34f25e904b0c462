use zero2prod::idempotency::HeaderPair;
use zero2prod::idempotency::ResponseEnvelope;
use zero2prod::idempotency::see_other;
use zero2prod::util::EmptyValue;
use zero2prod::util::NonEmptyString;
use zero2prod::util::error_chain_fmt;

#[test]
fn an_empty_value_is_rejected() {
    assert_eq!(NonEmptyString::try_from(String::new()).unwrap_err(), EmptyValue);
    assert_eq!(EmptyValue.message(), "value cannot be empty");
}

#[test]
fn a_value_with_characters_is_kept() {
    let value = NonEmptyString::try_from(" ".to_string()).unwrap();
    assert_eq!(value.as_ref(), " ");
    let value = NonEmptyString::try_from("Newsletter title".to_string()).unwrap();
    assert_eq!(value.as_ref(), "Newsletter title");
    assert_eq!(String::from(value), "Newsletter title");
}

#[test]
fn an_error_without_causes_is_its_message_and_an_empty_line() {
    assert_eq!(error_chain_fmt("Authentication failed.", &Vec::new()), "Authentication failed.\n\n");
}

#[test]
fn causes_follow_the_message_outermost_first() {
    let causes = vec!["Failed to store newsletter issue details".to_string(), "connection reset".to_string()];
    assert_eq!(
        error_chain_fmt("Something went wrong", &causes),
        "Something went wrong\n\nCaused by:\n\tFailed to store newsletter issue details\nCaused by:\n\tconnection reset\n"
    );
}

#[test]
fn see_other_is_a_redirect_without_body() {
    let response = see_other("/admin/newsletter");
    assert_eq!(response.status_code, 303);
    assert_eq!(
        response.headers,
        vec![HeaderPair { name: "location".to_string(), value: b"/admin/newsletter".to_vec() }]
    );
    assert!(response.body.is_empty());
    assert_eq!(see_other("/login").headers[0].value, b"/login".to_vec());
    assert_eq!(see_other("/ü").headers[0].value, vec![b'/', 0xc3, 0xbc]);
}

#[test]
fn a_duplicate_equals_what_it_was_made_from() {
    let response = ResponseEnvelope {
        status_code: 200,
        headers: vec![
            HeaderPair { name: "content-type".to_string(), value: b"text/html".to_vec() },
            HeaderPair { name: "x-binary".to_string(), value: vec![0, 255, 128] },
        ],
        body: b"<p>hello</p>".to_vec(),
    };
    assert_eq!(response.duplicate(), response);
    assert_eq!(response.headers[1].duplicate(), response.headers[1]);
}
