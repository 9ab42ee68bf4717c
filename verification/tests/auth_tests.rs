use manta_ws::auth::{get_auth_token, parse_basic_credentials, split_credentials};
use manta_ws::error::ApiError;

#[test]
fn bearer_token_is_extracted() {
    let header = String::from("Bearer eyJhbGciOiJSUzI1NiJ9.payload.sig");
    let token = get_auth_token(Some(&header)).unwrap();
    assert_eq!(token, "eyJhbGciOiJSUzI1NiJ9.payload.sig");
}

#[test]
fn missing_header_is_unauthorized() {
    assert!(matches!(get_auth_token(None), Err(ApiError::Unauthorized)));
}

#[test]
fn malformed_bearer_values_are_unauthorized() {
    for value in ["Bearer", "Bearer ", "Basic dXNlcjpwYXNz", "Bearer a b", "bearer tok", ""] {
        let header = String::from(value);
        assert!(
            matches!(get_auth_token(Some(&header)), Err(ApiError::Unauthorized)),
            "{:?} must be rejected",
            value
        );
    }
}

#[test]
fn basic_credentials_round_trip_through_base64() {
    // The decoder must really decode: handing the encoded word back
    // unchanged would not split at the colon of the original text.
    let encoded = base64::encode("alice:wonderland");
    let header = format!("Basic {}", encoded);
    let (user, pass) = parse_basic_credentials(Some(&header)).unwrap();
    assert_eq!(user, "alice");
    assert_eq!(pass, "wonderland");
}

#[test]
fn basic_credentials_password_stops_at_second_colon() {
    let encoded = base64::encode("bob:se:cret");
    let header = format!("Basic {}", encoded);
    let (user, pass) = parse_basic_credentials(Some(&header)).unwrap();
    assert_eq!(user, "bob");
    assert_eq!(pass, "se");
}

#[test]
fn credentials_without_colon_are_unauthorized() {
    let encoded = base64::encode("no-colon-here");
    let header = format!("Basic {}", encoded);
    assert!(matches!(
        parse_basic_credentials(Some(&header)),
        Err(ApiError::Unauthorized)
    ));
}

#[test]
fn invalid_base64_is_unauthorized() {
    let header = String::from("Basic !!!not-base64!!!");
    assert!(matches!(
        parse_basic_credentials(Some(&header)),
        Err(ApiError::Unauthorized)
    ));
}

#[test]
fn header_without_second_word_is_unauthorized() {
    let header = String::from("Basic");
    assert!(matches!(
        parse_basic_credentials(Some(&header)),
        Err(ApiError::Unauthorized)
    ));
}

#[test]
fn split_credentials_takes_first_two_segments() {
    let (user, pass) = split_credentials(&String::from("u:p")).unwrap();
    assert_eq!(user, "u");
    assert_eq!(pass, "p");

    let (user, pass) = split_credentials(&String::from(":p")).unwrap();
    assert_eq!(user, "");
    assert_eq!(pass, "p");

    assert!(matches!(
        split_credentials(&String::from("nocolon")),
        Err(ApiError::Unauthorized)
    ));
}
