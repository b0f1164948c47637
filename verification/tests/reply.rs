use remo_client_rs::reply::{read_lenient, read_status, read_strict};
use remo_client_rs::{
    read_settings_update, read_user, ApiError, DecodeError, Listing, Reply, Response,
    TransportError, User,
};

fn decode_error() -> DecodeError {
    DecodeError { message: "missing field `nickname`".to_string() }
}

fn transport_error() -> TransportError {
    TransportError { message: "operation timed out".to_string() }
}

fn response(status: u16, body: &str) -> Result<Response, TransportError> {
    Ok(Response { status, body: body.to_string() })
}

fn user() -> User {
    User { id: "test_user_0".to_string(), nickname: "Test user".to_string(), superuser: None }
}

#[test]
fn strict_reading_hands_the_value_on() {
    assert_eq!(read_strict(Reply::Decoded(7u8)), Ok(7u8));
}

#[test]
fn strict_reading_fails_on_a_body_that_did_not_decode() {
    let result = read_strict::<u8>(Reply::Malformed(decode_error()));
    assert_eq!(result, Err(ApiError::Decode(decode_error())));
}

#[test]
fn strict_reading_keeps_the_transport_failure() {
    let result = read_strict::<u8>(Reply::Failed(transport_error()));
    assert_eq!(result, Err(ApiError::Transport(transport_error())));
}

#[test]
fn lenient_reading_hands_the_list_on() {
    let result = read_lenient(Reply::Decoded(vec![3u8, 1, 2]));
    assert_eq!(result, Ok(Listing { items: vec![3u8, 1, 2], suppressed: None }));
}

#[test]
fn lenient_reading_passes_over_a_body_that_did_not_decode() {
    let result = read_lenient::<u8>(Reply::Malformed(decode_error()));
    assert_eq!(result, Ok(Listing { items: vec![], suppressed: Some(decode_error()) }));
}

#[test]
fn lenient_reading_keeps_the_transport_failure() {
    let result = read_lenient::<u8>(Reply::Failed(transport_error()));
    assert_eq!(result, Err(ApiError::Transport(transport_error())));
}

#[test]
fn status_from_200_to_299_is_success() {
    assert_eq!(read_status(response(200, "{}")), Ok(()));
    assert_eq!(read_status(response(204, "")), Ok(()));
    assert_eq!(read_status(response(299, "<html>")), Ok(()));
    for status in 200..=299 {
        assert_eq!(read_status(response(status, "")), Ok(()));
    }
}

#[test]
fn status_outside_200_to_299_is_an_error_with_the_status() {
    assert_eq!(read_status(response(400, "")), Err(ApiError::HttpStatus { code: 400 }));
    assert_eq!(read_status(response(401, "{}")), Err(ApiError::HttpStatus { code: 401 }));
    assert_eq!(read_status(response(404, "")), Err(ApiError::HttpStatus { code: 404 }));
    assert_eq!(read_status(response(429, "")), Err(ApiError::HttpStatus { code: 429 }));
    assert_eq!(read_status(response(500, "")), Err(ApiError::HttpStatus { code: 500 }));
    assert_eq!(read_status(response(503, "x")), Err(ApiError::HttpStatus { code: 503 }));
    assert_eq!(read_status(response(199, "")), Err(ApiError::HttpStatus { code: 199 }));
    assert_eq!(read_status(response(300, "")), Err(ApiError::HttpStatus { code: 300 }));
    assert_eq!(read_status(response(0, "")), Err(ApiError::HttpStatus { code: 0 }));
    assert_eq!(read_status(response(65535, "")), Err(ApiError::HttpStatus { code: 65535 }));
}

#[test]
fn status_reading_does_not_look_at_the_body() {
    for body in ["", "{}", "not json", "{\"code\":404}"] {
        assert_eq!(read_status(response(200, body)), Ok(()));
        assert_eq!(read_status(response(500, body)), Err(ApiError::HttpStatus { code: 500 }));
    }
}

#[test]
fn status_reading_keeps_the_transport_failure() {
    assert_eq!(read_status(Err(transport_error())), Err(ApiError::Transport(transport_error())));
}

#[test]
fn settings_update_is_judged_by_status_alone() {
    assert_eq!(read_settings_update(response(200, "")), Ok(()));
    assert_eq!(read_settings_update(response(200, "ignored")), Ok(()));
    assert_eq!(read_settings_update(response(400, "{}")), Err(ApiError::HttpStatus { code: 400 }));
    assert_eq!(read_settings_update(response(500, "")), Err(ApiError::HttpStatus { code: 500 }));
    assert_eq!(
        read_settings_update(Err(transport_error())),
        Err(ApiError::Transport(transport_error()))
    );
}

#[test]
fn user_that_decodes_is_handed_on() {
    let read = read_user(Reply::Decoded(user())).unwrap();
    assert_eq!(read.id, "test_user_0");
    assert_eq!(read.nickname, "Test user");
    assert_eq!(read.superuser, None);
}

#[test]
fn user_that_does_not_decode_is_an_error() {
    assert_eq!(read_user(Reply::Malformed(decode_error())), Err(ApiError::Decode(decode_error())));
}

#[test]
fn user_fails_with_the_transport() {
    assert_eq!(
        read_user(Reply::Failed(transport_error())),
        Err(ApiError::Transport(transport_error()))
    );
}
