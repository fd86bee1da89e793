use ip_logger::resolver::address_from_member;
use ip_logger::resolver::resolve_address;
use ip_logger::resolver::Member;
use ip_logger::resolver::NetworkError;

#[test]
fn address_is_read_from_the_ip_member() {
    assert_eq!(resolve_address("{\"ip\":\"1.2.3.4\"}"), Ok("1.2.3.4".to_string()));
    assert_eq!(
        resolve_address(" { \"other\": 1, \"ip\" : \"2001:db8::1\" } "),
        Ok("2001:db8::1".to_string())
    );
    assert_eq!(resolve_address("{\"ip\":\"\"}"), Ok(String::new()));
    assert_eq!(resolve_address("{\"ip\":\"a\\u0062c\"}"), Ok("abc".to_string()));
}

#[test]
fn the_last_of_two_ip_members_counts() {
    assert_eq!(resolve_address("{\"ip\":\"1.1.1.1\",\"ip\":\"2.2.2.2\"}"), Ok("2.2.2.2".to_string()));
}

#[test]
fn missing_member_gives_the_placeholder() {
    assert_eq!(resolve_address("{}"), Ok("?".to_string()));
    assert_eq!(resolve_address("{\"IP\":\"1.2.3.4\"}"), Ok("?".to_string()));
    assert_eq!(resolve_address("{\"address\":{\"ip\":\"1.2.3.4\"}}"), Ok("?".to_string()));
}

#[test]
fn member_that_is_no_text_gives_the_placeholder() {
    assert_eq!(resolve_address("{\"ip\":5}"), Ok("?".to_string()));
    assert_eq!(resolve_address("{\"ip\":null}"), Ok("?".to_string()));
    assert_eq!(resolve_address("{\"ip\":[\"1.2.3.4\"]}"), Ok("?".to_string()));
}

#[test]
fn text_that_is_not_json_is_an_error() {
    assert_eq!(resolve_address(""), Err(NetworkError::InvalidJson));
    assert_eq!(resolve_address("<html>"), Err(NetworkError::InvalidJson));
    assert_eq!(resolve_address("{\"ip\":\"1.2.3.4\""), Err(NetworkError::InvalidJson));
    assert_eq!(resolve_address("{\"ip\":\"1.2.3.4\"} x"), Err(NetworkError::InvalidJson));
    assert_eq!(resolve_address("ip"), Err(NetworkError::InvalidJson));
}

#[test]
fn json_that_is_no_object_is_an_error() {
    assert_eq!(resolve_address("[1,2]"), Err(NetworkError::NotAnObject));
    assert_eq!(resolve_address("\"1.2.3.4\""), Err(NetworkError::NotAnObject));
    assert_eq!(resolve_address("null"), Err(NetworkError::NotAnObject));
    assert_eq!(resolve_address("42"), Err(NetworkError::NotAnObject));
}

#[test]
fn what_was_read_decides_the_address() {
    assert_eq!(address_from_member(None), Err(NetworkError::InvalidJson));
    assert_eq!(
        address_from_member(Some(Member { in_object: false, text: None })),
        Err(NetworkError::NotAnObject)
    );
    assert_eq!(
        address_from_member(Some(Member { in_object: false, text: Some("x".to_string()) })),
        Err(NetworkError::NotAnObject)
    );
    assert_eq!(
        address_from_member(Some(Member { in_object: true, text: None })),
        Ok("?".to_string())
    );
    assert_eq!(
        address_from_member(Some(Member { in_object: true, text: Some("9.9.9.9".to_string()) })),
        Ok("9.9.9.9".to_string())
    );
}
