use ksx_backend::studio_launch::{accepted_health_body, health_body_of};

fn http_response(status: &str, content_type: &str, cache_control: &str, body: &str) -> String {
    format!(
        "HTTP/1.1 {status}\r\nContent-Type: {content_type}\r\nCache-Control: {cache_control}\r\nContent-Length: {}\r\nConnection: close\r\n\r\n{body}",
        body.len()
    )
}

const BODY: &str = r#"{"environment":{"id":"live-machine"}}"#;

#[test]
fn a_json_200_that_must_not_be_cached_is_accepted() {
    let response = http_response(
        "200 OK",
        "application/json; charset=utf-8",
        "private, no-store",
        BODY,
    );
    assert_eq!(accepted_health_body(&response).as_deref(), Some(BODY));
    assert_eq!(health_body_of(response.as_bytes()).as_deref(), Some(BODY));
}

#[test]
fn header_names_and_values_ignore_ascii_case_and_padding() {
    let response = "HTTP/1.0 200 OK\r\ncontent-TYPE:   APPLICATION/JSON  \r\nCACHE-CONTROL: max-age=0 ,  No-Store\r\n\r\n{}";
    assert_eq!(accepted_health_body(response).as_deref(), Some("{}"));
}

#[test]
fn a_random_listener_is_rejected() {
    assert_eq!(accepted_health_body("SSH-2.0-not-studio\r\n"), None);
    assert_eq!(health_body_of(b"SSH-2.0-not-studio\r\n"), None);
}

#[test]
fn a_404_is_rejected() {
    let not_found = http_response("404 Not Found", "application/json", "no-store", "{}");
    assert_eq!(accepted_health_body(&not_found), None);
}

#[test]
fn the_wrong_content_type_or_a_cacheable_answer_is_rejected() {
    let html = http_response("200 OK", "text/html", "no-store", "{}");
    assert_eq!(accepted_health_body(&html), None);
    let cached = http_response("200 OK", "application/json", "max-age=60", "{}");
    assert_eq!(accepted_health_body(&cached), None);
    let no_cache_header = "HTTP/1.1 200 OK\r\nContent-Type: application/json\r\n\r\n{}";
    assert_eq!(accepted_health_body(no_cache_header), None);
}

#[test]
fn an_unknown_protocol_version_is_rejected() {
    let response = "HTTP/2 200 OK\r\nContent-Type: application/json\r\nCache-Control: no-store\r\n\r\n{}";
    assert_eq!(accepted_health_body(response), None);
    let no_code = "HTTP/1.1\r\nContent-Type: application/json\r\nCache-Control: no-store\r\n\r\n{}";
    assert_eq!(accepted_health_body(no_code), None);
}

#[test]
fn bytes_that_are_not_utf8_are_rejected() {
    let mut response =
        http_response("200 OK", "application/json", "no-store", "{}").into_bytes();
    response.push(0xff);
    assert_eq!(health_body_of(&response), None);
}
