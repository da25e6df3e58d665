use minihttp::response::u16_to_dec;
use minihttp::response::Response;

#[test]
fn builder_must_construct_response_correctly() {
    let response = Response::builder().code(200).body("test_body").build();

    assert_eq!(200, response.code(), "Response code must be 200");
    assert_eq!(
        "test_body",
        response.body(),
        "Response body must be 'test_body"
    );
}

#[test]
fn decimal_rendering_is_exact() {
    assert_eq!(u16_to_dec(0), "0");
    assert_eq!(u16_to_dec(7), "7");
    assert_eq!(u16_to_dec(200), "200");
    assert_eq!(u16_to_dec(404), "404");
    assert_eq!(u16_to_dec(65535), "65535");
}

#[test]
fn serialization_has_exact_wire_format() {
    let response = Response::builder()
        .code(200)
        .add_header("Content-Type", "text/plain")
        .body("Test")
        .build();

    assert_eq!(
        response.to_http_string(),
        "HTTP/1.1 200\r\nContent-Type: text/plain\r\n\r\nTest"
    );
}

#[test]
fn serialization_without_headers_keeps_blank_line() {
    let response = Response::builder().code(404).body("missing").build();

    assert_eq!(response.to_http_string(), "HTTP/1.1 404\r\n\r\nmissing");
}

#[test]
fn response_header_last_write_wins() {
    let response = Response::builder()
        .code(200)
        .add_header("A", "1")
        .add_header("B", "x")
        .add_header("A", "2")
        .build();

    assert_eq!(
        response.to_http_string(),
        "HTTP/1.1 200\r\nA: 2\r\nB: x\r\n\r\n",
        "a rewritten header keeps its position and takes the last value"
    );
}
