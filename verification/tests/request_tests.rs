use minihttp::request::parse_query_param;
use minihttp::request::parse_query_params;
use minihttp::request::parse_request_line;
use minihttp::request::Request;
use minihttp::request::RequestMethod;

#[test]
fn builder_must_construct_request_correctly() {
    let request = Request::builder()
        .method(RequestMethod::GET)
        .url("test")
        .add_header("test_header_1", "test_value_1_1")
        .add_header("test_header_1", "test_value_1_2")
        .add_header("test_header_2", "test_value_2_1")
        .add_query_param("test_qp_1", "test_qp_value_1_1")
        .add_query_param("test_qp_1", "test_qp_value_1_2")
        .add_query_param("test_qp_2", "test_qp_value_2_1")
        .build();

    assert_eq!(
        RequestMethod::GET,
        request.method,
        "Request method must be 'GET'"
    );
    assert_eq!("test", request.url, "Request url must be 'test'");

    let header_1 = request.get_header("test_header_1");
    assert!(
        header_1.is_some_and(|h| h.len() == 2 && h.contains(&String::from("test_value_1_1")) && h.contains(&String::from("test_value_1_2"))),
        "Header 'test_header_1' must be present and contain 2 values('test_value_1_1' and 'test_value_1_2')"
    );

    let header_2 = request.get_header("test_header_2");
    assert!(
        header_2.is_some_and(|h| h.len() == 1 && h.contains(&String::from("test_value_2_1"))),
        "Header 'test_header_2' must be present and contain only 1 value('test_value_2_1')"
    );

    let header_3 = request.get_header("test_header_3");
    assert!(
        header_3.is_none(),
        "Request must not have header 'test_header_3'"
    );

    let query_param_1 = request.get_query_param("test_qp_1");
    println!("{}", query_param_1.is_some());
    assert!(
        query_param_1.is_some_and(|qp| qp.len() == 2 && qp.contains(&String::from("test_qp_value_1_1")) && qp.contains(&String::from("test_qp_value_1_2"))),
        "Query param 'test_qp_1' must be present and contain 2 values('test_qp_value_1_1' and 'test_qp_value_1_2')"
    );

    let query_param_2 = request.get_query_param("test_qp_2");
    assert!(
        query_param_2
            .is_some_and(|qp| qp.len() == 1 && qp.contains(&String::from("test_qp_value_2_1"))),
        "Query param 'test_qp_2' must be present and contain only 1 value('test_qp_value_2_1')"
    );

    let query_param_3 = request.get_query_param("test_qp_3");
    assert!(
        query_param_3.is_none(),
        "Request must not have header 'test_qp_3'"
    );
}

#[test]
fn request_method_parse_must_return_correct_value() {
    let get = RequestMethod::parse("GET");
    let post = RequestMethod::parse("POST");
    let put = RequestMethod::parse("PUT");
    let delete = RequestMethod::parse("DELETE");
    let unknown = RequestMethod::parse("unknown");

    assert!(
        get.is_some_and(|m| m == RequestMethod::GET),
        "GET method must be parsed correctly"
    );
    assert!(
        post.is_some_and(|m| m == RequestMethod::POST),
        "POST method must be parsed correctly"
    );
    assert!(
        put.is_some_and(|m| m == RequestMethod::PUT),
        "PUT method must be parsed correctly"
    );
    assert!(
        delete.is_some_and(|m| m == RequestMethod::DELETE),
        "DELETE method must be parsed correctly"
    );
    assert!(unknown.is_none(), "Unknown method must be parsed into None");
}

#[test]
fn header_registration_accumulates_in_order() {
    let request = Request::builder()
        .add_header("X", "1")
        .add_header("X", "2")
        .build();

    let values = request.get_header("X").expect("header 'X' must be present");
    assert_eq!(values, &vec![String::from("1"), String::from("2")]);
    assert!(request.get_header("Y").is_none(), "a never-added header is absent");
}

#[test]
fn query_string_parsing_single_pair_with_two_values() {
    let params = parse_query_params("name=v1,v2").expect("well-formed query string must parse");

    assert_eq!(params.len(), 1);
    let values = params.get("name").expect("'name' must be present");
    assert_eq!(values, &vec![String::from("v1"), String::from("v2")]);
}

#[test]
fn query_string_parsing_two_pairs() {
    let params = parse_query_params("a=1&b=2,3").expect("well-formed query string must parse");

    assert_eq!(params.len(), 2);
    assert_eq!(params.get("a").unwrap(), &vec![String::from("1")]);
    assert_eq!(
        params.get("b").unwrap(),
        &vec![String::from("2"), String::from("3")]
    );
}

#[test]
fn query_string_parsing_repeated_names_accumulate() {
    let params = parse_query_params("a=1&a=2").expect("well-formed query string must parse");

    assert_eq!(params.len(), 1);
    assert_eq!(
        params.get("a").unwrap(),
        &vec![String::from("1"), String::from("2")]
    );
}

#[test]
fn query_pair_without_equals_is_rejected() {
    let err = parse_query_param("noequals").expect_err("a pair without '=' must be rejected");
    assert_eq!(err.message(), "Invalid query param: noequals");
}

#[test]
fn parsing_empty_request_fails() {
    let err = Request::parse("").expect_err("an empty request must be rejected");
    assert_eq!(err.message(), "Invalid request line: ");
}

#[test]
fn parsing_unknown_method_fails() {
    let err = Request::parse("UNKNOWN /x").expect_err("an unknown method must be rejected");
    assert_eq!(err.message(), "Invalid request line: UNKNOWN /x");
}

#[test]
fn parsing_method_without_path_fails() {
    let err = Request::parse("GET").expect_err("a request line without a path must be rejected");
    assert_eq!(err.message(), "Invalid request line: GET");

    let err = parse_request_line("GET")
        .expect_err("a request line without a path must be rejected");
    assert_eq!(err.message(), "Invalid request line: GET");
}

#[test]
fn parsing_reads_only_the_request_line() {
    let request = Request::parse("GET /path&a=1,2&b=3 HTTP/1.1\r\nHost: example\r\n\r\n")
        .expect("a well-formed request must parse");

    assert_eq!(request.method, RequestMethod::GET);
    assert_eq!(request.url, "/path");
    assert_eq!(
        request.get_query_param("a").unwrap(),
        &vec![String::from("1"), String::from("2")]
    );
    assert_eq!(request.get_query_param("b").unwrap(), &vec![String::from("3")]);
    assert!(
        request.get_header("Host").is_none(),
        "wire headers are not read by this parser"
    );
}

#[test]
fn parsing_path_without_query_yields_no_params() {
    let request = Request::parse("GET /x").expect("a well-formed request must parse");

    assert_eq!(request.url, "/x");
    assert!(request.get_query_param("a").is_none());

    let trailing = Request::parse("GET /x&").expect("an empty query string is allowed");
    assert_eq!(trailing.url, "/x");
    assert!(trailing.get_query_param("a").is_none());
}
