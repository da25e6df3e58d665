use minihttp::dispatch::find_route;
use minihttp::dispatch::not_found_response;
use minihttp::dispatch::route_request;
use minihttp::dispatch::server_error_response;
use minihttp::dispatch::Dispatch;
use minihttp::matcher::RequestMatcher;
use minihttp::request::parser_error;
use minihttp::request::Request;
use minihttp::request::RequestMethod;
use minihttp::response::Response;

fn test_routes() -> Vec<RequestMatcher> {
    vec![RequestMatcher::get().url("/test").build()]
}

fn test_handler(_request: Request) -> Response {
    Response::builder().code(200).body("Test").build()
}

#[test]
fn end_to_end_matched_route_yields_handler_response() {
    let routes = test_routes();

    let response = match route_request(&routes, "GET /test") {
        Dispatch::Handle(index, request) => {
            assert_eq!(index, 0);
            test_handler(request)
        }
        Dispatch::Respond(_) => panic!("'GET /test' must reach the registered handler"),
    };

    let wire = response.to_http_string();
    assert!(wire.starts_with("HTTP/1.1 200\r\n"));
    assert!(wire.ends_with("Test"));
}

#[test]
fn end_to_end_unmatched_route_yields_404() {
    let routes = test_routes();

    match route_request(&routes, "GET /missing") {
        Dispatch::Handle(_, _) => panic!("'GET /missing' must not match"),
        Dispatch::Respond(response) => {
            assert_eq!(response.code(), 404);
            assert_eq!(response.body(), "Requested page has not been found");
        }
    }
}

#[test]
fn end_to_end_unparseable_request_yields_500() {
    let routes = test_routes();

    match route_request(&routes, "NOT-A-REQUEST") {
        Dispatch::Handle(_, _) => panic!("an unparseable request must not match"),
        Dispatch::Respond(response) => {
            assert_eq!(response.code(), 500);
            assert!(response.body().contains("Invalid request line: NOT-A-REQUEST"));
        }
    }
}

#[test]
fn routing_is_first_match_wins() {
    let routes = vec![
        RequestMatcher::post().url("/a").build(),
        RequestMatcher::get().url("/a").build(),
        RequestMatcher::get().url("/a").build(),
    ];
    let request = Request::builder()
        .method(RequestMethod::GET)
        .url("/a")
        .build();

    assert_eq!(
        find_route(&routes, &request),
        Some(1),
        "the earliest registered matching route wins"
    );

    let unrouted = Request::builder()
        .method(RequestMethod::DELETE)
        .url("/a")
        .build();
    assert_eq!(find_route(&routes, &unrouted), None);
}

#[test]
fn error_responses_have_fixed_shapes() {
    let not_found = not_found_response();
    assert_eq!(not_found.code(), 404);
    assert_eq!(not_found.body(), "Requested page has not been found");

    let error = parser_error(String::from("boom"));
    let response = server_error_response(&error);
    assert_eq!(response.code(), 500);
    assert_eq!(response.body(), "Something went wrong: boom");
}
