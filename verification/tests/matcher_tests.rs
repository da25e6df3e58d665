use minihttp::matcher::RequestMatcher;
use minihttp::request::Request;
use minihttp::request::RequestMethod;

#[test]
fn builder_must_construct_post_matcher_correctly() {
    let matcher = RequestMatcher::post().url("test").build();

    assert_eq!(
        RequestMethod::POST,
        matcher.method,
        "Request method must be 'POST'"
    );
    assert_eq!("test", matcher.url, "URL must be 'test'");
}

#[test]
fn builder_must_construct_get_matcher_correctly() {
    let matcher = RequestMatcher::get().url("test").build();

    assert_eq!(
        RequestMethod::GET,
        matcher.method,
        "Request method must be 'GET'"
    );
    assert_eq!("test", matcher.url, "URL must be 'test'");
}

#[test]
fn builder_must_construct_put_matcher_correctly() {
    let matcher = RequestMatcher::put().url("test").build();

    assert_eq!(
        RequestMethod::PUT,
        matcher.method,
        "Request method must be 'PUT'"
    );
    assert_eq!("test", matcher.url, "URL must be 'test'");
}

#[test]
fn builder_must_construct_delete_matcher_correctly() {
    let matcher = RequestMatcher::delete().url("test").build();

    assert_eq!(
        RequestMethod::DELETE,
        matcher.method,
        "Request method must be 'DELTE'"
    );
    assert_eq!("test", matcher.url, "URL must be 'test'");
}

#[test]
fn matcher_must_match_request() {
    let matcher = RequestMatcher::get().url("test").build();

    let request = Request::builder()
        .method(RequestMethod::GET)
        .url("test")
        .build();

    assert!(matcher.matches(&request));
}

#[test]
fn matcher_must_reject_wrong_method_or_url() {
    let matcher = RequestMatcher::get().url("/a").build();

    let wrong_method = Request::builder()
        .method(RequestMethod::POST)
        .url("/a")
        .build();
    assert!(!matcher.matches(&wrong_method));

    let wrong_url = Request::builder()
        .method(RequestMethod::GET)
        .url("/A")
        .build();
    assert!(!matcher.matches(&wrong_url), "matching is case-sensitive");

    let padded_url = Request::builder()
        .method(RequestMethod::GET)
        .url(" /a")
        .build();
    assert!(!matcher.matches(&padded_url), "no trimming is performed");
}
