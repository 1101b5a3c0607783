use hostlink::error::Error;
use hostlink::oneshot::{sanitize_args, submit_request, user_agent};
use hostlink::request::{Header, Method, PendingRequest};

fn pairs(headers: &[Header]) -> Vec<(String, String)> {
    headers.iter().map(|h| (h.name.clone(), h.value.clone())).collect()
}

#[test]
fn empty_body_and_headers_become_none() {
    let (method, url, body, headers) = sanitize_args("get", "http://localhost/", "", "");
    assert_eq!(method, "get");
    assert_eq!(url, "http://localhost/");
    assert_eq!(body, None);
    assert_eq!(headers, None);
}

#[test]
fn given_body_and_headers_are_kept() {
    let (method, url, body, headers) =
        sanitize_args("post", "http://localhost/x", "payload", "{\"a\":\"b\"}");
    assert_eq!(method, "post");
    assert_eq!(url, "http://localhost/x");
    assert_eq!(body, Some("payload".to_string()));
    assert_eq!(headers, Some("{\"a\":\"b\"}".to_string()));
}

#[test]
fn blank_is_not_empty() {
    let (_, _, body, headers) = sanitize_args("", "", " ", "\n");
    assert_eq!(body, Some(" ".to_string()));
    assert_eq!(headers, Some("\n".to_string()));
}

#[test]
fn verbs_are_read_in_lower_case() {
    assert_eq!(Method::parse("get"), Method::Get);
    assert_eq!(Method::parse("post"), Method::Post);
    assert_eq!(Method::parse("put"), Method::Put);
    assert_eq!(Method::parse("patch"), Method::Patch);
    assert_eq!(Method::parse("delete"), Method::Delete);
    assert_eq!(Method::parse("head"), Method::Head);
}

#[test]
fn unknown_verbs_fall_back_to_get() {
    assert_eq!(Method::parse(""), Method::Get);
    assert_eq!(Method::parse("POST"), Method::Get);
    assert_eq!(Method::parse("Post"), Method::Get);
    assert_eq!(Method::parse("options"), Method::Get);
    assert_eq!(Method::parse("post "), Method::Get);
    assert_eq!(Method::parse("pos"), Method::Get);
}

#[test]
fn verbs_are_written_in_upper_case() {
    assert_eq!(Method::Get.as_str(), "GET");
    assert_eq!(Method::Post.as_str(), "POST");
    assert_eq!(Method::Put.as_str(), "PUT");
    assert_eq!(Method::Patch.as_str(), "PATCH");
    assert_eq!(Method::Delete.as_str(), "DELETE");
    assert_eq!(Method::Head.as_str(), "HEAD");
}

#[test]
fn new_request_is_bare() {
    let request = PendingRequest::new("put", "http://localhost/item");
    assert_eq!(request.method, Method::Put);
    assert_eq!(request.url, "http://localhost/item");
    assert!(request.headers.is_empty());
    assert_eq!(request.body, None);
}

#[test]
fn body_is_the_bytes_of_the_text() {
    let mut request = PendingRequest::new("post", "http://localhost/");
    request.attach_body("caf\u{e9}");
    assert_eq!(request.body, Some(vec![b'c', b'a', b'f', 0xc3, 0xa9]));
    request.attach_body("");
    assert_eq!(request.body, Some(vec![]));
    assert!(request.headers.is_empty());
}

#[test]
fn headers_are_added_after_those_present() {
    let mut request = PendingRequest::new("get", "http://localhost/");
    request.add_headers(vec![Header { name: "a".to_string(), value: "1".to_string() }]);
    request.add_headers(vec![
        Header { name: "b".to_string(), value: "2".to_string() },
        Header { name: "a".to_string(), value: "3".to_string() },
    ]);
    assert_eq!(
        pairs(&request.headers),
        vec![
            ("a".to_string(), "1".to_string()),
            ("b".to_string(), "2".to_string()),
            ("a".to_string(), "3".to_string()),
        ]
    );
}

#[test]
fn submit_prepares_the_described_request() {
    let request = submit_request(
        "post".to_string(),
        "http://localhost/submit".to_string(),
        Some("hello".to_string()),
        Some(r#"{"X-Test":"1","Accept":"*/*"}"#.to_string()),
    )
    .unwrap();
    assert_eq!(request.method, Method::Post);
    assert_eq!(request.url, "http://localhost/submit");
    assert_eq!(request.body, Some(b"hello".to_vec()));
    assert_eq!(
        pairs(&request.headers),
        vec![("accept".to_string(), "*/*".to_string()), ("x-test".to_string(), "1".to_string())]
    );
}

#[test]
fn submit_without_body_and_headers() {
    let request =
        submit_request("fetch".to_string(), "http://localhost/".to_string(), None, None).unwrap();
    assert_eq!(request.method, Method::Get);
    assert_eq!(request.body, None);
    assert!(request.headers.is_empty());
}

#[test]
fn submit_fails_on_headers_that_do_not_decode() {
    let malformed = submit_request(
        "get".to_string(),
        "http://localhost/".to_string(),
        None,
        Some("[1,2]".to_string()),
    );
    assert_eq!(malformed.unwrap_err(), Error::MalformedInput);
    let bad_name = submit_request(
        "get".to_string(),
        "http://localhost/".to_string(),
        Some("body".to_string()),
        Some(r#"{"a b":"c"}"#.to_string()),
    );
    assert_eq!(bad_name.unwrap_err(), Error::InvalidHeaderName);
    let bad_value = submit_request(
        "get".to_string(),
        "http://localhost/".to_string(),
        None,
        Some(r#"{"a":"b\r\nc"}"#.to_string()),
    );
    assert_eq!(bad_value.unwrap_err(), Error::InvalidHeaderValue);
}

#[test]
fn user_agent_is_name_slash_version() {
    assert_eq!(user_agent("hostlink", "0.1.0"), "hostlink/0.1.0");
    assert_eq!(user_agent("", ""), "/");
}

#[test]
fn every_error_has_its_message() {
    assert_eq!(Error::UnknownHandle.message(), "unknown request handle");
    assert_eq!(Error::MalformedInput.message(), "headers are not a JSON object of strings");
    assert_eq!(Error::InvalidHeaderName.message(), "invalid header name");
    assert_eq!(Error::InvalidHeaderValue.message(), "invalid header value");
    assert_eq!(Error::TransportError.message(), "transport failure");
    assert_eq!(Error::RuntimeNotStarted.message(), "background runtime is not running");
}
