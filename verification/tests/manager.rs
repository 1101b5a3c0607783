use hostlink::error::Error;
use hostlink::manager::{HttpManager, RuntimeState, REQUEST_TIMEOUT_SECS, WORKER_THREADS};
use hostlink::registry::Phase;
use hostlink::request::Method;
use hostlink::response::{create_response, Outcome, RawHeader};

fn running() -> HttpManager {
    let mut manager = HttpManager::new();
    manager.http_startup(true);
    manager
}

fn response(status: u16, body: &str) -> Outcome {
    Outcome::Success(create_response(
        status,
        &vec![RawHeader { name: "x-served-by".to_string(), value: b"test".to_vec() }],
        body.to_string(),
    ))
}

fn body_of(manager: &HttpManager, handle: &str) -> String {
    match manager.request_entry(handle).unwrap().outcome().unwrap() {
        Outcome::Success(response) => response.body().to_string(),
        Outcome::Failure(description) => panic!("transport failure: {description}"),
    }
}

#[test]
fn new_manager_is_stopped() {
    let manager = HttpManager::new();
    assert_eq!(manager.state(), RuntimeState::Stopped);
    assert!(!manager.is_running());
    assert!(manager.has_room());
    assert_eq!(manager.request_phase("0"), None);
}

#[test]
fn fixed_limits() {
    assert_eq!(REQUEST_TIMEOUT_SECS, 10);
    assert_eq!(WORKER_THREADS, 2);
}

#[test]
fn startup_and_shutdown_switch_the_state() {
    let mut manager = HttpManager::new();
    assert!(!manager.http_startup(true));
    assert_eq!(manager.state(), RuntimeState::Running);
    assert!(manager.http_shutdown());
    assert_eq!(manager.state(), RuntimeState::Stopped);
    assert!(!manager.http_shutdown());
    assert_eq!(manager.state(), RuntimeState::Stopped);
}

#[test]
fn failed_startup_leaves_the_manager_stopped() {
    let mut manager = HttpManager::new();
    assert!(!manager.http_startup(false));
    assert_eq!(manager.state(), RuntimeState::Stopped);
    let handle = manager.request_init("http://localhost/", "get");
    assert_eq!(manager.request_launch(&handle).unwrap_err(), Error::RuntimeNotStarted);
}

#[test]
fn startup_while_running_restarts() {
    let mut manager = running();
    assert_eq!(manager.request_init("http://localhost/a", "get"), "0");
    assert_eq!(manager.request_init("http://localhost/b", "get"), "1");
    assert!(manager.http_startup(true));
    assert!(manager.is_running());
    assert_eq!(manager.request_phase("0"), None);
    assert_eq!(manager.request_phase("1"), None);
    assert_eq!(manager.request_init("http://localhost/c", "get"), "0");
}

#[test]
fn failed_restart_stops_and_resets() {
    let mut manager = running();
    manager.request_init("http://localhost/a", "get");
    assert!(manager.http_startup(false));
    assert!(!manager.is_running());
    assert_eq!(manager.request_phase("0"), None);
    assert_eq!(manager.request_init("http://localhost/b", "get"), "0");
}

#[test]
fn startup_from_stopped_keeps_requests() {
    let mut manager = HttpManager::new();
    assert_eq!(manager.request_init("http://localhost/a", "put"), "0");
    manager.http_startup(true);
    assert_eq!(manager.request_phase("0"), Some(Phase::UnderConstruction));
    assert_eq!(manager.request_init("http://localhost/b", "put"), "1");
    assert!(manager.request_launch("0").is_ok());
}

#[test]
fn init_returns_increasing_handles() {
    let mut manager = running();
    let mut previous: Option<u64> = None;
    for _ in 0..25 {
        let text = manager.request_init("http://localhost/", "get");
        let handle: u64 = text.parse().unwrap();
        if let Some(before) = previous {
            assert!(handle > before);
        }
        previous = Some(handle);
    }
    assert_eq!(previous, Some(24));
}

#[test]
fn shutdown_then_startup_resets_the_handle_counter() {
    let mut manager = running();
    assert_eq!(manager.request_init("http://localhost/", "get"), "0");
    assert_eq!(manager.request_init("http://localhost/", "get"), "1");
    assert_eq!(manager.request_init("http://localhost/", "get"), "2");
    manager.http_shutdown();
    manager.http_startup(true);
    assert_eq!(manager.request_init("http://localhost/", "get"), "0");
}

#[test]
fn shutdown_drops_all_entries() {
    let mut manager = running();
    manager.request_init("http://localhost/", "get");
    manager.request_init("http://localhost/", "get");
    manager.request_launch("1").unwrap();
    manager.http_shutdown();
    assert_eq!(manager.request_phase("0"), None);
    assert_eq!(manager.request_phase("1"), None);
    assert_eq!(manager.request_set_body("0", "x").unwrap_err(), Error::UnknownHandle);
    // A completion that arrives after the shutdown finds nothing to conclude.
    manager.record_outcome(1, Outcome::Failure("cancelled".to_string()));
    assert_eq!(manager.request_phase("1"), None);
}

#[test]
fn set_headers_and_body_reach_the_launched_request() {
    let mut manager = running();
    let handle = manager.request_init("http://localhost/submit", "post");
    manager.request_set_headers(&handle, r#"{"X-Test":"1","Accept":"*/*"}"#).unwrap();
    manager.request_set_body(&handle, "payload").unwrap();
    let launch = manager.request_launch(&handle).unwrap();
    assert_eq!(launch.handle, 0);
    assert_eq!(launch.timeout_secs, 10);
    assert_eq!(launch.request.method, Method::Post);
    assert_eq!(launch.request.url, "http://localhost/submit");
    assert_eq!(launch.request.body, Some(b"payload".to_vec()));
    let fields: Vec<(&str, &str)> =
        launch.request.headers.iter().map(|h| (h.name.as_str(), h.value.as_str())).collect();
    assert_eq!(fields, vec![("accept", "*/*"), ("x-test", "1")]);
    assert_eq!(manager.request_phase(&handle), Some(Phase::AwaitingResponse));
}

#[test]
fn operations_on_text_that_names_no_handle_fail() {
    let mut manager = running();
    manager.request_init("http://localhost/", "get");
    for bad in ["", "zero", "-0", "+0", "0.0", " 0", "1", "18446744073709551616"] {
        assert_eq!(manager.request_set_headers(bad, "{}").unwrap_err(), Error::UnknownHandle);
        assert_eq!(manager.request_set_body(bad, "x").unwrap_err(), Error::UnknownHandle);
        assert_eq!(manager.request_launch(bad).unwrap_err(), Error::UnknownHandle);
        assert_eq!(manager.request_phase(bad), None);
        assert!(manager.request_entry(bad).is_none());
    }
    assert_eq!(manager.request_phase("0"), Some(Phase::UnderConstruction));
    assert_eq!(manager.request_phase("00"), Some(Phase::UnderConstruction));
}

#[test]
fn set_headers_reports_each_decoding_error() {
    let mut manager = running();
    let handle = manager.request_init("http://localhost/", "get");
    assert_eq!(
        manager.request_set_headers(&handle, "[\"a\"]").unwrap_err(),
        Error::MalformedInput
    );
    assert_eq!(
        manager.request_set_headers(&handle, r#"{"a\nb":"c"}"#).unwrap_err(),
        Error::InvalidHeaderName
    );
    assert_eq!(
        manager.request_set_headers(&handle, r#"{"a":"b\u0001"}"#).unwrap_err(),
        Error::InvalidHeaderValue
    );
    let launch = manager.request_launch(&handle).unwrap();
    assert!(launch.request.headers.is_empty());
}

#[test]
fn launch_while_stopped_fails() {
    let mut manager = HttpManager::new();
    let handle = manager.request_init("http://localhost/", "get");
    assert_eq!(manager.request_launch(&handle).unwrap_err(), Error::RuntimeNotStarted);
    assert_eq!(manager.request_phase(&handle), Some(Phase::UnderConstruction));
    // The runtime is looked at before the handle.
    assert_eq!(manager.request_launch("7").unwrap_err(), Error::RuntimeNotStarted);
    manager.http_startup(true);
    assert!(manager.request_launch(&handle).is_ok());
}

#[test]
fn launch_twice_fails_with_unknown_handle() {
    let mut manager = running();
    let handle = manager.request_init("http://localhost/", "get");
    assert!(manager.request_launch(&handle).is_ok());
    assert_eq!(manager.request_launch(&handle).unwrap_err(), Error::UnknownHandle);
    manager.record_outcome(0, Outcome::Failure("refused".to_string()));
    assert_eq!(manager.request_launch(&handle).unwrap_err(), Error::UnknownHandle);
}

#[test]
fn launch_of_unknown_handle_fails() {
    let mut manager = running();
    assert_eq!(manager.request_launch("0").unwrap_err(), Error::UnknownHandle);
    manager.request_init("http://localhost/", "get");
    assert_eq!(manager.request_launch("1").unwrap_err(), Error::UnknownHandle);
}

#[test]
fn late_changes_do_not_alter_request_or_outcome() {
    let mut manager = running();
    let handle = manager.request_init("http://localhost/", "post");
    manager.request_set_body(&handle, "as launched").unwrap();
    let launch = manager.request_launch(&handle).unwrap();
    assert_eq!(manager.request_set_headers(&handle, r#"{"x-late":"1"}"#), Ok(()));
    assert_eq!(manager.request_set_body(&handle, "changed"), Ok(()));
    assert_eq!(launch.request.body, Some(b"as launched".to_vec()));
    assert!(launch.request.headers.is_empty());
    assert_eq!(manager.request_phase(&handle), Some(Phase::AwaitingResponse));
    manager.record_outcome(launch.handle, response(200, "served"));
    assert_eq!(manager.request_set_headers(&handle, r#"{"x-late":"2"}"#), Ok(()));
    assert_eq!(manager.request_set_body(&handle, "changed again"), Ok(()));
    assert_eq!(manager.request_phase(&handle), Some(Phase::Concluded));
    assert_eq!(body_of(&manager, &handle), "served");
}

#[test]
fn unresolvable_host_concludes_with_transport_error() {
    let mut manager = running();
    let handle = manager.request_init("https://example.invalid", "get");
    assert_eq!(handle, "0");
    let launch = manager.request_launch("0").unwrap();
    assert_eq!(launch.request.url, "https://example.invalid");
    assert_eq!(launch.request.method, Method::Get);
    assert_eq!(manager.request_phase("0"), Some(Phase::AwaitingResponse));
    // The transport reports that the host does not resolve.
    manager.record_outcome(
        launch.handle,
        Outcome::Failure("dns error: failed to lookup address information".to_string()),
    );
    assert_eq!(manager.request_phase("0"), Some(Phase::Concluded));
    let entry = manager.request_entry("0").unwrap();
    match entry.outcome().unwrap().as_result() {
        Ok(_) => panic!("no response can come from a host that does not resolve"),
        Err((kind, description)) => {
            assert_eq!(kind, Error::TransportError);
            assert_eq!(description, "dns error: failed to lookup address information");
        }
    }
}

#[test]
fn two_launches_conclude_in_submission_order() {
    let mut manager = running();
    assert_eq!(manager.request_init("http://localhost/first", "get"), "0");
    assert_eq!(manager.request_init("http://localhost/second", "get"), "1");
    let first = manager.request_launch("0").unwrap();
    let second = manager.request_launch("1").unwrap();
    manager.record_outcome(first.handle, response(200, "first"));
    assert_eq!(manager.request_phase("0"), Some(Phase::Concluded));
    assert_eq!(manager.request_phase("1"), Some(Phase::AwaitingResponse));
    manager.record_outcome(second.handle, response(200, "second"));
    assert_eq!(body_of(&manager, "0"), "first");
    assert_eq!(body_of(&manager, "1"), "second");
}

#[test]
fn two_launches_conclude_in_reverse_order() {
    let mut manager = running();
    assert_eq!(manager.request_init("http://localhost/first", "get"), "0");
    assert_eq!(manager.request_init("http://localhost/second", "get"), "1");
    let first = manager.request_launch("0").unwrap();
    let second = manager.request_launch("1").unwrap();
    manager.record_outcome(second.handle, response(200, "second"));
    assert_eq!(manager.request_phase("0"), Some(Phase::AwaitingResponse));
    assert_eq!(manager.request_phase("1"), Some(Phase::Concluded));
    manager.record_outcome(first.handle, response(200, "first"));
    assert_eq!(body_of(&manager, "0"), "first");
    assert_eq!(body_of(&manager, "1"), "second");
}

#[test]
fn many_completions_in_scrambled_order_keep_every_entry_intact() {
    let mut manager = running();
    let count: u64 = 64;
    for i in 0..count {
        let handle = manager.request_init(&format!("http://localhost/{i}"), "get");
        assert_eq!(handle, i.to_string());
        manager.request_launch(&handle).unwrap();
    }
    // 37 is coprime to 64, so this visits every handle once, out of order.
    for step in 0..count {
        let handle = (step * 37 + 11) % count;
        if handle % 3 == 0 {
            manager.record_outcome(handle, Outcome::Failure(format!("failed {handle}")));
        } else {
            manager.record_outcome(handle, response(200, &format!("body {handle}")));
        }
        // A second report for the same handle changes nothing.
        manager.record_outcome(handle, Outcome::Failure("duplicate".to_string()));
    }
    for handle in 0..count {
        let text = handle.to_string();
        assert_eq!(manager.request_phase(&text), Some(Phase::Concluded));
        let entry = manager.request_entry(&text).unwrap();
        assert_eq!(entry.handle(), handle);
        match entry.outcome().unwrap() {
            Outcome::Failure(description) => {
                assert_eq!(handle % 3, 0);
                assert_eq!(description, &format!("failed {handle}"));
            }
            Outcome::Success(response) => {
                assert_ne!(handle % 3, 0);
                assert_eq!(response.body(), format!("body {handle}"));
            }
        }
    }
}
