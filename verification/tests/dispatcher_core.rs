use scene_core::dispatcher::{
    assemble_response, build_inspect_response, effective_timeout_ms, transport_failure,
    DispatcherCore, HttpMethod, RequestOption, RequestResponse, RequestResponseError,
    ResponseEnum, ResponseType, TransportBody, DEFAULT_TIMEOUT_MS,
};

fn opt(id: u32, response_type: ResponseType) -> RequestOption {
    RequestOption {
        id,
        url: String::from("http://example.test/x"),
        method: HttpMethod::Get,
        body: None,
        headers: None,
        timeout_ms: None,
        response_type,
    }
}

#[test]
fn smaller_priority_value_is_served_first() {
    // Submitted with priorities [10, 1], in that order; the priority-1 job
    // is dequeued — and so resolved — first under concurrency one. The
    // caller's reply slot travels with its job.
    let mut core: DispatcherCore<&str> = DispatcherCore::new(1, false);
    assert!(core.submit(opt(100, ResponseType::AsBytes), 10, "reply-100").is_none());
    assert!(core.submit(opt(200, ResponseType::AsBytes), 1, "reply-200").is_none());
    assert!(core.try_acquire_permit());
    let first = core.pop_highest_priority().expect("two jobs queued");
    assert_eq!(first.priority, 1);
    assert_eq!(first.request_option.id, 200);
    assert_eq!(first.token, "reply-200");
    core.release_permit();
    assert!(core.try_acquire_permit());
    let second = core.pop_highest_priority().expect("one job left");
    assert_eq!(second.priority, 10);
    assert_eq!(second.request_option.id, 100);
    assert_eq!(second.token, "reply-100");
    assert!(core.pop_highest_priority().is_none());
}

#[test]
fn equal_priorities_keep_submission_order() {
    let mut core: DispatcherCore<()> = DispatcherCore::new(4, false);
    core.submit(opt(1, ResponseType::AsBytes), 5, ());
    core.submit(opt(2, ResponseType::AsBytes), 5, ());
    assert_eq!(core.pop_highest_priority().unwrap().request_option.id, 1);
    assert_eq!(core.pop_highest_priority().unwrap().request_option.id, 2);
}

#[test]
fn permit_pool_bounds_concurrency() {
    let mut core: DispatcherCore<()> = DispatcherCore::new(2, false);
    assert!(core.try_acquire_permit());
    assert!(core.try_acquire_permit());
    assert!(!core.try_acquire_permit());
    core.release_permit();
    assert!(core.try_acquire_permit());
}

#[test]
fn default_timeout_is_sixty_seconds() {
    assert_eq!(effective_timeout_ms(&opt(1, ResponseType::AsBytes)), DEFAULT_TIMEOUT_MS);
    assert_eq!(DEFAULT_TIMEOUT_MS, 60_000);
    let mut with_timeout = opt(1, ResponseType::AsBytes);
    with_timeout.timeout_ms = Some(1500);
    assert_eq!(effective_timeout_ms(&with_timeout), 1500);
}

#[test]
fn inspection_events_only_when_enabled() {
    let mut silent: DispatcherCore<()> = DispatcherCore::new(1, false);
    assert!(silent.submit(opt(1, ResponseType::AsBytes), 1, ()).is_none());
    let mut tapped: DispatcherCore<()> = DispatcherCore::new(1, true);
    let mut described = opt(2, ResponseType::AsBytes);
    described.body = Some(vec![1, 2]);
    described.headers = Some(vec![(String::from("x-k"), String::from("v"))]);
    let ev = tapped.submit(described, 1, ()).expect("tap enabled");
    assert_eq!(ev.id, 0);
    assert_eq!(ev.requester, "global");
    assert_eq!(ev.url, "http://example.test/x");
    assert_eq!(ev.body, Some(vec![1, 2]));
    assert_eq!(ev.headers, Some(vec![(String::from("x-k"), String::from("v"))]));
    let ev2 = tapped.submit(opt(3, ResponseType::AsBytes), 1, ()).expect("tap enabled");
    assert_eq!(ev2.id, 1);
    assert_eq!(ev2.body, None);
    assert_eq!(ev2.headers, None);
}

#[test]
fn headers_are_captured_exactly_for_inspected_jobs() {
    let mut silent: DispatcherCore<()> = DispatcherCore::new(1, false);
    silent.submit(opt(1, ResponseType::AsBytes), 1, ());
    assert!(!silent.pop_highest_priority().unwrap().wants_header_capture());
    let mut tapped: DispatcherCore<()> = DispatcherCore::new(1, true);
    tapped.submit(opt(2, ResponseType::AsBytes), 1, ());
    assert!(tapped.pop_highest_priority().unwrap().wants_header_capture());
}

#[test]
fn stream_to_file_success_value_is_the_path() {
    // A stream-to-file job over a 3-byte body: the body bytes go to the
    // host's writer untouched, and the success value is the destination.
    let body: Vec<u8> = vec![10, 20, 30];
    assert_eq!(body.len(), 3);
    let r = assemble_response(
        opt(7, ResponseType::ToFile(String::from("/tmp/destination.bin"))),
        200,
        None,
        TransportBody::Bytes(body),
        Some(Ok(())),
    );
    let resp = r.expect("a successful write yields a response");
    match resp.response_data {
        ResponseEnum::ToFile(path) => assert_eq!(path, "/tmp/destination.bin"),
        other => panic!("expected a file response, got {:?}", other),
    }
}

#[test]
fn failed_file_write_surfaces_like_transport_failure() {
    let r = assemble_response(
        opt(8, ResponseType::ToFile(String::from("/tmp/destination.bin"))),
        200,
        None,
        TransportBody::Bytes(vec![1]),
        Some(Err(String::from("disk full"))),
    );
    let err = r.expect_err("a failed write must not reference the file as success");
    assert_eq!(err.id, 8);
    assert_eq!(err.error_message, "disk full");
}

#[test]
fn structured_decode_failure_is_a_value_not_a_transport_error() {
    // A 200-status, non-structured body: overall success, embedded decode
    // error.
    let r = assemble_response(
        opt(9, ResponseType::AsJson),
        200,
        None,
        TransportBody::Text(String::from("plainly not structured data")),
        None,
    );
    let resp = r.expect("the request itself succeeded");
    assert_eq!(resp.status_code, 200);
    match resp.response_data {
        ResponseEnum::Json(embedded) => assert!(embedded.is_err()),
        other => panic!("expected a structured-data response, got {:?}", other),
    }
    // An unreachable host, by contrast, is an overall failure carrying the
    // job's identity.
    let failure = transport_failure(9, String::from("connection refused"));
    assert_eq!(failure.id, 9);
    assert_eq!(failure.error_message, "connection refused");
}

#[test]
fn structured_decode_success_embeds_the_value() {
    let r = assemble_response(
        opt(10, ResponseType::AsJson),
        200,
        None,
        TransportBody::Text(String::from("{\"a\": [1, 2, 3]}")),
        None,
    );
    match r.expect("ok").response_data {
        ResponseEnum::Json(embedded) => {
            let value = embedded.expect("the body is valid structured data");
            assert_eq!(value["a"][2], serde_json::Value::from(3));
        },
        other => panic!("expected a structured-data response, got {:?}", other),
    }
}

#[test]
fn text_and_bytes_modes_hand_the_body_back() {
    let r = assemble_response(
        opt(11, ResponseType::AsString),
        204,
        None,
        TransportBody::Text(String::from("hello")),
        None,
    );
    match r.expect("ok").response_data {
        ResponseEnum::String(s) => assert_eq!(s, "hello"),
        other => panic!("expected text, got {:?}", other),
    }
    let r = assemble_response(
        opt(12, ResponseType::AsBytes),
        200,
        Some(vec![(String::from("x-a"), String::from("1"))]),
        TransportBody::Bytes(vec![9, 8]),
        None,
    );
    let resp = r.expect("ok");
    assert_eq!(resp.headers, Some(vec![(String::from("x-a"), String::from("1"))]));
    match resp.response_data {
        ResponseEnum::Bytes(b) => assert_eq!(b, vec![9, 8]),
        other => panic!("expected bytes, got {:?}", other),
    }
}

#[test]
fn inspect_response_previews_text_and_path() {
    let ok: Result<RequestResponse, RequestResponseError> = Ok(RequestResponse {
        request_option: opt(1, ResponseType::AsString),
        status_code: 200,
        headers: None,
        response_data: ResponseEnum::String(String::from("body text")),
    });
    let ev = build_inspect_response(3, &ok);
    assert_eq!(ev.id, 3);
    let (payload, data) = ev.outcome.expect("success event");
    assert_eq!(payload.status_code, 200);
    assert_eq!(data.as_deref(), Some("body text"));

    let err: Result<RequestResponse, RequestResponseError> =
        Err(transport_failure(4, String::from("timed out")));
    let ev = build_inspect_response(4, &err);
    assert_eq!(ev.outcome.expect_err("failure event"), "timed out");
}

#[test]
fn inspect_response_previews_a_decoded_structured_value() {
    let value = serde_json::from_str::<serde_json::Value>("{\"a\": [1, 2]}").expect("valid");
    let ok: Result<RequestResponse, RequestResponseError> = Ok(RequestResponse {
        request_option: opt(1, ResponseType::AsJson),
        status_code: 200,
        headers: None,
        response_data: ResponseEnum::Json(Ok(value)),
    });
    let (_, data) = build_inspect_response(6, &ok).outcome.expect("success event");
    assert_eq!(data.as_deref(), Some("{\"a\":[1,2]}"));
    // A body that failed to decode has no value to preview.
    let bad: Result<RequestResponse, RequestResponseError> = Ok(RequestResponse {
        request_option: opt(1, ResponseType::AsJson),
        status_code: 200,
        headers: None,
        response_data: ResponseEnum::Json(Err(scene_core::dispatcher::JsonDecodeError)),
    });
    let (_, data) = build_inspect_response(7, &bad).outcome.expect("success event");
    assert_eq!(data, None);
}

#[test]
fn inspect_response_preview_is_bounded() {
    let long = "x".repeat(20_000);
    let ok: Result<RequestResponse, RequestResponseError> = Ok(RequestResponse {
        request_option: opt(1, ResponseType::AsString),
        status_code: 200,
        headers: None,
        response_data: ResponseEnum::String(long),
    });
    let (_, data) = build_inspect_response(5, &ok).outcome.expect("success event");
    assert_eq!(data.expect("a text body has a preview").len(), 10_240);
}
