use twapi_v2::api::{classify, interpret, HttpResponse};
use twapi_v2::error::Error;
use twapi_v2::json::Json;
use twapi_v2::rate_limit::RateLimit;

fn response(status: u16, headers: &[(&str, &str)], body: &str) -> HttpResponse {
    HttpResponse {
        status,
        headers: headers.iter().map(|(k, v)| (k.to_string(), v.to_string())).collect(),
        body: body.to_string(),
    }
}

const QUOTA: [(&str, &str); 3] = [
    ("x-rate-limit-limit", "15"),
    ("x-rate-limit-remaining", "14"),
    ("x-rate-limit-reset", "1699999999"),
];

fn text(json: &Json) -> String {
    match json {
        Json::Text(t) => t.clone(),
        other => panic!("no text: {:?}", other),
    }
}

#[test]
fn success_with_data_and_errors_returns_both() {
    let body = r#"{"data": {"id": "1", "text": "hi"}, "errors": [{"title": "Not Found Error"}]}"#;
    let (json, quota) = interpret(response(200, &QUOTA, body)).unwrap();
    assert_eq!(quota, Some(RateLimit { limit: 15, remaining: 14, reset: 1699999999 }));
    let data = json.member("data").unwrap();
    assert_eq!(text(data.member("id").unwrap()), "1");
    assert_eq!(text(data.member("text").unwrap()), "hi");
    let errors = json.member("errors").unwrap().items().unwrap();
    assert_eq!(errors.len(), 1);
    assert_eq!(text(errors[0].member("title").unwrap()), "Not Found Error");
}

#[test]
fn too_many_requests_without_data_is_an_api_error() {
    let body = r#"{"errors":[{"title":"Too Many Requests"}]}"#;
    match interpret(response(429, &QUOTA, body)) {
        Err(Error::Api { status, errors, rate_limit }) => {
            assert_eq!(status, 429);
            assert_eq!(errors.len(), 1);
            assert_eq!(text(errors[0].member("title").unwrap()), "Too Many Requests");
            assert_eq!(rate_limit, Some(RateLimit { limit: 15, remaining: 14, reset: 1699999999 }));
        }
        other => panic!("{:?}", other),
    }
}

#[test]
fn body_that_is_no_json_is_a_decode_error() {
    let body = "<html><body>Service Unavailable</body></html>";
    match interpret(response(503, &[], body)) {
        Err(Error::Decode(raw)) => assert_eq!(raw, body),
        other => panic!("{:?}", other),
    }
    match interpret(response(200, &QUOTA, "")) {
        Err(Error::Decode(raw)) => assert_eq!(raw, ""),
        other => panic!("{:?}", other),
    }
}

#[test]
fn missing_quota_headers_are_no_failure() {
    let (json, quota) = interpret(response(200, &[("content-type", "application/json")], r#"{"data": []}"#)).unwrap();
    assert_eq!(quota, None);
    assert_eq!(json.member("data").unwrap().items().unwrap().len(), 0);
}

#[test]
fn success_with_errors_only_is_still_a_success() {
    let body = r#"{"errors":[{"title":"Not Found Error"}]}"#;
    let (json, _) = interpret(response(200, &[], body)).unwrap();
    assert_eq!(json.member("errors").unwrap().items().unwrap().len(), 1);
    assert!(json.member("data").is_none());
}

#[test]
fn failure_status_with_data_is_returned_as_decoded() {
    let body = r#"{"data": {"id": "1"}, "errors":[{"title":"Partial"}]}"#;
    let (json, _) = interpret(response(500, &[], body)).unwrap();
    assert!(json.member("data").is_some());
}

#[test]
fn failure_status_without_error_entries_is_returned_as_decoded() {
    for body in [r#"{}"#, r#"{"errors": []}"#, r#"{"errors": "none"}"#, r#"[1, 2]"#, r#"{"title": "Unauthorized"}"#] {
        assert!(interpret(response(401, &[], body)).is_ok(), "{}", body);
    }
}

#[test]
fn null_data_counts_as_no_data() {
    let body = r#"{"data": null, "errors":[{"title":"Forbidden"}, {"title":"Other"}]}"#;
    match interpret(response(403, &[], body)) {
        Err(Error::Api { status, errors, rate_limit }) => {
            assert_eq!(status, 403);
            assert_eq!(errors.len(), 2);
            assert_eq!(rate_limit, None);
        }
        other => panic!("{:?}", other),
    }
}

#[test]
fn failure_statuses_run_from_400_to_599() {
    let body = r#"{"errors":[{"title":"x"}]}"#;
    for status in [400u16, 404, 429, 499, 500, 503, 599] {
        assert!(matches!(interpret(response(status, &[], body)), Err(Error::Api { .. })), "{}", status);
    }
    for status in [100u16, 200, 204, 301, 399, 600, 999] {
        assert!(interpret(response(status, &[], body)).is_ok(), "{}", status);
    }
}

#[test]
fn classify_decides_on_what_decoding_gave() {
    let quota = Some(RateLimit { limit: 1, remaining: 0, reset: 2 });
    match classify(503, "raw".to_string(), None, quota) {
        Err(Error::Decode(raw)) => assert_eq!(raw, "raw"),
        other => panic!("{:?}", other),
    }
    let entry = Json::Object(vec![("title".to_string(), Json::Text("Too Many Requests".to_string()))]);
    let envelope = Json::Object(vec![("errors".to_string(), Json::Array(vec![entry]))]);
    match classify(429, "ignored".to_string(), Some(envelope.clone()), quota) {
        Err(Error::Api { status, errors, rate_limit }) => {
            assert_eq!(status, 429);
            assert_eq!(errors.len(), 1);
            assert_eq!(rate_limit, quota);
        }
        other => panic!("{:?}", other),
    }
    assert!(classify(200, "ignored".to_string(), Some(envelope), None).is_ok());
}

#[test]
fn error_names_its_kind() {
    assert_eq!(Error::transport("dns").to_string(), "transport error");
    assert_eq!(Error::Decode("x".to_string()).to_string(), "decode error");
    assert_eq!(Error::Signing("x".to_string()).to_string(), "signing error");
    let api = Error::Api { status: 404, errors: Vec::new(), rate_limit: None };
    assert_eq!(api.to_string(), "api error");
    assert_eq!(api.status(), Some(404));
    assert_eq!(Error::transport("dns").status(), None);
}
