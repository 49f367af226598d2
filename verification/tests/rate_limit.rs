use twapi_v2::rate_limit::{header, RateLimit};

fn headers(list: &[(&str, &str)]) -> Vec<(String, String)> {
    list.iter().map(|(k, v)| (k.to_string(), v.to_string())).collect()
}

#[test]
fn rate_limit_is_read_from_the_three_headers() {
    let found = RateLimit::from_headers(&headers(&[
        ("content-type", "application/json"),
        ("x-rate-limit-limit", "15"),
        ("x-rate-limit-remaining", "14"),
        ("x-rate-limit-reset", "1699999999"),
    ]));
    assert_eq!(found, Some(RateLimit { limit: 15, remaining: 14, reset: 1699999999 }));
}

#[test]
fn rate_limit_ignores_the_case_of_header_names() {
    let found = RateLimit::from_headers(&headers(&[
        ("X-Rate-Limit-Reset", "3"),
        ("X-RATE-LIMIT-LIMIT", "1"),
        ("x-Rate-limit-Remaining", "2"),
    ]));
    assert_eq!(found, Some(RateLimit { limit: 1, remaining: 2, reset: 3 }));
}

#[test]
fn rate_limit_needs_all_three_headers() {
    assert_eq!(RateLimit::from_headers(&Vec::new()), None);
    assert_eq!(
        RateLimit::from_headers(&headers(&[("x-rate-limit-limit", "15"), ("x-rate-limit-remaining", "14")])),
        None
    );
    assert_eq!(
        RateLimit::from_headers(&headers(&[("x-rate-limit-limit", "15"), ("x-rate-limit-reset", "1")])),
        None
    );
    assert_eq!(
        RateLimit::from_headers(&headers(&[("x-rate-limit-remaining", "15"), ("x-rate-limit-reset", "1")])),
        None
    );
}

#[test]
fn rate_limit_needs_numbers() {
    for bad in ["", "abc", "1.5", "-1", "0x10", " 15", "18446744073709551616"] {
        assert_eq!(
            RateLimit::from_headers(&headers(&[
                ("x-rate-limit-limit", "15"),
                ("x-rate-limit-remaining", bad),
                ("x-rate-limit-reset", "1699999999"),
            ])),
            None,
            "{}",
            bad
        );
    }
}

#[test]
fn header_finds_the_first_of_a_name() {
    let list = headers(&[("a", "1"), ("B", "2"), ("b", "3")]);
    assert_eq!(header(&list, "b"), Some(&"2".to_string()));
    assert_eq!(header(&list, "A"), Some(&"1".to_string()));
    assert_eq!(header(&list, "c"), None);
    assert_eq!(header(&list, "ab"), None);
}
