use twapi_v2::api::get_2_users_id_blocking::Response;
use twapi_v2::api::HttpResponse;
use twapi_v2::error::Error;
use twapi_v2::json::Json;
use twapi_v2::rate_limit::RateLimit;
use twapi_v2::responses::annotations::Annotations;
use twapi_v2::responses::errors::Errors;
use twapi_v2::responses::includes::Includes;
use twapi_v2::responses::meta::Meta;
use twapi_v2::responses::places::Places;
use twapi_v2::responses::tweets::Tweets;
use twapi_v2::responses::users::Users;
use twapi_v2::responses::withheld::{Scope, Withheld};

fn parse(text: &str) -> Json {
    Json::parse(text).expect("the text is JSON")
}

fn show(json: &Json) -> String {
    format!("{:?}", json)
}

fn keys(extra: &Vec<(String, Json)>) -> Vec<&str> {
    extra.iter().map(|(k, _)| k.as_str()).collect()
}

#[test]
fn unknown_member_is_kept_in_extra() {
    let source = parse(r#"{"start": 3, "end": 9, "type": "Place", "confidence": {"level": [1, "high"]}}"#);
    let annotations = Annotations::from_json(&source).unwrap();
    assert_eq!(annotations.start, Some(3));
    assert_eq!(annotations.end, Some(9));
    assert_eq!(annotations.type_.as_deref(), Some("Place"));
    assert_eq!(annotations.probability, None);
    assert_eq!(annotations.normalized_text, None);
    assert_eq!(annotations.extra.len(), 1);
    assert_eq!(annotations.extra[0].0, "confidence");
    assert_eq!(show(&annotations.extra[0].1), show(&parse(r#"{"level": [1, "high"]}"#)));
    assert_eq!(annotations.is_empty_extra(), false);
}

#[test]
fn unknown_member_is_written_again_unchanged() {
    let source = parse(r#"{"confidence": {"level": [1, "high"]}, "end": 9, "start": 3, "type": "Place"}"#);
    let annotations = Annotations::from_json(&source).unwrap();
    let written = annotations.to_json();
    assert_eq!(
        show(&written),
        show(&Json::Object(vec![
            ("start".to_string(), Json::Number("3".to_string())),
            ("end".to_string(), Json::Number("9".to_string())),
            ("type".to_string(), Json::Text("Place".to_string())),
            ("confidence".to_string(), parse(r#"{"level": [1, "high"]}"#)),
        ]))
    );
    let again = Annotations::from_json(&written).unwrap();
    assert_eq!(show(&again.to_json()), show(&written));
    assert_eq!(format!("{:?}", again), format!("{:?}", annotations));
}

#[test]
fn annotations_round_trip() {
    let value = Annotations {
        start: Some(-5),
        end: Some(i64::MAX),
        probability: Some("0.9631".to_string()),
        type_: Some("Person".to_string()),
        normalized_text: Some("東京".to_string()),
        extra: vec![("later".to_string(), Json::Array(vec![Json::Null, Json::Bool(false)]))],
    };
    let back = Annotations::from_json(&value.to_json()).unwrap();
    assert_eq!(format!("{:?}", back), format!("{:?}", value));
    let empty = Annotations::default();
    assert_eq!(show(&empty.to_json()), show(&Json::Object(Vec::new())));
    assert_eq!(format!("{:?}", Annotations::from_json(&empty.to_json()).unwrap()), format!("{:?}", empty));
}

#[test]
fn annotations_refuse_members_of_another_kind() {
    for bad in [
        r#"{"start": "3"}"#,
        r#"{"start": 3.5}"#,
        r#"{"start": 9223372036854775808}"#,
        r#"{"type": 1}"#,
        r#"{"probability": "high"}"#,
        r#"{"normalized_text": ["a"]}"#,
        r#"[]"#,
        r#""text""#,
        r#"null"#,
    ] {
        assert!(Annotations::from_json(&parse(bad)).is_none(), "{}", bad);
    }
    for good in [r#"{}"#, r#"{"start": null}"#, r#"{"probability": 1}"#, r#"{"start": -9223372036854775808}"#] {
        assert!(Annotations::from_json(&parse(good)).is_some(), "{}", good);
    }
}

#[test]
fn places_need_their_name_and_id() {
    let place = Places::from_json(&parse(
        r#"{"id": "01a9a39529b27f36", "full_name": "Manhattan, NY", "country_code": 1,
            "contained_within": ["a", "b"], "geo": {"type": "Feature", "bbox": [0.5, 1]}}"#,
    ))
    .unwrap();
    assert_eq!(place.id, "01a9a39529b27f36");
    assert_eq!(place.full_name, "Manhattan, NY");
    assert_eq!(place.country_code, Some(1));
    assert_eq!(place.contained_within, Some(vec!["a".to_string(), "b".to_string()]));
    assert_eq!(show(place.geo.as_ref().unwrap()), show(&parse(r#"{"type": "Feature", "bbox": [0.5, 1]}"#)));
    assert!(place.extra.is_empty());
    assert!(Places::from_json(&parse(r#"{"id": "1"}"#)).is_none());
    assert!(Places::from_json(&parse(r#"{"full_name": "x"}"#)).is_none());
    assert!(Places::from_json(&parse(r#"{"id": null, "full_name": "x"}"#)).is_none());
    assert!(Places::from_json(&parse(r#"{"id": "1", "full_name": "x", "contained_within": ["a", 1]}"#)).is_none());
    // A value that is not there is written as `null`, and read back as not there.
    let written = place.to_json();
    assert!(written.member("country").unwrap().is_null());
    assert_eq!(format!("{:?}", Places::from_json(&written).unwrap()), format!("{:?}", place));
}

#[test]
fn tweets_round_trip() {
    let source = parse(
        r#"{"id": "1", "text": "hello", "edit_history_tweet_ids": ["1"], "lang": "en",
            "possibly_sensitive": false, "created_at": "2023-11-14T22:13:19.000Z",
            "public_metrics": {"like_count": 3}, "article": {"title": "t"}, "note_tweet": null}"#,
    );
    let tweet = Tweets::from_json(&source).unwrap();
    assert_eq!(tweet.id, "1");
    assert_eq!(tweet.text, "hello");
    assert_eq!(tweet.edit_history_tweet_ids, vec!["1".to_string()]);
    assert_eq!(tweet.lang.as_deref(), Some("en"));
    assert_eq!(tweet.possibly_sensitive, Some(false));
    assert_eq!(tweet.created_at.as_deref(), Some("2023-11-14T22:13:19.000Z"));
    assert_eq!(keys(&tweet.extra), vec!["article", "note_tweet"]);
    let back = Tweets::from_json(&tweet.to_json()).unwrap();
    assert_eq!(format!("{:?}", back), format!("{:?}", tweet));
    assert!(Tweets::from_json(&parse(r#"{"id": "1", "text": "hello"}"#)).is_none());
}

#[test]
fn created_at_must_be_a_timestamp() {
    let tweet = |created_at: &str| {
        Tweets::from_json(&parse(&format!(
            r#"{{"id": "1", "text": "t", "edit_history_tweet_ids": ["1"], "created_at": {}}}"#,
            created_at
        )))
    };
    assert!(tweet(r#""2023-11-14T22:13:19.000Z""#).is_some());
    assert!(tweet(r#""2023-11-14 22:13:19+00:00""#).is_some());
    assert!(tweet("null").is_some());
    assert!(tweet(r#""yesterday""#).is_none());
    assert!(tweet(r#""2023-02-30T00:00:00Z""#).is_none());
    assert!(tweet(r#""""#).is_none());
    assert!(tweet("1699999999").is_none());
    let user = |created_at: &str| {
        Users::from_json(&parse(&format!(
            r#"{{"id": "1", "name": "n", "username": "u", "created_at": "{}"}}"#,
            created_at
        )))
    };
    assert_eq!(user("2013-12-14T04:35:55Z").unwrap().created_at.as_deref(), Some("2013-12-14T04:35:55Z"));
    assert!(user("2013-12-14").is_none());
}

#[test]
fn withheld_reads_its_scope() {
    let withheld = Withheld::from_json(&parse(r#"{"copyright": true, "country_codes": ["DE"], "scope": "User"}"#)).unwrap();
    assert_eq!(withheld.copyright, Some(true));
    assert_eq!(withheld.country_codes, Some(vec!["DE".to_string()]));
    assert_eq!(withheld.scope, Some(Scope::User));
    assert_eq!(
        Withheld::from_json(&parse(r#"{"scope": "Tweet"}"#)).unwrap().scope,
        Some(Scope::Tweet)
    );
    assert!(Withheld::from_json(&parse(r#"{"scope": "user"}"#)).is_none());
    assert!(Withheld::from_json(&parse(r#"{"scope": 1}"#)).is_none());
    let back = Withheld::from_json(&withheld.to_json()).unwrap();
    assert_eq!(format!("{:?}", back), format!("{:?}", withheld));
}

#[test]
fn response_reads_data_errors_includes_and_meta() {
    let source = parse(
        r#"{"data": [{"id": "1", "name": "One", "username": "one", "verified": true,
                      "withheld": {"scope": "User", "why": "x"}},
                     {"id": "2", "name": "Two", "username": "two"}],
            "errors": [{"title": "Not Found Error", "type": "about:blank", "value": 7, "section": "data"}],
            "includes": {"users": [{"id": "3", "name": "Three", "username": "three"}],
                         "tweets": [{"id": "9", "text": "t", "edit_history_tweet_ids": ["9"]}]},
            "meta": {"result_count": 2, "next_token": "abc"}}"#,
    );
    let response = Response::from_json(&source).unwrap();
    let data = response.data.as_ref().unwrap();
    assert_eq!(data.len(), 2);
    assert_eq!(data[0].username, "one");
    assert_eq!(data[0].verified, Some(true));
    assert_eq!(data[0].withheld.as_ref().unwrap().scope, Some(Scope::User));
    assert_eq!(keys(&data[0].withheld.as_ref().unwrap().extra), vec!["why"]);
    assert_eq!(data[1].id, "2");
    let errors = response.errors.as_ref().unwrap();
    assert_eq!(errors[0].title.as_deref(), Some("Not Found Error"));
    assert_eq!(errors[0].type_.as_deref(), Some("about:blank"));
    assert_eq!(keys(&errors[0].extra), vec!["section"]);
    let includes = response.includes.as_ref().unwrap();
    assert_eq!(includes.users.as_ref().unwrap()[0].name, "Three");
    assert_eq!(includes.tweets.as_ref().unwrap()[0].text, "t");
    assert!(includes.places.is_none());
    assert_eq!(response.meta.as_ref().unwrap().result_count, Some(2));
    assert_eq!(response.meta.as_ref().unwrap().next_token.as_deref(), Some("abc"));
    assert!(response.extra.is_empty());
    // The unknown member of the error entry is found, that of `withheld` is not looked for.
    assert_eq!(response.is_empty_extra(), false);

    let back = Response::from_json(&response.to_json()).unwrap();
    assert_eq!(format!("{:?}", back), format!("{:?}", response));
}

#[test]
fn response_without_unknown_members_says_so() {
    let source = parse(
        r#"{"data": [{"id": "1", "name": "One", "username": "one"}],
            "includes": {"users": [{"id": "3", "name": "Three", "username": "three"}]},
            "meta": {"result_count": 1}}"#,
    );
    assert_eq!(Response::from_json(&source).unwrap().is_empty_extra(), true);
    let more = parse(r#"{"data": [{"id": "1", "name": "One", "username": "one", "most_recent_tweet_id": "5"}]}"#);
    assert_eq!(Response::from_json(&more).unwrap().is_empty_extra(), false);
    let top = parse(r#"{"data": [], "request_id": "5"}"#);
    let response = Response::from_json(&top).unwrap();
    assert_eq!(keys(&response.extra), vec!["request_id"]);
    assert_eq!(response.is_empty_extra(), false);
}

#[test]
fn response_refuses_what_does_not_fit() {
    for bad in [
        r#"{"data": {"id": "1"}}"#,
        r#"{"data": [{"id": "1"}]}"#,
        r#"{"data": [1]}"#,
        r#"{"errors": {}}"#,
        r#"{"meta": []}"#,
        r#"{"meta": {"result_count": "2"}}"#,
        r#"{"includes": {"users": {}}}"#,
        r#"[]"#,
    ] {
        assert!(Response::from_json(&parse(bad)).is_none(), "{}", bad);
    }
    assert!(Response::from_json(&parse(r#"{}"#)).is_some());
    assert!(Response::from_json(&parse(r#"{"data": null, "errors": null}"#)).is_some());
}

#[test]
fn typed_objects_are_written_member_by_member() {
    let meta = Meta { result_count: Some(2), next_token: None, previous_token: Some("p".to_string()), extra: Vec::new() };
    assert_eq!(
        show(&meta.to_json()),
        show(&Json::Object(vec![
            ("result_count".to_string(), Json::Number("2".to_string())),
            ("previous_token".to_string(), Json::Text("p".to_string())),
        ]))
    );
    let errors = Errors { title: Some("t".to_string()), value: Some(Json::Bool(true)), ..Default::default() };
    assert_eq!(
        show(&errors.to_json()),
        show(&Json::Object(vec![
            ("title".to_string(), Json::Text("t".to_string())),
            ("value".to_string(), Json::Bool(true)),
        ]))
    );
    let includes = Includes {
        places: Some(vec![Places { id: "1".to_string(), full_name: "x".to_string(), ..Default::default() }]),
        ..Default::default()
    };
    let back = Includes::from_json(&includes.to_json()).unwrap();
    assert_eq!(format!("{:?}", back), format!("{:?}", includes));
    let users = vec![
        Users { id: "1".to_string(), ..Default::default() },
        Users { id: "2".to_string(), protected: Some(true), ..Default::default() },
    ];
    let back = Users::all_from_json(&Users::all_to_json(&users)).unwrap();
    assert_eq!(format!("{:?}", back), format!("{:?}", users));
    assert!(Users::all_from_json(&parse(r#"{"id": "1"}"#)).is_none());
}

fn response(status: u16, body: &str) -> HttpResponse {
    HttpResponse {
        status,
        headers: vec![
            ("x-rate-limit-limit".to_string(), "15".to_string()),
            ("x-rate-limit-remaining".to_string(), "14".to_string()),
            ("x-rate-limit-reset".to_string(), "1699999999".to_string()),
        ],
        body: body.to_string(),
    }
}

#[test]
fn receive_returns_data_and_errors_together() {
    let body = r#"{"data": [{"id": "1", "name": "One", "username": "one"}], "errors": [{"title": "Not Found Error"}]}"#;
    let (value, quota) = Response::receive(response(200, body)).unwrap();
    assert_eq!(value.data.unwrap()[0].id, "1");
    assert_eq!(value.errors.unwrap()[0].title.as_deref(), Some("Not Found Error"));
    assert_eq!(quota, Some(RateLimit { limit: 15, remaining: 14, reset: 1699999999 }));
}

#[test]
fn receive_reports_api_errors_and_bad_bodies() {
    match Response::receive(response(429, r#"{"errors":[{"title":"Too Many Requests"}]}"#)) {
        Err(Error::Api { status, errors, .. }) => {
            assert_eq!(status, 429);
            assert_eq!(errors.len(), 1);
            let entry = Errors::from_json(&errors[0]).unwrap();
            assert_eq!(entry.title.as_deref(), Some("Too Many Requests"));
        }
        other => panic!("{:?}", other),
    }
    match Response::receive(response(503, "<html>Service Unavailable</html>")) {
        Err(Error::Decode(raw)) => assert_eq!(raw, "<html>Service Unavailable</html>"),
        other => panic!("{:?}", other),
    }
    // JSON that stands for no response is a decode error too, and keeps the text.
    match Response::receive(response(200, r#"{"data": {"id": "1"}}"#)) {
        Err(Error::Decode(raw)) => assert_eq!(raw, r#"{"data": {"id": "1"}}"#),
        other => panic!("{:?}", other),
    }
}
