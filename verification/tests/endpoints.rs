use twapi_v2::api::get_2_tweets_search_recent::{Api as RecentApi, Expantions};
use twapi_v2::api::get_2_tweets_search_stream::{Api as StreamApi, Expansions as StreamExpansions};
use twapi_v2::api::get_2_users_id_blocking::{Api as BlockingApi, Expansions as BlockingExpansions};
use twapi_v2::api::{delete_2_lists_id, Auth};
use twapi_v2::fields::media_fields::MediaFields;
use twapi_v2::fields::place_fields::PlaceFields;
use twapi_v2::fields::poll_fields::PollFields;
use twapi_v2::fields::tweet_fields::TweetFields;
use twapi_v2::fields::user_fields::UserFields;
use twapi_v2::request::{Method, PreparedRequest};
use twapi_v2::time::UtcTime;

fn pairs(list: &[(&str, &str)]) -> Vec<(String, String)> {
    list.iter().map(|(k, v)| (k.to_string(), v.to_string())).collect()
}

fn bearer_header(token: &str) -> Vec<(String, String)> {
    vec![("Authorization".to_string(), format!("Bearer {}", token))]
}

#[test]
fn delete_list_builds_the_request() {
    let request: PreparedRequest = delete_2_lists_id::Api::new("secret", "14914404").build();
    assert_eq!(request.method, Method::Delete);
    assert_eq!(request.url, "https://api.twitter.com/2/lists/14914404");
    assert!(request.query.is_empty());
    assert_eq!(request.headers, bearer_header("secret"));
    assert_eq!(request.body, None);
}

#[test]
fn search_recent_without_options_has_no_parameters() {
    let request = RecentApi::new("1").build("token");
    assert_eq!(request.method, Method::Get);
    assert_eq!(request.url, "https://api.twitter.com/2/tweets/search/recent");
    assert!(request.query.is_empty());
    assert_eq!(request.headers, bearer_header("token"));
    assert_eq!(request.body, None);
}

#[test]
fn search_recent_writes_each_option_chosen() {
    let request = RecentApi::new("1")
        .user_fields(vec![UserFields::Username, UserFields::Id])
        .max_results(25)
        .expansions(vec![Expantions::AuthorId])
        .pagination_token("next")
        .tweet_fields(vec![TweetFields::Text])
        .build("token");
    assert_eq!(
        request.query,
        pairs(&[
            ("max_results", "25"),
            ("pagination_token", "next"),
            ("expansions", "author_id"),
            ("tweet.fields", "text"),
            ("user.fields", "id,username"),
        ])
    );
}

#[test]
fn search_recent_leaves_out_what_was_not_chosen() {
    let request = RecentApi::new("1").max_results(10).tweet_fields(vec![]).build("token");
    assert_eq!(request.query, pairs(&[("max_results", "10"), ("tweet.fields", "")]));
    assert!(!request.query.iter().any(|(k, _)| k == "expansions"));
    assert!(!request.query.iter().any(|(k, _)| k == "pagination_token"));
    assert!(!request.query.iter().any(|(k, _)| k == "user.fields"));
}

#[test]
fn search_recent_keeps_the_last_value_chosen() {
    let request = RecentApi::new("1").max_results(10).max_results(100).build("token");
    assert_eq!(request.query, pairs(&[("max_results", "100")]));
}

#[test]
fn search_stream_writes_each_option_chosen() {
    let start = UtcTime::from_timestamp(0, 0).unwrap();
    let end = UtcTime::from_timestamp(1699999999, 500).unwrap();
    let request = StreamApi::new()
        .backfill_minutes(5)
        .end_time(end)
        .expansions(vec![StreamExpansions::GeoPlaceId, StreamExpansions::AuthorId])
        .media_fields(vec![MediaFields::Url])
        .place_fields(vec![PlaceFields::Country])
        .poll_fields(vec![PollFields::Options, PollFields::Id])
        .start_time(start)
        .tweet_fields(vec![TweetFields::Id])
        .user_fields(vec![UserFields::Name])
        .build("token");
    assert_eq!(request.method, Method::Get);
    assert_eq!(request.url, "https://api.twitter.com/2/tweets/search/stream");
    assert_eq!(
        request.query,
        pairs(&[
            ("backfill_minutes", "5"),
            ("end_time", "2023-11-14T221319Z"),
            ("expansions", "author_id,geo.place_id"),
            ("media.fields", "url"),
            ("place.fields", "country"),
            ("poll.fields", "id,options"),
            ("start_time", "1970-01-01T000000Z"),
            ("tweet.fields", "id"),
            ("user.fields", "name"),
        ])
    );
    assert_eq!(request.headers, bearer_header("token"));
}

#[test]
fn search_stream_names_its_fields_as_the_api_does() {
    let request = StreamApi::new().backfill_minutes(5).tweet_fields(vec![]).build("tok");
    assert_eq!(request.method, Method::Get);
    assert_eq!(request.url, "https://api.twitter.com/2/tweets/search/stream");
    assert_eq!(request.query, pairs(&[("backfill_minutes", "5"), ("tweet.fields", "")]));
    assert!(!request.query.iter().any(|(k, _)| k == "tweet_fields"));
    assert_eq!(request.headers, bearer_header("tok"));
}

#[test]
fn search_stream_without_options_has_no_parameters() {
    let request = StreamApi::new().build("b");
    assert!(request.query.is_empty());
    assert_eq!(request.headers, bearer_header("b"));
}

#[test]
fn blocking_builds_with_a_bearer_token() {
    let auth = Auth::bearer("token");
    let request = BlockingApi::new("42")
        .max_results(10)
        .user_fields(vec![UserFields::Name, UserFields::Id])
        .build(&auth)
        .unwrap();
    assert_eq!(request.method, Method::Get);
    assert_eq!(request.url, "https://api.twitter.com/2/users/42/blocking");
    assert_eq!(request.query, pairs(&[("max_results", "10"), ("user.fields", "id,name")]));
    assert_eq!(request.headers, bearer_header("token"));
    assert_eq!(request.body, None);
}

#[test]
fn blocking_all_asks_for_the_organic_fields() {
    let request = BlockingApi::all("42").build(&Auth::bearer("t")).unwrap();
    assert_eq!(
        request.query,
        pairs(&[
            ("expansions", "pinned_tweet_id"),
            ("max_results", "1000"),
            (
                "tweet.fields",
                "attachments,author_id,context_annotations,conversation_id,created_at,\
                 edit_controls,entities,geo,id,in_reply_to_user_id,lang,non_public_metrics,\
                 public_metrics,organic_metrics,possibly_sensitive,referenced_tweets,\
                 reply_settings,source,text,withheld"
            ),
            (
                "user.fields",
                "created_at,description,entities,id,location,name,pinned_tweet_id,\
                 profile_image_url,protected,public_metrics,url,username,verified,withheld"
            ),
        ])
    );
}

#[test]
fn blocking_open_asks_for_the_public_fields() {
    let request = BlockingApi::open("42").build(&Auth::bearer("t")).unwrap();
    let tweet_fields = &request.query.iter().find(|(k, _)| k == "tweet.fields").unwrap().1;
    assert!(!tweet_fields.contains("non_public_metrics"));
    assert!(!tweet_fields.contains("organic_metrics"));
    assert!(!tweet_fields.contains("promoted_metrics"));
    assert!(tweet_fields.contains("public_metrics"));
    assert_eq!(request.query[1], ("max_results".to_string(), "1000".to_string()));
}

#[test]
fn blocking_setters_replace_the_presets() {
    let request = BlockingApi::all("7")
        .expansions(vec![BlockingExpansions::PinnedTweetId])
        .tweet_fields(vec![TweetFields::Id])
        .user_fields(vec![UserFields::Id])
        .pagination_token("p")
        .max_results(1)
        .build(&Auth::bearer("t"))
        .unwrap();
    assert_eq!(
        request.query,
        pairs(&[
            ("expansions", "pinned_tweet_id"),
            ("max_results", "1"),
            ("pagination_token", "p"),
            ("tweet.fields", "id"),
            ("user.fields", "id"),
        ])
    );
}

#[test]
fn blocking_builds_with_a_signature() {
    let auth = Auth::signed("ck", "c s", "tok", "t/s");
    let request = BlockingApi::new("42")
        .max_results(10)
        .user_fields(vec![UserFields::Name, UserFields::Id])
        .build_with(&auth, "abcdefghijklmnopqrstuvwxyz012345", 1700000000)
        .unwrap();
    assert_eq!(request.url, "https://api.twitter.com/2/users/42/blocking");
    assert_eq!(request.query, pairs(&[("max_results", "10"), ("user.fields", "id,name")]));
    assert_eq!(
        request.headers,
        vec![(
            "Authorization".to_string(),
            "OAuth oauth_consumer_key=\"ck\", oauth_nonce=\"abcdefghijklmnopqrstuvwxyz012345\", \
             oauth_signature=\"hqzk%2FzZ3xvq%2Bcbhn8MTdaBSZasw%3D\", \
             oauth_signature_method=\"HMAC-SHA1\", oauth_timestamp=\"1700000000\", \
             oauth_token=\"tok\", oauth_version=\"1.0\""
                .to_string()
        )]
    );
}

#[test]
fn blocking_signs_with_a_fresh_nonce() {
    let auth = Auth::signed("ck", "cs", "tok", "ts");
    let first = BlockingApi::new("42").build(&auth).unwrap();
    let second = BlockingApi::new("42").build(&auth).unwrap();
    let nonce_of = |request: &PreparedRequest| {
        let value = &request.headers[0].1;
        let from = value.find("oauth_nonce=\"").unwrap() + "oauth_nonce=\"".len();
        value[from..from + 32].to_string()
    };
    assert_eq!(first.headers.len(), 1);
    assert!(first.headers[0].1.starts_with("OAuth oauth_consumer_key=\"ck\", oauth_nonce=\""));
    assert!(nonce_of(&first).chars().all(|c| c.is_ascii_alphanumeric()));
    assert_ne!(nonce_of(&first), nonce_of(&second));
}
