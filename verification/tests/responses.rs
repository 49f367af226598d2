use twapi_v2::api::get_2_users_id_blocking::Response;
use twapi_v2::json::Json;
use twapi_v2::responses::annotations::Annotations;
use twapi_v2::responses::errors::Errors;
use twapi_v2::responses::includes::Includes;
use twapi_v2::responses::meta::Meta;
use twapi_v2::responses::places::Places;
use twapi_v2::responses::tweets::Tweets;
use twapi_v2::responses::users::Users;
use twapi_v2::responses::withheld::{Scope, Withheld};

fn unknown() -> Vec<(String, Json)> {
    vec![("new_member".to_string(), Json::Bool(true))]
}

fn user(id: &str) -> Users {
    Users { id: id.to_string(), name: "N".to_string(), username: "u".to_string(), ..Default::default() }
}

#[test]
fn annotations_tell_whether_they_hold_unknown_members() {
    let known = Annotations { start: Some(0), end: Some(5), type_: Some("Place".to_string()), ..Default::default() };
    assert_eq!(known.is_empty_extra(), true);
    let more = Annotations { extra: unknown(), ..Default::default() };
    assert_eq!(more.is_empty_extra(), false);
    let probability = Annotations { probability: Some(0.5f64.to_string()), ..Default::default() };
    assert_eq!(probability.probability.as_deref(), Some("0.5"));
}

#[test]
fn response_without_unknown_members() {
    let response = Response {
        data: Some(vec![user("1"), user("2")]),
        errors: Some(vec![Errors { title: Some("Not Found Error".to_string()), ..Default::default() }]),
        includes: Some(Includes { users: Some(vec![user("3")]), ..Default::default() }),
        meta: Some(Meta { result_count: Some(2), ..Default::default() }),
        extra: Vec::new(),
    };
    assert_eq!(response.is_empty_extra(), true);
    assert_eq!(Response::default().is_empty_extra(), true);
}

#[test]
fn response_reports_unknown_members_wherever_they_are() {
    let full = || Response {
        data: Some(vec![user("1"), user("2")]),
        errors: Some(vec![Errors::default(), Errors::default()]),
        includes: Some(Includes { users: Some(vec![user("3")]), ..Default::default() }),
        meta: Some(Meta::default()),
        extra: Vec::new(),
    };
    assert_eq!(full().is_empty_extra(), true);

    let mut at_top = full();
    at_top.extra = unknown();
    assert_eq!(at_top.is_empty_extra(), false);

    let mut in_data = full();
    in_data.data.as_mut().unwrap()[1].extra = unknown();
    assert_eq!(in_data.is_empty_extra(), false);

    let mut in_errors = full();
    in_errors.errors.as_mut().unwrap()[0].extra = unknown();
    assert_eq!(in_errors.is_empty_extra(), false);

    let mut in_includes = full();
    in_includes.includes.as_mut().unwrap().extra = unknown();
    assert_eq!(in_includes.is_empty_extra(), false);

    let mut in_included_user = full();
    in_included_user.includes.as_mut().unwrap().users.as_mut().unwrap()[0].extra = unknown();
    assert_eq!(in_included_user.is_empty_extra(), false);

    let mut in_meta = full();
    in_meta.meta.as_mut().unwrap().extra = unknown();
    assert_eq!(in_meta.is_empty_extra(), false);
}

#[test]
fn scope_writes_its_name_in_lower_case() {
    assert_eq!(Scope::Tweet.to_string(), "tweet");
    assert_eq!(Scope::User.to_string(), "user");
    assert_eq!(Scope::default(), Scope::Tweet);
}

#[test]
fn objects_start_empty() {
    let withheld = Withheld::default();
    assert_eq!(withheld.copyright, None);
    assert_eq!(withheld.country_codes, None);
    assert_eq!(withheld.scope, None);
    assert!(withheld.extra.is_empty());
    let place = Places::default();
    assert_eq!(place.full_name, "");
    assert_eq!(place.country_code, None);
    let tweet = Tweets { id: "1".to_string(), text: "hi".to_string(), ..Default::default() };
    assert_eq!(tweet.edit_history_tweet_ids, Vec::<String>::new());
    assert!(tweet.extra.is_empty());
}
