use twapi_v2::api::Auth;
use twapi_v2::oauth10a::{
    base_string, fresh_nonce, nonce_from, normalized, percent_encode, sign, signing_key, sort_params,
    Credentials,
};
use twapi_v2::request::{Method, PreparedRequest};

const CONSUMER_KEY: &str = "xvz1evFS4wEEPTGEFPHBog";
const CONSUMER_SECRET: &str = "kAcSOqF21Fu85e7zjz7ZN2U4ZRhfV3WpwPAoE3Z7kBw";
const TOKEN: &str = "370773112-GmHxMAgYyLbNEtIKZeRNFsMKPR9EyMZeS9weJAEb";
const TOKEN_SECRET: &str = "LswwdoUaIvS8ltyTt5jkRh4J50vUPVVHtR2YPi5kE";
const NONCE: &str = "kYjzVBB8Y0ZFabxSWbWovY3uYSQ2pTgmZeNu2VS4cg";
const TIMESTAMP: u64 = 1318622958;
const URL: &str = "https://api.twitter.com/1.1/statuses/update.json";

fn pairs(list: &[(&str, &str)]) -> Vec<(String, String)> {
    list.iter().map(|(k, v)| (k.to_string(), v.to_string())).collect()
}

fn query() -> Vec<(String, String)> {
    pairs(&[
        ("include_entities", "true"),
        ("status", "Hello Ladies + Gentlemen, a signed OAuth request!"),
    ])
}

#[test]
fn percent_encode_keeps_unreserved_characters() {
    assert_eq!(
        percent_encode("ABCXYZabcxyz0189-._~"),
        "ABCXYZabcxyz0189-._~"
    );
    assert_eq!(percent_encode(""), "");
}

#[test]
fn percent_encode_escapes_everything_else() {
    assert_eq!(percent_encode("Ladies + Gentlemen"), "Ladies%20%2B%20Gentlemen");
    assert_eq!(percent_encode("An encoded string!"), "An%20encoded%20string%21");
    assert_eq!(percent_encode("Dogs, Cats & Mice"), "Dogs%2C%20Cats%20%26%20Mice");
    assert_eq!(percent_encode("☃"), "%E2%98%83");
    assert_eq!(percent_encode("東京"), "%E6%9D%B1%E4%BA%AC");
    assert_eq!(percent_encode("a/b?c=d&e"), "a%2Fb%3Fc%3Dd%26e");
    assert_eq!(percent_encode("%"), "%25");
    assert_eq!(percent_encode("*'()"), "%2A%27%28%29");
    assert_eq!(percent_encode("\u{0}\u{7f}"), "%00%7F");
}

#[test]
fn sort_params_orders_by_key_then_value() {
    let sorted = sort_params(pairs(&[("b", "2"), ("a", "2"), ("b", "1"), ("a", "10"), ("B", "0"), ("", "z")]));
    assert_eq!(
        sorted,
        pairs(&[("", "z"), ("B", "0"), ("a", "10"), ("a", "2"), ("b", "1"), ("b", "2")])
    );
    assert_eq!(sort_params(Vec::new()), Vec::<(String, String)>::new());
}

#[test]
fn sort_params_agrees_with_std() {
    let input = pairs(&[
        ("status", "x"),
        ("oauth_token", "t"),
        ("include_entities", "true"),
        ("oauth_nonce", "n"),
        ("a", "b"),
        ("a", "a"),
        ("a", "b"),
        ("oauth_version", "1.0"),
    ]);
    let mut expected = input.clone();
    expected.sort();
    assert_eq!(sort_params(input), expected);
}

#[test]
fn normalized_encodes_then_sorts_then_joins() {
    assert_eq!(normalized(&pairs(&[("b", "x y"), ("a", "1")])), "a=1&b=x%20y");
    assert_eq!(normalized(&Vec::new()), "");
    // `+` is written `%2B`, which sorts before `-`: the order is that of the encoded keys.
    assert_eq!(normalized(&pairs(&[("a-", "1"), ("a+", "2")])), "a%2B=2&a-=1");
}

#[test]
fn base_string_of_the_reference_request() {
    let credentials = Credentials::new(CONSUMER_KEY, CONSUMER_SECRET, TOKEN, TOKEN_SECRET);
    let mut all = query();
    all.extend(credentials.protocol(NONCE, TIMESTAMP));
    assert_eq!(
        base_string(Method::Post, URL, &all),
        "POST&https%3A%2F%2Fapi.twitter.com%2F1.1%2Fstatuses%2Fupdate.json&include_entities%3Dtrue%26\
         oauth_consumer_key%3Dxvz1evFS4wEEPTGEFPHBog%26oauth_nonce%3DkYjzVBB8Y0ZFabxSWbWovY3uYSQ2pTgmZeNu2VS4cg%26\
         oauth_signature_method%3DHMAC-SHA1%26oauth_timestamp%3D1318622958%26\
         oauth_token%3D370773112-GmHxMAgYyLbNEtIKZeRNFsMKPR9EyMZeS9weJAEb%26oauth_version%3D1.0%26\
         status%3DHello%2520Ladies%2520%252B%2520Gentlemen%252C%2520a%2520signed%2520OAuth%2520request%2521"
    );
}

#[test]
fn signing_key_joins_the_encoded_secrets() {
    assert_eq!(
        signing_key(CONSUMER_SECRET, TOKEN_SECRET),
        "kAcSOqF21Fu85e7zjz7ZN2U4ZRhfV3WpwPAoE3Z7kBw&LswwdoUaIvS8ltyTt5jkRh4J50vUPVVHtR2YPi5kE"
    );
    assert_eq!(signing_key("c s", "t/s"), "c%20s&t%2Fs");
    assert_eq!(signing_key("only", ""), "only&");
}

#[test]
fn sign_is_hmac_sha1_in_base64() {
    assert_eq!(
        sign("key", "The quick brown fox jumps over the lazy dog"),
        Some("3nybhbi3iqa8ino29wqQcBydtNk=".to_string())
    );
}

#[test]
fn signature_matches_the_reference_value() {
    let credentials = Credentials::new(CONSUMER_KEY, CONSUMER_SECRET, TOKEN, TOKEN_SECRET);
    assert_eq!(
        credentials.signature(NONCE, TIMESTAMP, Method::Post, URL, &query()),
        Some("hCtSmYh+iHYCEqBWrE7C7hYmtUk=".to_string())
    );
}

#[test]
fn authorization_header_matches_the_reference_value() {
    let expected = "OAuth oauth_consumer_key=\"xvz1evFS4wEEPTGEFPHBog\", \
         oauth_nonce=\"kYjzVBB8Y0ZFabxSWbWovY3uYSQ2pTgmZeNu2VS4cg\", \
         oauth_signature=\"hCtSmYh%2BiHYCEqBWrE7C7hYmtUk%3D\", \
         oauth_signature_method=\"HMAC-SHA1\", oauth_timestamp=\"1318622958\", \
         oauth_token=\"370773112-GmHxMAgYyLbNEtIKZeRNFsMKPR9EyMZeS9weJAEb\", oauth_version=\"1.0\"";
    let credentials = Credentials::new(CONSUMER_KEY, CONSUMER_SECRET, TOKEN, TOKEN_SECRET);
    assert_eq!(
        credentials.authorization(NONCE, TIMESTAMP, Method::Post, URL, &query()),
        Some(expected.to_string())
    );
    assert_eq!(credentials.header(NONCE, TIMESTAMP, "hCtSmYh+iHYCEqBWrE7C7hYmtUk="), expected);

    let draft = PreparedRequest {
        method: Method::Post,
        url: URL.to_string(),
        query: query(),
        headers: vec![("Accept".to_string(), "*/*".to_string())],
        body: None,
    };
    let auth = Auth::signed(CONSUMER_KEY, CONSUMER_SECRET, TOKEN, TOKEN_SECRET);
    let signed = auth.authorize_with(draft, NONCE, TIMESTAMP).unwrap();
    assert_eq!(signed.method, Method::Post);
    assert_eq!(signed.url, URL);
    assert_eq!(signed.query, query());
    assert_eq!(signed.body, None);
    assert_eq!(
        signed.headers,
        vec![
            ("Accept".to_string(), "*/*".to_string()),
            ("Authorization".to_string(), expected.to_string()),
        ]
    );
}

#[test]
fn signature_depends_on_every_part() {
    let credentials = Credentials::new(CONSUMER_KEY, CONSUMER_SECRET, TOKEN, TOKEN_SECRET);
    let reference = credentials.signature(NONCE, TIMESTAMP, Method::Post, URL, &query());
    assert_ne!(credentials.signature("other", TIMESTAMP, Method::Post, URL, &query()), reference);
    assert_ne!(credentials.signature(NONCE, TIMESTAMP + 1, Method::Post, URL, &query()), reference);
    assert_ne!(credentials.signature(NONCE, TIMESTAMP, Method::Get, URL, &query()), reference);
    assert_ne!(credentials.signature(NONCE, TIMESTAMP, Method::Post, "https://x", &query()), reference);
    assert_ne!(credentials.signature(NONCE, TIMESTAMP, Method::Post, URL, &Vec::new()), reference);
    let other = Credentials::new(CONSUMER_KEY, "secret", TOKEN, TOKEN_SECRET);
    assert_ne!(other.signature(NONCE, TIMESTAMP, Method::Post, URL, &query()), reference);
    // The order in which the caller lists the parameters does not show.
    let mut turned = query();
    turned.reverse();
    assert_eq!(credentials.signature(NONCE, TIMESTAMP, Method::Post, URL, &turned), reference);
}

#[test]
fn bearer_authorization_ignores_nonce_and_time() {
    let draft = || PreparedRequest {
        method: Method::Get,
        url: "https://api.twitter.com/2/tweets".to_string(),
        query: Vec::new(),
        headers: Vec::new(),
        body: Some("{}".to_string()),
    };
    let auth = Auth::bearer("AAAA");
    let expected = vec![("Authorization".to_string(), "Bearer AAAA".to_string())];
    let a = auth.authorize_with(draft(), "n1", 1).unwrap();
    let b = auth.authorize_with(draft(), "n2", 2).unwrap();
    let c = auth.authorize(draft()).unwrap();
    assert_eq!(a.headers, expected);
    assert_eq!(b.headers, expected);
    assert_eq!(c.headers, expected);
    assert_eq!(c.body, Some("{}".to_string()));
}

#[test]
fn nonce_is_made_of_letters_and_digits() {
    assert_eq!(nonce_from(&vec![0, 25, 26, 51, 52, 61, 62, 255]), "AZaz09AH");
    assert_eq!(nonce_from(&Vec::new()), "");
    let fresh = fresh_nonce().unwrap();
    assert_eq!(fresh.len(), 32);
    assert!(fresh.chars().all(|c| c.is_ascii_alphanumeric()));
    assert_ne!(fresh_nonce().unwrap(), fresh);
}
