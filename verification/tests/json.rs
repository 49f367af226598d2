use twapi_v2::json::Json;

fn text(json: &Json) -> &str {
    match json {
        Json::Text(t) => t,
        other => panic!("no text: {:?}", other),
    }
}

fn number(json: &Json) -> &str {
    match json {
        Json::Number(n) => n,
        other => panic!("no number: {:?}", other),
    }
}

#[test]
fn parse_reads_every_kind_of_value() {
    assert!(matches!(Json::parse("null"), Some(Json::Null)));
    assert!(Json::parse("null").unwrap().is_null());
    assert!(matches!(Json::parse("true"), Some(Json::Bool(true))));
    assert!(matches!(Json::parse(" false "), Some(Json::Bool(false))));
    assert_eq!(number(&Json::parse("12").unwrap()), "12");
    assert_eq!(number(&Json::parse("-7").unwrap()), "-7");
    assert_eq!(number(&Json::parse("0.5").unwrap()), "0.5");
    assert_eq!(text(&Json::parse(r#""a\"bé""#).unwrap()), "a\"bé");
    let array = Json::parse("[1, \"two\", [3]]").unwrap();
    let items = array.items().unwrap();
    assert_eq!(items.len(), 3);
    assert_eq!(number(&items[0]), "1");
    assert_eq!(text(&items[1]), "two");
    assert_eq!(items[2].items().unwrap().len(), 1);
    assert!(!array.is_null());
}

#[test]
fn parse_refuses_what_is_no_json() {
    for bad in ["", "{", "[1,]", "{\"a\":}", "nul", "<html>", "1 2", "{'a': 1}"] {
        assert!(Json::parse(bad).is_none(), "{}", bad);
    }
}

#[test]
fn member_finds_the_value_under_a_key() {
    let object = Json::parse(r#"{"b": 2, "a": {"c": "deep"}, "": null}"#).unwrap();
    assert_eq!(number(object.member("b").unwrap()), "2");
    assert_eq!(text(object.member("a").unwrap().member("c").unwrap()), "deep");
    assert!(object.member("").unwrap().is_null());
    assert!(object.member("c").is_none());
    assert!(object.member("B").is_none());
    assert!(object.items().is_none());
    assert!(Json::parse("[1]").unwrap().member("0").is_none());
    assert!(Json::parse("\"a\"").unwrap().member("a").is_none());
}

#[test]
fn member_takes_the_first_of_equal_keys() {
    let object = Json::Object(vec![
        ("k".to_string(), Json::Text("first".to_string())),
        ("k".to_string(), Json::Text("second".to_string())),
    ]);
    assert_eq!(text(object.member("k").unwrap()), "first");
}

#[test]
fn clone_copies_the_whole_value() {
    let value = Json::parse(r#"{"a": [1, {"b": [true, null, "x"]}], "c": 2.5}"#).unwrap();
    let copy = value.clone();
    assert_eq!(format!("{:?}", copy), format!("{:?}", value));
    assert_eq!(text(&copy.member("a").unwrap().items().unwrap()[1].member("b").unwrap().items().unwrap()[2]), "x");
}
