use twapi_v2::text::{
    decimal, decimal_i64, parse_i64, parse_u64, rank, replace_all, same_text, Rank,
};

#[test]
fn decimal_writes_digits() {
    assert_eq!(decimal(0), "0");
    assert_eq!(decimal(7), "7");
    assert_eq!(decimal(1000), "1000");
    assert_eq!(decimal(1699999999), "1699999999");
    assert_eq!(decimal(u64::MAX), "18446744073709551615");
}

#[test]
fn parse_u64_reads_digits() {
    assert_eq!(parse_u64("15"), Some(15));
    assert_eq!(parse_u64("0"), Some(0));
    assert_eq!(parse_u64("007"), Some(7));
    assert_eq!(parse_u64("+15"), Some(15));
    assert_eq!(parse_u64("18446744073709551615"), Some(u64::MAX));
}

#[test]
fn parse_u64_refuses_what_is_no_number() {
    assert_eq!(parse_u64(""), None);
    assert_eq!(parse_u64("+"), None);
    assert_eq!(parse_u64("-1"), None);
    assert_eq!(parse_u64("1x"), None);
    assert_eq!(parse_u64(" 1"), None);
    assert_eq!(parse_u64("1 "), None);
    assert_eq!(parse_u64("1_000"), None);
    assert_eq!(parse_u64("++1"), None);
    assert_eq!(parse_u64("18446744073709551616"), None);
    assert_eq!(parse_u64("99999999999999999999999"), None);
}

#[test]
fn parse_u64_agrees_with_std() {
    for text in ["", "+", "0", "+0", "12", "-3", "1e3", "١٢", "18446744073709551615", "18446744073709551616"] {
        assert_eq!(parse_u64(text), text.parse::<u64>().ok(), "{}", text);
    }
}

#[test]
fn parse_u64_reads_back_decimal() {
    for n in [0u64, 1, 9, 10, 99, 100, 12345, u64::MAX - 1, u64::MAX] {
        assert_eq!(parse_u64(&decimal(n)), Some(n));
    }
}

#[test]
fn replace_all_fills_the_placeholder() {
    assert_eq!(
        replace_all("https://api.twitter.com/2/lists/:id", ":id", "14914404"),
        "https://api.twitter.com/2/lists/14914404"
    );
    assert_eq!(replace_all("/2/users/:id/blocking", ":id", ""), "/2/users//blocking");
    assert_eq!(replace_all("no placeholder", ":id", "x"), "no placeholder");
}

#[test]
fn replace_all_agrees_with_std() {
    let cases = [
        ("aaa", "aa", "b"),
        ("abcabc", "bc", ""),
        (":id:id", ":id", ":id:id"),
        ("", "x", "y"),
        ("x", "xyz", "y"),
        ("héllo wörld", "ö", "oe"),
        ("a:i:id", ":id", "7"),
    ];
    for (text, pattern, value) in cases {
        assert_eq!(replace_all(text, pattern, value), text.replace(pattern, value));
    }
    assert_eq!(replace_all("abc", "", "x"), "abc");
}

#[test]
fn rank_orders_texts_as_strings_are_ordered() {
    assert_eq!(rank("a", "b"), Rank::Before);
    assert_eq!(rank("b", "a"), Rank::After);
    assert_eq!(rank("a", "a"), Rank::Same);
    assert_eq!(rank("", ""), Rank::Same);
    assert_eq!(rank("", "a"), Rank::Before);
    assert_eq!(rank("ab", "a"), Rank::After);
    assert_eq!(rank("Z", "a"), Rank::Before);
    let words = ["", "a", "ab", "b", "B", "é", "z", "~", "10", "9"];
    for x in words {
        for y in words {
            let expected = match x.cmp(y) {
                std::cmp::Ordering::Less => Rank::Before,
                std::cmp::Ordering::Equal => Rank::Same,
                std::cmp::Ordering::Greater => Rank::After,
            };
            assert_eq!(rank(x, y), expected, "{} {}", x, y);
            assert_eq!(same_text(x, y), x == y);
        }
    }
}

#[test]
fn decimal_i64_writes_the_sign() {
    assert_eq!(decimal_i64(0), "0");
    assert_eq!(decimal_i64(42), "42");
    assert_eq!(decimal_i64(-42), "-42");
    assert_eq!(decimal_i64(i64::MAX), "9223372036854775807");
    assert_eq!(decimal_i64(i64::MIN), "-9223372036854775808");
}

#[test]
fn parse_i64_reads_signed_numerals() {
    assert_eq!(parse_i64("0"), Some(0));
    assert_eq!(parse_i64("-0"), Some(0));
    assert_eq!(parse_i64("17"), Some(17));
    assert_eq!(parse_i64("-17"), Some(-17));
    assert_eq!(parse_i64("9223372036854775807"), Some(i64::MAX));
    assert_eq!(parse_i64("-9223372036854775808"), Some(i64::MIN));
    for bad in ["", "-", "+1", "--1", "1.0", "1e3", " 1", "9223372036854775808", "-9223372036854775809"] {
        assert_eq!(parse_i64(bad), None, "{}", bad);
    }
    for n in [0i64, 1, -1, 10, -10, 999, i64::MAX, i64::MIN, i64::MIN + 1] {
        assert_eq!(parse_i64(&decimal_i64(n)), Some(n));
    }
}
