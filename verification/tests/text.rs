use aswitch::json::{get_json_path, parse_pointer, Json};
use aswitch::path::expand_user_path_from;
use aswitch::text::{
    ascii_lower, decimal, join, order, pad_right, parse_i64, parse_u64, same_ignoring_case,
    signed_decimal, split, split_once, strip_prefix, trim, truncate_text, Order,
};
use aswitch::text_map::TextMap;
use aswitch::time::{at_second, later, nanos_between, remainder, Timestamp};

#[test]
fn truncate_text_adds_ellipsis() {
    assert_eq!(truncate_text("abcdefghij", 7), "abcd...");
    assert_eq!(truncate_text("short", 10), "short");
}

#[test]
fn expand_user_path_rewrites_tilde_prefix() {
    let home_dir = "/tmp/aswitch-home";

    assert_eq!(expand_user_path_from("~", home_dir), home_dir);
    assert_eq!(
        expand_user_path_from("~/nested/file.json", home_dir),
        "/tmp/aswitch-home/nested/file.json"
    );
    assert_eq!(
        expand_user_path_from("/already/absolute", home_dir),
        "/already/absolute"
    );
    assert_eq!(
        expand_user_path_from("relative/path", home_dir),
        "relative/path"
    );
}

#[test]
fn numbers_are_read_as_they_are_written() {
    for n in [0, 7, 10, 12_345, u64::MAX] {
        assert_eq!(decimal(n), n.to_string());
        assert_eq!(parse_u64(&decimal(n)), Some(n));
    }
    assert_eq!(parse_u64("+5"), Some(5));
    assert_eq!(parse_u64("18446744073709551616"), None);
    assert_eq!(parse_u64(""), None);
    assert_eq!(parse_i64("-9223372036854775808"), Some(i64::MIN));
    assert_eq!(signed_decimal(-12), "-12");
}

#[test]
fn texts_are_cut_and_put_together() {
    assert_eq!(trim("\u{a0} a b \n"), "a b");
    assert_eq!(split("a/b//c", '/'), vec!["a", "b", "", "c"]);
    assert_eq!(
        join(&vec!["a".to_string(), "b".to_string()], ", "),
        "a, b"
    );
    assert_eq!(
        split_once("a/b/c", "/"),
        Some(("a".to_string(), "b/c".to_string()))
    );
    assert_eq!(strip_prefix("--x=1", "--x=").as_deref(), Some("1"));
    assert_eq!(pad_right("ab", 4), "ab  ");
    assert_eq!(pad_right("abcd", 2), "abcd");
    assert_eq!(truncate_text("abcdef", 3), "abc");
    assert_eq!(ascii_lower("ÄbC"), "Äbc");
    assert!(same_ignoring_case("Yes", "yES"));
    assert!(matches!(order("a", "b"), Order::Before));
    assert!(matches!(order("ab", "a"), Order::After));
}

#[test]
fn a_map_is_in_the_order_of_its_keys() {
    let mut map = TextMap::new();
    map.insert("b".to_string(), 2u64);
    map.insert("a".to_string(), 1u64);
    map.insert("b".to_string(), 3u64);
    assert_eq!(map.len(), 2);
    assert_eq!(map.keys(), vec!["a", "b"]);
    assert_eq!(map.get("b"), Some(&3));
    assert_eq!(map.remove("a"), Some(1));
    assert_eq!(map.remove("a"), None);
    assert!(!map.contains_key("a"));
}

#[test]
fn pointers_lead_into_values() {
    let value = Json::parse(r#"{"a":[{"b":1},2],"x.y":3}"#).ok().expect("json");
    let number = |pointer: &str| match get_json_path(&value, pointer) {
        Some(Json::Number(n)) => n.signed,
        _ => None,
    };
    assert_eq!(number("a[0].b"), Some(1));
    assert_eq!(number("a[1]"), Some(2));
    assert_eq!(number("x.y"), Some(3));
    assert_eq!(number("a[9]"), None);
    assert!(parse_pointer("a..b").is_none());
    assert!(parse_pointer("a[x]").is_none());
    assert_eq!(parse_pointer("a[0].b").expect("segments").len(), 3);
    assert!(Json::parse("{").is_err());
}

#[test]
fn times_follow_each_other() {
    let a = Timestamp { secs: 1, nanos: 5 };
    let b = Timestamp { secs: 2, nanos: 0 };
    assert!(a.is_before(&b));
    assert!(!b.is_before(&a));
    assert_eq!(nanos_between(a, b), 999_999_995);
    assert_eq!(later(Some(a), Some(b)), Some(b));
    assert_eq!(later(None, Some(a)), Some(a));
    assert_eq!(remainder(-1, 60), 59);
    assert!(at_second(i64::MAX).is_none());
}

#[test]
fn times_are_read_from_rfc_3339() {
    assert_eq!(
        Timestamp::from_rfc3339("2026-04-24T12:00:00.5+02:00"),
        Some(Timestamp { secs: 1_777_024_800, nanos: 500_000_000 })
    );
    assert_eq!(Timestamp::from_rfc3339("2026-04-24"), None);
    assert_eq!(Timestamp::from_rfc3339("soon"), None);
}
