use marketstate_codex_connector::codec::{parse_json, write_json, write_json_pretty};
use marketstate_codex_connector::json::{find_string_field, integer, object, text_field, Json};
use marketstate_codex_connector::text::{
    chars_of, decimal_text, find_bytes, find_chars, is_ascii_alphanumeric, is_control,
    is_whitespace, parse_usize, same_text, split_chars, text_of, to_ascii_lowercase, trim,
};
use marketstate_codex_connector::text_map::TextMap;

fn all_chars() -> Vec<char> {
    (0u32..0x110000).filter_map(char::from_u32).collect()
}

#[test]
fn character_classes_agree_with_the_standard_library() {
    for c in all_chars() {
        assert_eq!(is_whitespace(c), c.is_whitespace(), "{:?}", c);
        assert_eq!(is_control(c), c.is_control(), "{:?}", c);
        assert_eq!(is_ascii_alphanumeric(c), c.is_ascii_alphanumeric(), "{:?}", c);
    }
}

#[test]
fn trimming_agrees_with_the_standard_library() {
    for s in ["", " ", "a", " a b\t\n", "\u{3000}x\u{85}", "\u{200b}x", "\r\nx y\u{a0}"] {
        assert_eq!(trim(s), s.trim());
        assert_eq!(trim(trim(s)), trim(s));
    }
}

#[test]
fn lower_case_changes_ascii_capitals_only() {
    assert_eq!(to_ascii_lowercase("LocalHost:8765 ÄZ"), "localhost:8765 Äz");
}

#[test]
fn numbers_are_read_as_the_standard_library_reads_them() {
    for s in [
        "0",
        "42",
        "+7",
        "007",
        "",
        "+",
        "-1",
        "1 ",
        " 1",
        "1a",
        "++1",
        "18446744073709551615",
        "18446744073709551616",
        "99999999999999999999999999",
    ] {
        assert_eq!(parse_usize(s), s.parse::<usize>().ok(), "{:?}", s);
    }
}

#[test]
fn numbers_are_written_in_decimal_and_read_back() {
    for n in [0u64, 9, 10, 99, 100, 8765, u64::MAX] {
        assert_eq!(decimal_text(n), n.to_string());
        assert_eq!(parse_usize(&decimal_text(n)), Some(n as usize));
    }
}

#[test]
fn splitting_and_joining_gives_the_text_back() {
    let text = "GET / HTTP/1.1\r\nHost: x\r\n\r\n";
    let parts = split_chars(&chars_of(text), &chars_of("\r\n"));
    let parts: Vec<String> = parts.iter().map(|part| text_of(part)).collect();
    assert_eq!(parts, text.split("\r\n").collect::<Vec<_>>());
    assert_eq!(parts.join("\r\n"), text);
}

#[test]
fn texts_split_around_a_separator() {
    let parts = |text: &str| -> Vec<String> {
        split_chars(&chars_of(text), &['\n']).iter().map(|part| text_of(part)).collect()
    };
    for (a, b) in [("", ""), ("x", "y\n"), ("x\n", ""), ("a\nb", "\nc")] {
        let mut expected = parts(a);
        expected.extend(parts(b));
        assert_eq!(parts(&format!("{}\n{}", a, b)), expected);
    }
}

#[test]
fn the_first_occurrence_is_found() {
    assert_eq!(find_bytes(b"abcabc", b"bc"), Some(1));
    assert_eq!(find_bytes(b"abc", b"bd"), None);
    assert_eq!(find_bytes(b"a", b"ab"), None);
    assert_eq!(find_chars(&chars_of("a:b:c"), &chars_of(":")), Some(1));
}

#[test]
fn texts_are_compared_whole() {
    assert!(same_text("héllo", "héllo"));
    assert!(!same_text("hello", "hell"));
    assert!(!same_text("hello", "hellp"));
}

#[test]
fn text_map_replaces_and_removes() {
    let mut map: TextMap<u32> = TextMap::new();
    map.insert("a".to_string(), 1);
    map.insert("b".to_string(), 2);
    map.insert("a".to_string(), 3);
    assert_eq!(map.len(), 2);
    assert_eq!(map.get("a"), Some(&3));
    assert_eq!(map.values(), vec![&3, &2]);
    assert_eq!(map.remove("a"), Some(3));
    assert_eq!(map.remove("a"), None);
    assert!(!map.contains_key("a"));
    assert_eq!(map.get("b"), Some(&2));
}

#[test]
fn a_document_is_read_with_its_fields_in_order_of_name() {
    let json = parse_json(br#"{"b": [1, -2, 2.5, null], "a": {"x": true, "x": false}, "c": "t"}"#);
    let expected = Json::Object(vec![
        ("a".to_string(), Json::Object(vec![("x".to_string(), Json::Bool(false))])),
        (
            "b".to_string(),
            Json::Array(vec![
                Json::Unsigned(1),
                Json::Negative(-2),
                Json::Decimal("2.5".to_string()),
                Json::Null,
            ]),
        ),
        ("c".to_string(), Json::Text("t".to_string())),
    ]);
    assert_eq!(json, Some(expected));
}

#[test]
fn what_is_no_document_is_not_read() {
    assert_eq!(parse_json(b""), None);
    assert_eq!(parse_json(b"{"), None);
    assert_eq!(parse_json(b"{} {}"), None);
    assert_eq!(parse_json(b"\xff"), None);
}

#[test]
fn a_document_is_written_with_its_fields_in_order_of_name() {
    let json = object(vec![
        ("b".to_string(), Json::Unsigned(7)),
        ("a".to_string(), Json::Text("x\"y".to_string())),
        ("b".to_string(), Json::Negative(-1)),
        ("d".to_string(), Json::Decimal("1.250".to_string())),
        ("e".to_string(), Json::Negative(3)),
        ("c".to_string(), Json::Array(vec![Json::Null, Json::Bool(true)])),
    ]);
    let written = write_json(&json).unwrap();
    assert_eq!(
        String::from_utf8(written.clone()).unwrap(),
        r#"{"a":"x\"y","b":-1,"c":[null,true],"d":1.25,"e":3}"#
    );
    assert_eq!(serde_json::from_slice::<serde_json::Value>(&written).unwrap()["b"], -1);
}

#[test]
fn a_document_is_written_over_several_lines() {
    let json = object(vec![("launchAtLogin".to_string(), Json::Bool(true))]);
    let written = write_json_pretty(&json).unwrap();
    assert_eq!(String::from_utf8(written.clone()).unwrap(), "{\n  \"launchAtLogin\": true\n}");
    assert_eq!(parse_json(&written), Some(json));
}

#[test]
fn integers_keep_their_sign() {
    assert_eq!(integer(0), Json::Unsigned(0));
    assert_eq!(integer(i32::MAX), Json::Unsigned(2147483647));
    assert_eq!(integer(-1), Json::Negative(-1));
    assert_eq!(integer(i32::MIN), Json::Negative(-2147483648));
}

#[test]
fn fields_are_read_by_their_type() {
    let json = parse_json(br#"{"t":" x ","b":true,"n":5,"m":-5,"blank":"  ","null":null}"#).unwrap();
    assert_eq!(json.text_in("t"), Some(" x "));
    assert_eq!(text_field(&json, "t"), Some("x"));
    assert_eq!(text_field(&json, "blank"), None);
    assert_eq!(text_field(&json, "null"), None);
    assert_eq!(text_field(&json, "missing"), None);
    assert_eq!(json.bool_in("b"), Some(true));
    assert!(json.flag("b"));
    assert!(!json.flag("t"));
    assert_eq!(json.unsigned_in("n"), Some(5));
    assert_eq!(json.unsigned_in("m"), None);
    assert_eq!(Json::Null.get("x"), None);
}

#[test]
fn the_last_field_of_a_name_is_read_and_written() {
    let json = object(vec![
        ("ok".to_string(), Json::Bool(true)),
        ("n".to_string(), Json::Unsigned(1)),
        ("ok".to_string(), Json::Bool(false)),
    ]);
    assert_eq!(json.bool_in("ok"), Some(false));
    let written = write_json(&json).unwrap();
    assert_eq!(parse_json(&written).unwrap().bool_in("ok"), Some(false));
    assert_eq!(parse_json(&written).unwrap().unsigned_in("n"), Some(1));
}

#[test]
fn a_field_is_searched_level_by_level() {
    let keys = ["session_id", "thread_id"];
    let find = |text: &str| find_string_field(&parse_json(text.as_bytes()).unwrap(), &keys);
    assert_eq!(find(r#"{"thread_id":"t","session_id":"s"}"#), Some("s".to_string()));
    assert_eq!(find(r#"{"a":{"session_id":"deep"},"thread_id":"t"}"#), Some("t".to_string()));
    assert_eq!(find(r#"{"a":[1,{"b":{"thread_id":"x"}}],"z":{"session_id":"y"}}"#), Some("x".to_string()));
    assert_eq!(find(r#"{"session_id":5,"a":{"session_id":"s"}}"#), Some("s".to_string()));
    assert_eq!(find(r#"["session_id"]"#), None);
    assert_eq!(find("7"), None);
}
