use codex_plus_core::json::Json;
use codex_plus_core::sse::{find_frame_boundary, parse_sse_frame, take_complete_frame};
use codex_plus_core::str_map::StrMap;
use codex_plus_core::text::{
    comes_before, contains, decimal_text, full_lines, join, least_of, lines, parse_u64, sort_texts,
    split_at_char, strip_prefix, strip_suffix, trim, trim_end_of, trim_start_of,
};
use codex_plus_core::time::{remaining_seconds, Duration, Instant};

fn texts(list: &[&str]) -> Vec<String> {
    list.iter().map(|text| text.to_string()).collect()
}

#[test]
fn json_values_are_read_and_written() {
    let text = r#"{"a":[null,true,18446744073709551615,-3,1.5,"é\n"],"b":{}}"#;
    let value = Json::parse(text).unwrap();
    assert_eq!(
        value.to_text(),
        "{\"a\":[null,true,18446744073709551615,-3,1.5,\"é\\n\"],\"b\":{}}"
    );
    let items = value.array_at("a").unwrap();
    assert!(items[0].is_null());
    assert_eq!(items[1].as_bool(), Some(true));
    assert_eq!(items[2].as_u64(), Some(u64::MAX));
    assert_eq!(items[3].as_u64(), None);
    assert_eq!(items[5].as_text(), Some("é\n"));
    assert!(value.copy().same(&value));
    assert!(!value.same(&Json::object()));
    assert_eq!(
        Json::parse("{").unwrap_err(),
        "EOF while parsing an object at line 1 column 1"
    );
}

#[test]
fn json_objects_are_changed() {
    let mut value = Json::object();
    value.put_text("k", "v");
    value.put("list", Json::array(vec![Json::Unsigned(1)]));
    assert!(value.has_text("k", "v"));
    assert_eq!(value.text_or_empty("none"), "");
    assert_eq!(value.to_pretty_text(), "{\n  \"k\": \"v\",\n  \"list\": [\n    1\n  ]\n}");
    value.array_at_mut("list").unwrap().push(Json::Null);
    *value.get_mut("k").unwrap() = Json::Bool(false);
    value.remove("nothing");
    assert_eq!(value.to_text(), r#"{"k":false,"list":[1,null]}"#);
    value.remove("list");
    assert_eq!(value.keys(), vec!["k"]);
}

#[test]
fn numbers_of_one_value_are_the_same() {
    assert!(Json::Unsigned(4).same(&Json::Signed(4)));
    assert!(!Json::Unsigned(4).same(&Json::parse("4.0").unwrap()));
}

#[test]
fn maps_hold_one_value_for_a_key() {
    let mut map: StrMap<u32> = StrMap::new();
    assert!(map.is_empty());
    map.insert("a".to_string(), 1);
    map.insert("b".to_string(), 2);
    map.insert("a".to_string(), 3);
    assert_eq!(map.get("a"), Some(&3));
    assert_eq!(map.keys().len(), 2);
    *map.get_mut("b").unwrap() = 5;
    map.remove("a");
    assert!(!map.contains_key("a"));
    assert_eq!(map.get("b"), Some(&5));
    map.clear();
    assert!(map.is_empty());
}

#[test]
fn texts_are_cut() {
    assert_eq!(trim("\u{3000}\t a b \r\n"), "a b");
    assert_eq!(trim_end_of("a//", '/'), "a");
    assert_eq!(trim_start_of("\u{feff}\u{feff}a", '\u{feff}'), "a");
    assert_eq!(strip_prefix("data: x", "data:"), Some(" x"));
    assert_eq!(strip_prefix("dat", "data:"), None);
    assert_eq!(strip_suffix("a.tmp", ".tmp"), Some("a"));
    assert!(contains("abc", "bc"));
    assert!(contains("abc", ""));
    assert!(!contains("abc", "cb"));
}

#[test]
fn texts_are_parted_and_joined() {
    assert_eq!(lines("a\r\nb\n\nc"), vec!["a", "b", "", "c"]);
    assert_eq!(lines(""), Vec::<String>::new());
    assert_eq!(full_lines("a\r\nb"), vec!["a\r\n", "b"]);
    assert_eq!(split_at_char("a,,b", ','), vec!["a", "", "b"]);
    assert_eq!(join(&texts(&["a", "", "b"]), ", "), "a, , b");
}

#[test]
fn numbers_are_read_and_written() {
    assert_eq!(decimal_text(0), "0");
    assert_eq!(decimal_text(u64::MAX), "18446744073709551615");
    assert_eq!(parse_u64("18446744073709551615"), Some(u64::MAX));
    assert_eq!(parse_u64("+07"), Some(7));
    for text in ["", "+", "-1", "18446744073709551616", "1a", " 1"] {
        assert_eq!(parse_u64(text), None);
    }
}

#[test]
fn texts_have_an_order() {
    assert!(comes_before("a", "ab"));
    assert!(comes_before("Z", "a"));
    assert!(!comes_before("a", "a"));
    assert_eq!(sort_texts(texts(&["b", "é", "a", "a"])), vec!["a", "a", "b", "é"]);
    assert_eq!(least_of(&texts(&["b", "a"])).as_deref(), Some("a"));
    assert_eq!(least_of(&Vec::new()), None);
}

#[test]
fn frames_end_with_an_empty_line() {
    assert_eq!(find_frame_boundary(b"a\n\nb\r\n\r\n"), Some((3, true)));
    assert_eq!(find_frame_boundary(b"a\r\n\r\nb\n\n"), Some((5, true)));
    assert_eq!(find_frame_boundary(b"a\n"), None);
    assert_eq!(find_frame_boundary(b""), None);
    assert_eq!(find_frame_boundary(b"data: {}"), Some((8, false)));
    let mut buffer = b"data: 1\n\nrest".to_vec();
    assert_eq!(take_complete_frame(&mut buffer), Some(b"data: 1\n\n".to_vec()));
    assert_eq!(take_complete_frame(&mut buffer), None);
    assert_eq!(buffer, b"rest");
}

#[test]
fn frames_are_read() {
    let frame = parse_sse_frame(b"event: e\ndata: {\"a\":\ndata: \"\xff\"}\n\n");
    assert_eq!(
        frame.data_json().unwrap().to_text(),
        "{\"a\":\"\u{fffd}\"}"
    );
}

#[test]
fn time_left_is_rounded_up() {
    let start = Instant { nanos: 1 };
    let end = start.after(Duration::from_secs(5));
    assert_eq!(remaining_seconds(end, start), 5);
    assert_eq!(remaining_seconds(end, Instant { nanos: 1_000_001 }), 5);
    assert_eq!(remaining_seconds(end, Instant { nanos: 1_000_000_001 }), 4);
    assert_eq!(remaining_seconds(end, Instant { nanos: 5_000_000_000 }), 0);
    assert_eq!(remaining_seconds(start, end), 0);
}
