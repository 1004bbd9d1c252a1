use cli_agent::json::{
    encode_map, encode_map_pretty, parse_json, parse_object, JsonNumber, JsonValue,
};
use cli_agent::number::{i64_to_text, parse_i64, u32_to_octal};
use cli_agent::text::{
    comes_before, finishes_with, includes_text, join_texts, split_words, text_is_blank, trim_text,
};
use cli_agent::text_map::TextMap;

#[test]
fn values_are_read_with_their_structure() {
    let value = parse_json(r#"{"a":[1,-2,2.5,1e400e]}"#);
    assert!(value.is_err());
    let value = parse_json(r#"{"b":[1,-2,2.5,true,null],"a":"x"}"#).expect("json");
    assert_eq!(
        value,
        JsonValue::Object(vec![
            ("a".to_owned(), JsonValue::Text("x".to_owned())),
            (
                "b".to_owned(),
                JsonValue::Array(vec![
                    JsonValue::Number(JsonNumber::PosInt(1)),
                    JsonValue::Number(JsonNumber::NegInt(-2)),
                    JsonValue::Number(JsonNumber::Float("2.5".to_owned())),
                    JsonValue::Bool(true),
                    JsonValue::Null,
                ])
            ),
        ])
    );
    assert_eq!(value.member(9, "a"), Some(&JsonValue::Text("x".to_owned())));
    assert_eq!(value.member(0, "c"), None);
}

#[test]
fn nothing_is_read_from_text_that_is_no_json() {
    for text in ["", "{", "nul", "[1,]", "\"\\x\"", "1 2"] {
        assert!(parse_json(text).is_err(), "{:?}", text);
    }
    assert!(parse_object("[]").is_err());
    let deep = "[".repeat(200) + &"]".repeat(200);
    assert!(parse_json(&deep).is_err());
}

#[test]
fn numbers_are_taken_apart_by_their_range() {
    assert_eq!(JsonNumber::PosInt(9223372036854775807).as_i64(), Some(i64::MAX));
    assert_eq!(JsonNumber::PosInt(9223372036854775808).as_i64(), None);
    assert_eq!(JsonNumber::NegInt(i64::MIN).as_i64(), Some(i64::MIN));
    assert_eq!(JsonNumber::Float("1.0".to_owned()).as_i64(), None);
    assert_eq!(JsonNumber::PosInt(7).as_usize(), Some(7));
    assert_eq!(JsonNumber::NegInt(-7).as_usize(), None);
}

#[test]
fn maps_of_texts_are_read_back_from_json() {
    let mut map = TextMap::new();
    for (key, value) in [("z", "1"), ("a", "\"quoted\"\n"), ("é", "日本"), ("z", "2")] {
        map.insert(key.to_owned(), value.to_owned());
    }
    assert_eq!(map.len(), 3);
    let json = encode_map(&map);
    assert_eq!(json, "{\"a\":\"\\\"quoted\\\"\\n\",\"z\":\"2\",\"é\":\"日本\"}");
    assert_eq!(
        encode_map_pretty(&map),
        "{\n  \"a\": \"\\\"quoted\\\"\\n\",\n  \"z\": \"2\",\n  \"é\": \"日本\"\n}"
    );
    assert_eq!(encode_map(&TextMap::new()), "{}");
    assert_eq!(encode_map_pretty(&TextMap::new()), "{}");
    let read = parse_object(&json).expect("an object");
    assert_eq!(read.len(), 3);
    for i in 0..map.len() {
        let (key, value) = map.entry_at(i);
        assert_eq!(read.get(key), Some(&JsonValue::Text(value.clone())));
    }
}

#[test]
fn maps_keep_their_keys_in_order() {
    let mut map = TextMap::new();
    for key in ["b", "", "é", "a", "ab", "Z"] {
        map.insert(key.to_owned(), ());
    }
    let keys: Vec<&str> = (0..map.len()).map(|i| map.entry_at(i).0.as_str()).collect();
    assert_eq!(keys, vec!["", "Z", "a", "ab", "b", "é"]);
    assert!(map.contains_key("ab"));
    assert!(!map.contains_key("abc"));
    let mut std: Vec<&str> = vec!["b", "", "é", "a", "ab", "Z"];
    std.sort();
    assert_eq!(keys, std);
    assert!(comes_before("\u{ffff}", "\u{10000}"));
    assert!(!comes_before("a", "a"));
}

#[test]
fn integers_are_read_back_from_their_notation() {
    for n in [0, 7, -7, 10, -10, 1234567890, i64::MAX, i64::MIN] {
        assert_eq!(i64_to_text(n), n.to_string());
        assert_eq!(parse_i64(&i64_to_text(n)), Some(n));
    }
    for text in ["", "+", "-", "1 ", " 1", "0x1", "1_0", "٣", "9223372036854775808", "--1"] {
        assert_eq!(parse_i64(text), text.parse::<i64>().ok(), "{:?}", text);
    }
    for text in ["+5", "-0", "007", "-9223372036854775808"] {
        assert_eq!(parse_i64(text), text.parse::<i64>().ok(), "{:?}", text);
    }
    for n in [0, 7, 8, 0o700, 0o777, u32::MAX] {
        assert_eq!(u32_to_octal(n), format!("{:o}", n));
    }
}

#[test]
fn texts_are_trimmed_split_and_joined_like_strings() {
    for text in ["", " ", "a", " a b\t\n c ", "\u{3000}x\u{85}", "a\u{200b}b", "\u{1680}"] {
        assert_eq!(trim_text(text), text.trim());
        assert_eq!(text_is_blank(text), text.trim().is_empty());
        let words: Vec<String> = text.split_whitespace().map(str::to_owned).collect();
        assert_eq!(split_words(text), words);
        assert_eq!(join_texts(&words, " "), words.join(" "));
    }
    assert!(includes_text("aab", "ab"));
    assert!(!includes_text("a", "aa"));
    assert!(includes_text("", ""));
    assert!(finishes_with("x.lock", ".lock"));
    assert!(!finishes_with("lock", ".lock"));
}
