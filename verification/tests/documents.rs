//! Documents and texts.
use mcpg_plugin_backend_llm_openai::json::{
    from_value, parse_bytes, parse_text, print, to_value, Fields, Json,
};
use mcpg_plugin_backend_llm_openai::text::{
    is_blank, str_contains, str_eq, str_starts_with, to_ascii_lower, to_decimal, trim_chars,
    trim_end_matches,
};

#[test]
fn documents_cross_over_and_back() {
    let text = "{\"a\":[1,-2,1.5,true,null,\"é\"],\"b\":{\"c\":{}},\"d\":18446744073709551615}";
    let value: serde_json::Value = serde_json::from_str(text).unwrap();
    let j = from_value(value.clone());
    assert_eq!(to_value(&j), value);
    assert_eq!(to_value(&j.clone()), value);
    assert_eq!(print(&j), text);
    assert_eq!(to_value(&parse_text(text).unwrap()), value);
    assert_eq!(to_value(&parse_bytes(text.as_bytes()).unwrap()), value);
}

#[test]
fn texts_that_are_no_documents_are_refused() {
    assert_eq!(parse_text("").unwrap_err(), "EOF while parsing a value at line 1 column 0");
    assert!(parse_bytes(b"\xff").unwrap_err().contains("expected value"));
}

#[test]
fn members_are_found() {
    let j = parse_text("{\"s\": \"x\", \"n\": 7, \"f\": 7.0, \"a\": [], \"z\": -1}").unwrap();
    assert_eq!(j.get_str("s"), Some("x"));
    assert_eq!(j.get_str("n"), None);
    assert_eq!(j.get_u64("n"), Some(7));
    assert_eq!(j.get_u64("f"), None);
    assert_eq!(j.get_u64("z"), None);
    assert_eq!(j.get_array("a").map(|a| a.len()), Some(0));
    assert!(j.get("q").is_none());
    assert!(j.get("f").unwrap().is_number());
    assert!(j.get("n").unwrap().is_number());
    assert!(!j.is_number());
    assert!(Json::Null.get("s").is_none());
    assert_eq!(Json::Unsigned(3).as_u64(), Some(3));
    assert_eq!(Json::Unsigned(3).as_i64(), Some(3));
    assert_eq!(Json::Unsigned(u64::MAX).as_i64(), None);
    assert_eq!(j.get("z").unwrap().as_i64(), Some(-1));
    assert_eq!(j.get("f").unwrap().as_i64(), None);
    assert_eq!(parse_text("9223372036854775808").unwrap().as_i64(), None);
    assert_eq!(Json::Null.as_i64(), None);
}

#[test]
fn the_later_of_two_members_counts() {
    let mut f = Fields::new();
    f.put("a", Json::Unsigned(1));
    f.put_str("a", "two");
    f.put_opt("b", &None);
    f.put_opt_str("c", &Some("d".to_string()));
    let j = f.into_json();
    assert_eq!(j.get_str("a"), Some("two"));
    assert_eq!(to_value(&j)["a"], "two");
    assert!(to_value(&j).get("b").is_none());
    assert_eq!(to_value(&j)["c"], "d");
    let twice = |a: u64, b: u64| {
        let member = |n: &str, v: u64| (n.to_string(), Json::Unsigned(v));
        print(&Json::Object(vec![member("k", a), member("b", 0), member("k", b), member("a", 1)]))
    };
    assert_eq!(twice(1, 2), "{\"a\":1,\"b\":0,\"k\":2}");
    assert_eq!(twice(2, 1), "{\"a\":1,\"b\":0,\"k\":1}");
}

#[test]
fn integers_come_back_from_text() {
    for text in ["0", "-1", "-9223372036854775808", "9223372036854775807", "18446744073709551615"] {
        let j = parse_text(text).unwrap();
        assert_eq!(print(&j), text);
        assert!(j.as_u64().is_some() || j.as_i64().is_some());
        assert_eq!(to_value(&parse_text(&print(&j)).unwrap()), to_value(&j));
    }
}

#[test]
fn texts_are_taken_apart() {
    assert!(str_eq("é", "é") && !str_eq("e", "é") && !str_eq("a", "ab"));
    assert!(str_contains("xaby", "ab") && str_contains("", "") && !str_contains("a", "ab"));
    assert!(str_starts_with("audio/x", "audio/") && !str_starts_with("xaudio/", "audio/"));
    assert_eq!(to_ascii_lower("ABC É z"), "abc É z");
    assert!(is_blank(" \t\u{2003}") && is_blank("") && !is_blank(" x"));
    assert_eq!(trim_chars(&['\n', 'a', ' ', 'b', '\u{3000}']), vec!['a', ' ', 'b']);
    assert_eq!(trim_end_matches("a//b//", '/'), "a//b");
    assert_eq!(to_decimal(0), "0");
    assert_eq!(to_decimal(u128::MAX), "340282366920938463463374607431768211455");
}

#[test]
fn white_space_is_what_the_standard_says() {
    for c in (0u32..0x11_0000).filter_map(char::from_u32) {
        assert_eq!(is_blank(&c.to_string()), c.to_string().trim().is_empty());
    }
}
