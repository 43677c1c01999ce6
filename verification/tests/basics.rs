//! Text and JSON.
use vg_model_router::codec::{parse_json, parse_json_bytes, RAW_NAME};
use vg_model_router::json::{Json, JsonNumber, JsonObject};
use vg_model_router::text::{
    after_prefix, before_suffix, blank, contains, count, decimal, has_prefix, head_chars,
    join_all, leading_number, split_words, tail_chars, trim_start, truncate, white,
};

#[test]
fn white_space_is_that_of_unicode() {
    for u in 0..=0x10ffffu32 {
        if let Some(c) = char::from_u32(u) {
            assert_eq!(white(c), c.is_whitespace());
        }
    }
}

#[test]
fn cutting_by_characters() {
    assert_eq!(tail_chars("añb", 2), "ñb");
    assert_eq!(tail_chars("ab", 5), "ab");
    assert_eq!(head_chars("añb", 2), "añ");
    assert_eq!(truncate("añb", 2), "añ…");
    assert_eq!(truncate("ab", 2), "ab");
    assert_eq!(count("añb"), 3);
}

#[test]
fn trimming_and_splitting() {
    assert_eq!(trim_start(" \u{3000}a "), "a ");
    assert!(blank(" \t\u{a0}"));
    assert!(!blank(" x"));
    assert_eq!(split_words(" a\n b\u{2003}c "), vec!["a", "b", "c"]);
    assert_eq!(split_words("  ").len(), 0);
    assert_eq!(join_all(&split_words("a b"), "--"), "a--b");
}

#[test]
fn searching() {
    assert!(has_prefix("abc", "ab"));
    assert!(!has_prefix("a", "ab"));
    assert_eq!(after_prefix("abc", "ab"), Some("c".to_string()));
    assert_eq!(before_suffix("abc", "bc"), Some("a".to_string()));
    assert_eq!(before_suffix("abc", "x"), None);
    assert!(contains("xabcx", "abc"));
    assert!(contains("", ""));
    assert!(!contains("ab", "abc"));
}

#[test]
fn decimal_numbers() {
    for n in [0, 9, 10, 1234567890, u64::MAX] {
        assert_eq!(decimal(n), n.to_string());
        assert_eq!(leading_number(&format!("{n}x")), Some(n));
    }
    assert_eq!(leading_number("x"), None);
    assert_eq!(leading_number("18446744073709551616"), None);
}

#[test]
fn fields_keep_their_order() {
    let o = JsonObject::new().put("b", Json::Null).put("a", Json::Bool(true)).put("b", Json::text("x"));
    assert_eq!(Json::Object(o).to_text(), r#"{"b":"x","a":true}"#);
    let o = JsonObject::new().put("a", Json::Null).put("b", Json::Null).put("c", Json::Null);
    let (o, there) = o.take("a");
    assert!(there);
    assert_eq!(o.len(), 2);
    let (o, there) = o.take("a");
    assert!(!there);
    assert_eq!(Json::Object(o).to_text(), r#"{"c":null,"b":null}"#);
}

#[test]
fn documents_are_read_and_written() {
    let text = r#"{"s":"a\n\"ü","n":[0,18446744073709551615,-1,0.5,1e300],"b":[true,false,null],"o":{}}"#;
    let doc = parse_json(text).unwrap();
    assert_eq!(parse_json(&doc.to_text()).unwrap(), doc);
    assert_eq!(parse_json_bytes(text.as_bytes()).unwrap(), doc);
    assert!(!doc.to_text().contains('\n'));
    assert_eq!(parse_json("{\"a\":1,\"a\":2}").unwrap().to_text(), "{\"a\":2}");
    assert_eq!(parse_json("x").unwrap_err(), "expected value at line 1 column 1");
    assert!(parse_json_bytes(&[0xff]).is_err());
}

#[test]
fn documents_of_whole_numbers_come_back_at_any_usual_depth() {
    let mut doc = Json::Number(JsonNumber::Unsigned(7));
    for i in 0..120 {
        doc = if i % 2 == 0 {
            Json::array(vec![doc, Json::text("\u{0}\u{7f}\u{2028}")])
        } else {
            Json::object().with("k\"", doc)
        };
    }
    assert_eq!(parse_json(&doc.to_text()).unwrap(), doc);
}

#[test]
fn fractions_come_back_as_fractions() {
    for x in [0.1, -0.0, 1e16, f64::MAX, f64::MIN, f64::MIN_POSITIVE, 5e-324, 0.3] {
        let n = JsonNumber::from_number(serde_json::Number::from_f64(x).unwrap());
        let doc = Json::array(vec![Json::Number(n)]);
        let back = parse_json(&doc.to_text()).unwrap();
        assert!(matches!(back.as_array().unwrap()[0], Json::Number(JsonNumber::Other(_))));
    }
}

#[test]
fn the_name_of_a_raw_value_is_read_as_its_text() {
    let doc = Json::object().with(RAW_NAME, Json::text("1"));
    assert_eq!(parse_json(&doc.to_text()).unwrap(), Json::Number(JsonNumber::Unsigned(1)));
    let doc = Json::object().with("a", Json::Null).with(RAW_NAME, Json::text("1"));
    assert_eq!(parse_json(&doc.to_text()).unwrap(), doc);
}

#[test]
fn numbers_keep_their_kind() {
    let doc = parse_json("[1,-1,1.0]").unwrap();
    let items = doc.as_array().unwrap();
    assert_eq!(items[0].as_u64(), Some(1));
    assert_eq!(items[1].as_u64(), None);
    assert_eq!(items[2].as_u64(), None);
    assert_eq!(items[1], Json::Number(JsonNumber::Negative(-1)));
    assert!(matches!(items[2], Json::Number(JsonNumber::Other(_))));
    assert_eq!(Json::Number(JsonNumber::Negative(i64::MIN)).to_text(), i64::MIN.to_string());
    assert_eq!(parse_json(&i64::MIN.to_string()).unwrap(), Json::Number(JsonNumber::Negative(i64::MIN)));
    assert_eq!(
        JsonNumber::from_number(serde_json::Number::from(-3i64)),
        JsonNumber::Negative(-3)
    );
    assert_eq!(doc.to_text(), "[1,-1,1.0]");
    assert_eq!(
        JsonNumber::from_number(serde_json::Number::from(3u64)),
        JsonNumber::Unsigned(3)
    );
}

#[test]
fn parts_of_documents() {
    let doc = parse_json(r#"{"a":{"b":"x"},"l":[1],"t":"y","z":null}"#).unwrap();
    assert_eq!(doc.get2("a", "b").unwrap().as_str(), Some("x"));
    assert_eq!(doc.text_or("t", "d"), "y");
    assert_eq!(doc.text_or("l", "d"), "d");
    assert_eq!(doc.array_at("l").unwrap().len(), 1);
    assert!(doc.array_at("t").is_none());
    assert!(doc.get("z").unwrap().is_null());
    assert!(doc.get("a").unwrap().is_object());
    assert_eq!(parse_json("true").unwrap().as_bool(), Some(true));
    assert_eq!(doc.clone(), doc);
}
