use gmhelper::json::{load_document, save_document, strip_trailing_commas, DocumentError, Json};

#[test]
fn strip_removes_a_comma_before_a_closing_brace() {
    assert_eq!(strip_trailing_commas("{\"a\":1,}"), "{\"a\":1}");
}

#[test]
fn strip_leaves_a_comma_inside_a_string_untouched() {
    assert_eq!(strip_trailing_commas("{\"a\":\"x,}\"}"), "{\"a\":\"x,}\"}");
}

#[test]
fn strip_removes_a_comma_before_a_closing_bracket_past_whitespace() {
    assert_eq!(strip_trailing_commas("[1, 2, \n\t ]"), "[1, 2 \n\t ]");
    assert_eq!(strip_trailing_commas("[1,\u{a0}]"), "[1\u{a0}]");
}

#[test]
fn strip_keeps_commas_between_items() {
    assert_eq!(strip_trailing_commas("[1,2,3]"), "[1,2,3]");
    assert_eq!(strip_trailing_commas("{\"a\":[1,],\"b\":{},}"), "{\"a\":[1],\"b\":{}}");
    assert_eq!(strip_trailing_commas(","), ",");
    assert_eq!(strip_trailing_commas(", x ]"), ", x ]");
    assert_eq!(strip_trailing_commas(""), "");
}

#[test]
fn strip_follows_escapes_inside_strings() {
    assert_eq!(strip_trailing_commas("[\"a\\\",]\",]"), "[\"a\\\",]\"]");
    assert_eq!(strip_trailing_commas("[\"a\\\\\",]"), "[\"a\\\\\"]");
    assert_eq!(strip_trailing_commas("\\\",]"), "\\\",]");
}

#[test]
fn load_accepts_trailing_commas_and_keeps_member_order() {
    let doc = load_document("{\"zeta\": 1, \"alpha\": [true, null,], \"mid\": \"x,]\",}")
        .expect("parses once the commas are gone");
    match &doc {
        Json::Object(members) => {
            let keys: Vec<&str> = members.iter().map(|m| m.0.as_str()).collect();
            assert_eq!(keys, vec!["zeta", "alpha", "mid"]);
        }
        _ => panic!("not an object"),
    }
    assert_eq!(doc.integer_field("zeta"), Some(1));
    let items = doc.get("alpha").and_then(|a| a.as_array()).expect("an array");
    assert_eq!(items.len(), 2);
    assert_eq!(items[0], Json::Bool(true));
    assert_eq!(items[1], Json::Null);
    assert_eq!(doc.get("mid").and_then(|m| m.as_text()), Some(&"x,]".to_string()));
    assert!(doc.get("missing").is_none());
}

#[test]
fn load_refuses_what_is_not_json() {
    match load_document("{\"a\": }") {
        Err(DocumentError::Malformed(message)) => assert!(!message.is_empty()),
        other => panic!("unexpected: {:?}", other),
    }
    assert!(matches!(load_document(""), Err(DocumentError::Malformed(_))));
}

#[test]
fn numbers_are_integers_only_where_they_are() {
    let doc = load_document("{\"a\": -7, \"b\": 2.5, \"c\": 9223372036854775807, \"d\": 18446744073709551615, \"e\": \"3\"}")
        .expect("parses");
    assert_eq!(doc.integer_field("a"), Some(-7));
    assert_eq!(doc.integer_field("b"), None);
    assert_eq!(doc.integer_field("c"), Some(i64::MAX));
    assert_eq!(doc.integer_field("d"), None);
    assert_eq!(doc.integer_field("e"), None);
    assert_eq!(doc.integer_field("f"), None);
    assert_eq!(doc.get("a").expect("there").as_i64(), Some(-7));
    assert_eq!(Json::Null.as_i64(), None);
}

#[test]
fn accessors_tell_the_kinds_apart() {
    let doc = load_document("[\"x\", [1]]").expect("parses");
    assert!(doc.is_array());
    assert!(doc.get("x").is_none());
    let items = doc.as_array().expect("an array");
    assert_eq!(items[0].as_text(), Some(&"x".to_string()));
    assert!(items[0].as_array().is_none());
    assert!(!items[0].is_array());
    assert!(items[1].as_text().is_none());
    assert_eq!(Json::text("hello"), Json::Text("hello".to_string()));
}

#[test]
fn text_field_is_compares_the_string_under_a_key() {
    let doc = load_document("{\"name\": \"sHero\", \"n\": 1}").expect("parses");
    assert!(doc.text_field_is("name", &"sHero".to_string()));
    assert!(!doc.text_field_is("name", &"sHer".to_string()));
    assert!(!doc.text_field_is("n", &"1".to_string()));
    assert!(!doc.text_field_is("other", &"sHero".to_string()));
}

#[test]
fn save_then_load_gives_the_same_document() {
    let text = "{\"b\": [1, 2.5, \"s\", null, {\"k\": false}], \"a\": {\"z\": -3, \"y\": []}, \"u\": \"\\u00e9\\n\"}";
    let doc = load_document(text).expect("parses");
    let saved = save_document(&doc).expect("prints");
    let again = load_document(&saved).expect("parses again");
    assert_eq!(doc, again);
}

#[test]
fn save_writes_indented_text_in_member_order() {
    let doc = load_document("{\"b\": 1, \"a\": [true]}").expect("parses");
    let saved = save_document(&doc).expect("prints");
    assert_eq!(saved, "{\n  \"b\": 1,\n  \"a\": [\n    true\n  ]\n}");
}

#[test]
fn save_lets_a_repeated_key_replace_the_earlier_value() {
    let doc = Json::Object(vec![
        ("a".to_string(), Json::Bool(true)),
        ("b".to_string(), Json::Null),
        ("a".to_string(), Json::Bool(false)),
    ]);
    let saved = save_document(&doc).expect("prints");
    assert_eq!(saved, "{\n  \"a\": false,\n  \"b\": null\n}");
}

#[test]
fn load_keeps_one_member_for_a_repeated_key() {
    let doc = load_document("{\"a\": 1, \"b\": 2, \"a\": 3}").expect("parses");
    match &doc {
        Json::Object(members) => {
            let keys: Vec<&str> = members.iter().map(|m| m.0.as_str()).collect();
            assert_eq!(keys, vec!["a", "b"]);
        }
        _ => panic!("not an object"),
    }
    assert_eq!(doc.integer_field("a"), Some(3));
}
