use scrapbridge::json::{parse_json, JsonValue};
use scrapbridge::pages::decode_page_set;

fn chars_of(t: &str) -> Vec<char> {
    t.chars().collect()
}

#[test]
fn minimal_page_decodes_with_optionals_absent() {
    let body = r#"{"projectName":"demo","skip":0,"limit":20,"count":1,
      "pages":[{"id":"p1","title":"Home","user":{"id":"u1"}}]}"#;
    let ps = decode_page_set(body).unwrap();
    assert_eq!(ps.project_name, "demo");
    assert_eq!(ps.skip, 0);
    assert_eq!(ps.limit, 20);
    assert_eq!(ps.count, 1);
    assert_eq!(ps.pages.len(), 1);
    let p = &ps.pages[0];
    assert_eq!(p.id, "p1");
    assert_eq!(p.title, "Home");
    assert_eq!(p.user_id, "u1");
    assert_eq!(p.image, None);
    assert_eq!(p.descriptions, None);
    assert_eq!(p.last_editor_id, None);
    assert_eq!(p.pin, None);
    assert_eq!(p.views, None);
    assert_eq!(p.linked, None);
    assert_eq!(p.created, None);
    assert_eq!(p.updated, None);
    assert_eq!(p.accessed, None);
    assert_eq!(p.lines_count, None);
    assert_eq!(p.chars_count, None);
    assert_eq!(p.helpfeels, None);
}

#[test]
fn full_page_decodes_every_field() {
    let body = r#"{"projectName":"demo","skip":5,"limit":10,"count":42,"pages":[
      {"id":"p2","title":"Notes","image":"https://img.example/i.png",
       "descriptions":["first line","second line"],
       "user":{"id":"owner"},"lastUpdateUser":{"id":"editor"},
       "pin":9007,"views":123,"linked":4,
       "created":1700000000,"updated":1700000100,"accessed":1700000200,
       "linesCount":12,"charsCount":345,"helpfeels":["why?","how?"]}]}"#;
    let ps = decode_page_set(body).unwrap();
    assert_eq!(ps.skip, 5);
    assert_eq!(ps.limit, 10);
    assert_eq!(ps.count, 42);
    let p = &ps.pages[0];
    assert_eq!(p.id, "p2");
    assert_eq!(p.title, "Notes");
    assert_eq!(p.image, Some("https://img.example/i.png".to_string()));
    assert_eq!(
        p.descriptions,
        Some(vec!["first line".to_string(), "second line".to_string()])
    );
    assert_eq!(p.user_id, "owner");
    assert_eq!(p.last_editor_id, Some("editor".to_string()));
    assert_eq!(p.pin, Some(9007));
    assert_eq!(p.views, Some(123));
    assert_eq!(p.linked, Some(4));
    assert_eq!(p.created, Some(1700000000));
    assert_eq!(p.updated, Some(1700000100));
    assert_eq!(p.accessed, Some(1700000200));
    assert_eq!(p.lines_count, Some(12));
    assert_eq!(p.chars_count, Some(345));
    assert_eq!(p.helpfeels, Some(vec!["why?".to_string(), "how?".to_string()]));
}

#[test]
fn null_optional_fields_decode_as_absent() {
    let body = r#"{"projectName":"demo","skip":0,"limit":20,"count":1,
      "pages":[{"id":"p1","title":"Home","user":{"id":"u1"},
                "image":null,"lastUpdateUser":null,"helpfeels":null,"accessed":null}]}"#;
    let ps = decode_page_set(body).unwrap();
    let p = &ps.pages[0];
    assert_eq!(p.image, None);
    assert_eq!(p.last_editor_id, None);
    assert_eq!(p.helpfeels, None);
    assert_eq!(p.accessed, None);
}

#[test]
fn missing_required_field_is_an_error() {
    let body = r#"{"projectName":"demo","skip":0,"limit":20,"count":1,
      "pages":[{"title":"Home","user":{"id":"u1"}}]}"#;
    assert!(decode_page_set(body).is_none());
}

#[test]
fn missing_top_level_field_is_an_error() {
    let body = r#"{"projectName":"demo","skip":0,"limit":20,"pages":[]}"#;
    assert!(decode_page_set(body).is_none());
}

#[test]
fn wrongly_shaped_optional_field_is_an_error_not_absence() {
    let body = r#"{"projectName":"demo","skip":0,"limit":20,"count":1,
      "pages":[{"id":"p1","title":"Home","user":{"id":"u1"},"pin":"high"}]}"#;
    assert!(decode_page_set(body).is_none());
}

#[test]
fn user_reference_without_id_is_an_error() {
    let body = r#"{"projectName":"demo","skip":0,"limit":20,"count":1,
      "pages":[{"id":"p1","title":"Home","user":{"name":"anon"}}]}"#;
    assert!(decode_page_set(body).is_none());
}

#[test]
fn empty_pages_array_is_a_valid_listing() {
    let body = r#"{"projectName":"demo","skip":0,"limit":20,"count":0,"pages":[]}"#;
    let ps = decode_page_set(body).unwrap();
    assert!(ps.pages.is_empty());
}

#[test]
fn string_escapes_decode() {
    let body = r#"{"projectName":"demo","skip":0,"limit":20,"count":1,
      "pages":[{"id":"p1","title":"Line\nBreak \"q\" A😀","user":{"id":"u1"}}]}"#;
    let ps = decode_page_set(body).unwrap();
    assert_eq!(ps.pages[0].title, "Line\nBreak \"q\" A\u{1F600}");
}

#[test]
fn raw_unicode_text_passes_through() {
    let body = r#"{"projectName":"デモ","skip":0,"limit":20,"count":0,"pages":[]}"#;
    let ps = decode_page_set(body).unwrap();
    assert_eq!(ps.project_name, "デモ");
}

#[test]
fn values_parse_to_the_expected_shapes() {
    let text = r#"[0, -7, 9223372036854775807, -9223372036854775808,
                   12345678901234567890123, 1.5, 2e10, true, false, null, "hey"]"#;
    let v = parse_json(&chars_of(text)).unwrap();
    let expected = JsonValue::Array(vec![
        JsonValue::Int(0),
        JsonValue::Int(-7),
        JsonValue::Int(i64::MAX),
        JsonValue::Int(i64::MIN),
        JsonValue::NonInt,
        JsonValue::NonInt,
        JsonValue::NonInt,
        JsonValue::Bool(true),
        JsonValue::Bool(false),
        JsonValue::Null,
        JsonValue::Text("hey".to_string()),
    ]);
    assert_eq!(v, expected);
}

#[test]
fn nested_objects_parse() {
    let text = r#"{ "a" : { "b" : [ {} , [] ] } }"#;
    let v = parse_json(&chars_of(text)).unwrap();
    let expected = JsonValue::Object(vec![(
        "a".to_string(),
        JsonValue::Object(vec![(
            "b".to_string(),
            JsonValue::Array(vec![JsonValue::Object(vec![]), JsonValue::Array(vec![])]),
        )]),
    )]);
    assert_eq!(v, expected);
}

#[test]
fn trailing_garbage_is_rejected() {
    assert_eq!(parse_json(&chars_of("true x")), None);
    assert_eq!(parse_json(&chars_of("{} {}")), None);
}

#[test]
fn ill_formed_texts_are_rejected() {
    assert_eq!(parse_json(&chars_of("")), None);
    assert_eq!(parse_json(&chars_of("tru")), None);
    assert_eq!(parse_json(&chars_of("\"unterminated")), None);
    assert_eq!(parse_json(&chars_of("[1,]")), None);
    assert_eq!(parse_json(&chars_of("{\"a\":}")), None);
    assert_eq!(parse_json(&chars_of("1.")), None);
    assert_eq!(parse_json(&chars_of("-")), None);
    assert_eq!(parse_json(&chars_of("\"bad \\q escape\"")), None);
}

#[test]
fn unicode_escapes_decode() {
    assert_eq!(
        parse_json(&chars_of(r#""\u0041\u00e9""#)),
        Some(JsonValue::Text("A\u{e9}".to_string()))
    );
    assert_eq!(
        parse_json(&chars_of(r#""\uD83D\uDE00""#)),
        Some(JsonValue::Text("\u{1F600}".to_string()))
    );
    assert_eq!(parse_json(&chars_of(r#""\uD83D""#)), None);
    assert_eq!(parse_json(&chars_of(r#""\uZZZZ""#)), None);
}

#[test]
fn surrounding_whitespace_is_ignored() {
    assert_eq!(parse_json(&chars_of("   42\n\t ")), Some(JsonValue::Int(42)));
}
