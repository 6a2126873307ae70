use melatonin_bot::alert::parse_alert_bytes;
use melatonin_bot::json::ParseError;

fn bytes(s: &str) -> Vec<u8> {
    s.as_bytes().to_vec()
}

#[test]
fn decodes_valid_body() {
    let b = bytes(r#"{"from":"sensor-1","theme":"cpu","text":"load high"}"#);
    let a = parse_alert_bytes(&b).unwrap();
    assert_eq!(a.from, "sensor-1");
    assert_eq!(a.theme, "cpu");
    assert_eq!(a.text, "load high");
}

#[test]
fn decodes_with_whitespace_and_reordered_members() {
    let b = bytes(" {\n \"text\" : \"t\" ,\t\"from\" : \"f\", \"theme\":\"th\" } \r\n");
    let a = parse_alert_bytes(&b).unwrap();
    assert_eq!(a.from, "f");
    assert_eq!(a.theme, "th");
    assert_eq!(a.text, "t");
}

#[test]
fn identical_bodies_decode_identically() {
    let b1 = bytes(r#"{"from":"a","theme":"b","text":"c"}"#);
    let b2 = bytes(r#"{"from":"a","theme":"b","text":"c"}"#);
    assert_eq!(parse_alert_bytes(&b1), parse_alert_bytes(&b2));
    let m1 = bytes("not json");
    let m2 = bytes("not json");
    assert_eq!(parse_alert_bytes(&m1), parse_alert_bytes(&m2));
}

#[test]
fn missing_text_member_is_rejected() {
    let b = bytes(r#"{"from":"a","theme":"b"}"#);
    assert_eq!(parse_alert_bytes(&b), Err(ParseError::MissingField));
}

#[test]
fn empty_object_is_rejected() {
    let b = bytes("{}");
    assert_eq!(parse_alert_bytes(&b), Err(ParseError::MissingField));
}

#[test]
fn non_json_body_is_rejected() {
    assert_eq!(parse_alert_bytes(&bytes("garbage")), Err(ParseError::Malformed));
    assert_eq!(parse_alert_bytes(&bytes("")), Err(ParseError::Malformed));
    assert_eq!(parse_alert_bytes(&bytes("{\"from\":")), Err(ParseError::Malformed));
}

#[test]
fn non_object_body_is_rejected() {
    assert_eq!(parse_alert_bytes(&bytes("[1, 2]")), Err(ParseError::NotAnObject));
    assert_eq!(parse_alert_bytes(&bytes("\"text\"")), Err(ParseError::NotAnObject));
    assert_eq!(parse_alert_bytes(&bytes("42")), Err(ParseError::NotAnObject));
}

#[test]
fn duplicate_alert_member_is_rejected() {
    let b = bytes(r#"{"from":"a","from":"b","theme":"c","text":"d"}"#);
    assert_eq!(parse_alert_bytes(&b), Err(ParseError::DuplicateField));
}

#[test]
fn non_string_alert_member_is_rejected() {
    let b = bytes(r#"{"from":1,"theme":"b","text":"c"}"#);
    assert_eq!(parse_alert_bytes(&b), Err(ParseError::WrongFieldType));
    let b2 = bytes(r#"{"from":"a","theme":"b","text":{"x":1}}"#);
    assert_eq!(parse_alert_bytes(&b2), Err(ParseError::WrongFieldType));
}

#[test]
fn unknown_members_are_ignored() {
    let b = bytes(
        r#"{"from":"a","level":3.5e-2,"flags":[true,false,null],"extra":{"deep":[{"x":"y"}]},"theme":"b","text":"c","level":7}"#,
    );
    let a = parse_alert_bytes(&b).unwrap();
    assert_eq!(a.from, "a");
    assert_eq!(a.theme, "b");
    assert_eq!(a.text, "c");
}

#[test]
fn trailing_characters_are_rejected() {
    let b = bytes(r#"{"from":"a","theme":"b","text":"c"} x"#);
    assert_eq!(parse_alert_bytes(&b), Err(ParseError::Malformed));
}

#[test]
fn string_escapes_are_decoded() {
    let b = bytes(r#"{"from":"a\nb","theme":"q\"\\\/","text":"A\té"}"#);
    let a = parse_alert_bytes(&b).unwrap();
    assert_eq!(a.from, "a\nb");
    assert_eq!(a.theme, "q\"\\/");
    assert_eq!(a.text, "A\t\u{e9}");
}

#[test]
fn surrogate_pair_escape_is_decoded() {
    let b = bytes(r#"{"from":"f","theme":"t","text":"\ud83d\ude00"}"#);
    let a = parse_alert_bytes(&b).unwrap();
    assert_eq!(a.text, "\u{1F600}");
}

#[test]
fn lone_surrogate_escape_is_rejected() {
    let b = bytes(r#"{"from":"f","theme":"t","text":"\ud83d"}"#);
    assert_eq!(parse_alert_bytes(&b), Err(ParseError::Malformed));
    let b2 = bytes(r#"{"from":"f","theme":"t","text":"\ude00x"}"#);
    assert_eq!(parse_alert_bytes(&b2), Err(ParseError::Malformed));
}

#[test]
fn bad_escape_and_control_chars_are_rejected() {
    let b = bytes(r#"{"from":"f","theme":"t","text":"\q"}"#);
    assert_eq!(parse_alert_bytes(&b), Err(ParseError::Malformed));
    let b2 = bytes("{\"from\":\"f\",\"theme\":\"t\",\"text\":\"a\nb\"}");
    assert_eq!(parse_alert_bytes(&b2), Err(ParseError::Malformed));
}

#[test]
fn non_utf8_body_is_rejected() {
    let b = vec![0x7b, 0xff, 0xfe, 0x7d];
    assert_eq!(parse_alert_bytes(&b), Err(ParseError::Malformed));
}

#[test]
fn multibyte_text_is_kept() {
    let b = bytes("{\"from\":\"f\",\"theme\":\"t\",\"text\":\"h\u{e9}llo \u{1F600}\"}");
    let a = parse_alert_bytes(&b).unwrap();
    assert_eq!(a.text, "h\u{e9}llo \u{1f600}");
}

#[test]
fn number_syntax_in_ignored_members() {
    let ok = bytes(r#"{"n":-0.5e+10,"from":"a","theme":"b","text":"c"}"#);
    assert!(parse_alert_bytes(&ok).is_ok());
    let bad = bytes(r#"{"n":01,"from":"a","theme":"b","text":"c"}"#);
    assert_eq!(parse_alert_bytes(&bad), Err(ParseError::Malformed));
    let bad2 = bytes(r#"{"n":1.,"from":"a","theme":"b","text":"c"}"#);
    assert_eq!(parse_alert_bytes(&bad2), Err(ParseError::Malformed));
}
