use neqst_core::json::{members_set, push_json_string, JsonNumber, JsonValue, ObjectBuilder};
use neqst_core::text::{decimal, hex_lower};

#[test]
fn member_lookup_finds_the_first_match() {
    let v = JsonValue::Object(vec![
        ("a".to_string(), JsonValue::Bool(true)),
        ("a".to_string(), JsonValue::Bool(false)),
    ]);
    assert_eq!(v.get("a"), Some(&JsonValue::Bool(true)));
    assert_eq!(v.get("b"), None);
    assert_eq!(JsonValue::Null.get("a"), None);
}

#[test]
fn setting_members_overwrites_or_appends() {
    let mut ms = vec![("a".to_string(), JsonValue::Null)];
    members_set(&mut ms, "a".to_string(), JsonValue::Bool(true));
    members_set(&mut ms, "b".to_string(), JsonValue::Bool(false));
    assert_eq!(
        ms,
        vec![("a".to_string(), JsonValue::Bool(true)), ("b".to_string(), JsonValue::Bool(false))]
    );
}

#[test]
fn number_accessors() {
    let big = JsonValue::Number(JsonNumber::PosInt(u64::MAX));
    assert_eq!(big.as_u64(), Some(u64::MAX));
    assert_eq!(big.as_i64(), None);
    assert_eq!(JsonValue::Number(JsonNumber::NegInt(-3)).as_i64(), Some(-3));
    assert_eq!(JsonValue::Number(JsonNumber::NegInt(-3)).as_u64(), None);
    assert_eq!(JsonValue::Bool(true).as_bool(), Some(true));
    assert_eq!(JsonValue::String("s".to_string()).as_str(), Some("s"));
}

#[test]
fn object_builder_keeps_order() {
    let mut b = ObjectBuilder::new();
    b.add("z", JsonValue::Null);
    b.add("a", JsonValue::Bool(true));
    assert_eq!(
        b.build(),
        JsonValue::Object(vec![("z".to_string(), JsonValue::Null), ("a".to_string(), JsonValue::Bool(true))])
    );
}

#[test]
fn json_string_escaping() {
    let mut out = String::new();
    push_json_string(&mut out, "a\"b\\c\n\t\u{1}é");
    assert_eq!(out, "\"a\\\"b\\\\c\\n\\t\\u0001é\"");
    assert_eq!(out, serde_json::to_string("a\"b\\c\n\t\u{1}é").unwrap());
}

#[test]
fn decimal_and_hex_renderings() {
    assert_eq!(decimal(0), "0");
    assert_eq!(decimal(1718000000), "1718000000");
    assert_eq!(decimal(u64::MAX), u64::MAX.to_string());
    assert_eq!(hex_lower(&[0x00, 0xab, 0x7f]), "00ab7f");
}
