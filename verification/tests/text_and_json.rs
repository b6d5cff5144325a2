//! Text primitives and the JSON document tree.
use unidpp_gateway::canonical::{canonical_json, commitment_material};
use unidpp_gateway::json::{compact_text, parse_json, put, put_text, text, text_or_null, Json};
use unidpp_gateway::text::{
    blank, contains_char, contains_text, decimal_text, hex16_text, parse_unsigned, replace_text, same,
    split_once, strip_prefix, strip_trailing, tail_after, trim,
};

#[test]
fn canonical_form_sorts_keys_and_strips_whitespace() {
    let v = parse_json(r#"{"b": 1, "a": ["x", 2], "c": {"z": true, "y": null}}"#).unwrap();
    assert_eq!(
        canonical_json(&v),
        r#"{"a":["x",2],"b":1,"c":{"y":null,"z":true}}"#
    );
}

#[test]
fn commitment_material_is_salt_colon_canonical() {
    let v = parse_json(r#"{"a": 1}"#).unwrap();
    assert_eq!(commitment_material(&v, "untp-import"), "untp-import:{\"a\":1}");
}

#[test]
fn commitment_material_differs_under_different_salts() {
    let v = parse_json(r#"{"subject": "urn:x"}"#).unwrap();
    assert_ne!(commitment_material(&v, "a"), commitment_material(&v, "b"));
}

#[test]
fn member_order_does_not_show_in_the_canonical_form() {
    let mut a: Vec<(String, Json)> = Vec::new();
    put_text(&mut a, "x", "1");
    put(&mut a, "y", Json::Unsigned(2));
    let mut b: Vec<(String, Json)> = Vec::new();
    put(&mut b, "y", Json::Unsigned(2));
    put_text(&mut b, "x", "1");
    assert_eq!(canonical_json(&Json::Object(a)), canonical_json(&Json::Object(b)));
}

#[test]
fn of_two_members_with_one_name_the_later_counts() {
    let mut members: Vec<(String, Json)> = Vec::new();
    put_text(&mut members, "k", "first");
    put_text(&mut members, "k", "second");
    let j = Json::Object(members);
    assert_eq!(j.str_at("k"), Some("second"));
    assert_eq!(compact_text(&j), r#"{"k":"second"}"#);
}

#[test]
fn documents_read_back_from_their_text() {
    let source = r#"{"n":-1.5,"s":"a\"b\n","u":18446744073709551615,"v":[null,true,{"k":[]}]}"#;
    let j = parse_json(source).unwrap();
    assert_eq!(compact_text(&j), source);
    assert_eq!(parse_json(&compact_text(&j)).unwrap(), j);
    assert_eq!(j.get("u").unwrap().as_u64(), Some(u64::MAX));
    assert_eq!(j.get("n").unwrap().as_u64(), None);
    assert_eq!(j.copy(), j);
    assert!(parse_json("{").is_err());
    assert!(parse_json("").unwrap_err().contains("EOF"));
}

#[test]
fn the_reserved_member_name_does_not_read_back() {
    let mut members: Vec<(String, Json)> = Vec::new();
    put_text(&mut members, "$serde_json::private::RawValue", "true");
    let j = Json::Object(members);
    let printed = compact_text(&j);
    assert_eq!(printed, r#"{"$serde_json::private::RawValue":"true"}"#);
    assert_ne!(parse_json(&printed).ok(), Some(j));
}

#[test]
fn read_members_stand_in_the_order_of_their_names() {
    match parse_json(r#"{"b": 1, "ä": 2, "a": 3, "B": 4, "ab": 5}"#).unwrap() {
        Json::Object(members) => {
            let names: Vec<&str> = members.iter().map(|m| m.0.as_str()).collect();
            assert_eq!(names, vec!["B", "a", "ab", "b", "ä"]);
        }
        other => panic!("no object: {other:?}"),
    }
}

#[test]
fn reading_members_of_what_is_no_object_finds_nothing() {
    assert!(text("x").get("k").is_none());
    assert!(text("x").as_array().is_none());
    assert!(Json::Null.as_str().is_none());
    assert!(!Json::Null.is_object());
    assert_eq!(text_or_null(&None), Json::Null);
    assert_eq!(text_or_null(&Some("a".to_string())), text("a"));
    let j = parse_json(r#"{"a": [1], "t": "x"}"#).unwrap();
    assert_eq!(j.array_at("a").unwrap().len(), 1);
    assert!(j.array_at("t").is_none());
    assert!(j.str_at("a").is_none());
}

#[test]
fn trimming_and_splitting() {
    assert_eq!(trim(" \t a b \n"), "a b");
    assert_eq!(trim("\u{a0}x\u{3000}"), "x");
    assert_eq!(trim("\u{feff}x"), "\u{feff}x");
    assert!(blank(" \r\n"));
    assert!(blank(""));
    assert!(!blank(" . "));
    assert_eq!(strip_trailing("a///", '/'), "a");
    assert_eq!(strip_trailing("///", '/'), "");
    assert_eq!(split_once("a@b@c", '@'), Some(("a".to_string(), "b@c".to_string())));
    assert_eq!(split_once("abc", '@'), None);
    assert_eq!(tail_after("urn:a:b", ':'), "b");
    assert_eq!(tail_after("abc", ':'), "abc");
    assert_eq!(tail_after("abc:", ':'), "");
    assert_eq!(strip_prefix("(01)9", "(01)"), Some("9".to_string()));
    assert_eq!(strip_prefix("(0", "(01)"), None);
}

#[test]
fn searching_and_replacing() {
    assert!(same("aä", "aä") && same("", ""));
    assert!(!same("ab", "ac") && !same("a", "ab"));
    assert!(contains_text("hmac-testmac-1", "testmac"));
    assert!(!contains_text("testma", "testmac"));
    assert!(contains_text("", ""));
    assert!(contains_char("a+b", '+'));
    assert!(!contains_char("ab", '+'));
    assert_eq!(replace_text("(10)a(10)(10", "(10)", "+10+"), "+10+a+10+(10");
    assert_eq!(replace_text("aaa", "aa", "b"), "ba");
}

#[test]
fn numbers_in_text() {
    assert_eq!(decimal_text(0), "0");
    assert_eq!(decimal_text(u64::MAX), "18446744073709551615");
    assert_eq!(hex16_text(0), "0000000000000000");
    assert_eq!(hex16_text(0xdead_beef), "00000000deadbeef");
    assert_eq!(hex16_text(u64::MAX), "ffffffffffffffff");
    assert_eq!(parse_unsigned("42", 100), Some(42));
    assert_eq!(parse_unsigned("+42", 100), Some(42));
    assert_eq!(parse_unsigned("0042", 100), Some(42));
    assert_eq!(parse_unsigned("101", 100), None);
    assert_eq!(parse_unsigned("", 100), None);
    assert_eq!(parse_unsigned("+", 100), None);
    assert_eq!(parse_unsigned("-1", 100), None);
    assert_eq!(parse_unsigned(" 1", 100), None);
    assert_eq!(parse_unsigned("18446744073709551616", u64::MAX), None);
    assert_eq!(parse_unsigned(&"9".repeat(80), u64::MAX), None);
}
