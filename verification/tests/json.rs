use mcp_stdio_rs::Json;
use serde_json::Value;

#[test]
fn documents_become_trees() {
    let json = Json::parse(r#" {"b":[1,-2,2.5,null,true],"a":{"s":"x\u0041\n"}} "#).unwrap();
    let list = json.get("b").unwrap().as_array().unwrap();
    assert_eq!(list.len(), 5);
    match &list[0] {
        Json::Number { unsigned, signed, text } => {
            assert_eq!((*unsigned, *signed, text.as_str()), (Some(1), Some(1), "1"))
        }
        other => panic!("{other:?}"),
    }
    match &list[1] {
        Json::Number { unsigned, signed, text } => {
            assert_eq!((*unsigned, *signed, text.as_str()), (None, Some(-2), "-2"))
        }
        other => panic!("{other:?}"),
    }
    match &list[2] {
        Json::Number { unsigned, signed, text } => {
            assert_eq!((*unsigned, *signed, text.as_str()), (None, None, "2.5"))
        }
        other => panic!("{other:?}"),
    }
    assert!(matches!(list[3], Json::Null));
    assert_eq!(list[4].as_bool(), Some(true));
    assert_eq!(json.get("a").unwrap().get_str("s"), Some("xA\n"));
}

#[test]
fn numbers_at_the_bounds() {
    let bounds = [
        ("18446744073709551615", Some(u64::MAX), None),
        ("9223372036854775807", Some(i64::MAX as u64), Some(i64::MAX)),
        ("-9223372036854775808", None, Some(i64::MIN)),
    ];
    for (written, natural, integer) in bounds {
        match Json::parse(written).unwrap() {
            Json::Number { unsigned, signed, text } => {
                assert_eq!((unsigned, signed, text.as_str()), (natural, integer, written))
            }
            other => panic!("{other:?}"),
        }
    }
}

#[test]
fn what_is_not_json_is_refused_in_the_parser_s_words() {
    let wording = Json::parse("{\"a\":").unwrap_err();
    let expected = serde_json::from_str::<Value>("{\"a\":").unwrap_err().to_string();
    assert_eq!(wording, expected);
    assert!(Json::parse("").is_err());
    assert!(Json::parse("{} {}").is_err());
}

#[test]
fn members_are_found_by_name() {
    let json = Json::Object(vec![
        ("k".to_string(), Json::Bool(false)),
        ("other".to_string(), Json::Null),
        ("k".to_string(), Json::Bool(true)),
    ]);
    assert_eq!(json.get("k").unwrap().as_bool(), Some(true));
    assert!(json.get("K").is_none());
    assert!(Json::Array(vec![]).get("k").is_none());
    assert!(json.get_str("k").is_none());
    assert!(json.as_str().is_none());
    assert!(json.as_bool().is_none());
    assert!(json.as_array().is_none());
}

#[test]
fn nested_documents_keep_their_shape() {
    let text = "[".repeat(100) + "7" + &"]".repeat(100);
    let value: Value = serde_json::from_str(&text).unwrap();
    let mut json = &Json::from_value(value);
    for _ in 0..100 {
        json = &json.as_array().unwrap()[0];
    }
    assert!(matches!(json, Json::Number { unsigned: Some(7), .. }));
}
