use twobobs::json::{Json, JsonNumber, JsonObject};

#[test]
fn values_are_read() {
    let v = Json::parse(" {\"a\": [true, null, \"x\", 3], \"b\": -1, \"a\": {\"c\": 2.5}} ").unwrap();
    let a = v.get("a").unwrap();
    assert!(a.as_array().is_none());
    assert!(a.get("c").unwrap().as_u64().is_none());
    assert!(v.get("b").unwrap().as_u64().is_none());
    assert!(v.get("z").is_none());
    assert_eq!(v.to_text(), "{\"a\":{\"c\":2.5},\"b\":-1}");
    assert!(Json::parse("").is_none());
    assert!(Json::parse("[1] 2").is_none());
    assert!(Json::parse("{'a':1}").is_none());
}

#[test]
fn items_and_members() {
    let v = Json::parse("[0, \"s\", [1]]").unwrap();
    let items = v.as_array().unwrap();
    assert_eq!(items.len(), 3);
    assert_eq!(items[0].as_u64(), Some(0));
    assert_eq!(items[1].as_str(), Some("s"));
    assert!(items[1].as_u64().is_none());
    assert!(items[0].as_str().is_none());
    assert!(v.get("0").is_none());
    assert_eq!(v.clone().to_text(), "[0,\"s\",[1]]");
}

#[test]
fn the_last_entry_of_a_key_counts() {
    let v = Json::Object(vec![
        ("k".to_string(), Json::Bool(false)),
        ("j".to_string(), Json::Null),
        ("k".to_string(), Json::Bool(true)),
    ]);
    assert_eq!(v.to_text(), "{\"j\":null,\"k\":true}");
    assert_eq!(v.get("k").unwrap().to_text(), "true");
    assert_eq!(v.clone().get("k").unwrap().to_text(), "true");
}

#[test]
fn objects_are_changed() {
    let mut object = JsonObject::new();
    object.insert("a", Json::Number(JsonNumber::Unsigned(1)));
    object.insert("b", Json::Number(JsonNumber::Unsigned(2)));
    object.insert("a", Json::Number(JsonNumber::Unsigned(3)));
    assert_eq!(object.remove("a").unwrap().as_u64(), Some(3));
    assert!(object.remove("a").is_none());
    object.insert("c", Json::Null);
    assert_eq!(object.into_json().to_text(), "{\"b\":2,\"c\":null}");
}

#[test]
fn text_reads_back() {
    let texts = [
        "null",
        "[[],{}]",
        "{\"\":\"\\\\ \\n \\u001f é 😀\"}",
        "[-9223372036854775808,18446744073709551615,0]",
    ];
    for t in texts {
        let v = Json::parse(t).unwrap();
        assert_eq!(Json::parse(&v.to_text()).unwrap().to_text(), v.to_text());
    }
    let deep = format!("{}{}", "[".repeat(127), "]".repeat(127));
    assert_eq!(Json::parse(&deep).unwrap().to_text(), deep);
    assert!(Json::parse(&format!("[{deep}]")).is_none());
}
