use voidweb::json::{read_json, JsonValue};

#[test]
fn objects_keep_members_sorted_and_get_finds_them() {
    let v = read_json(br#"{"b": 2, "a": "x", "c": [1, 2.5, -3, true, null]}"#).unwrap();
    let members = v.as_object().unwrap();
    let names: Vec<&str> = members.iter().map(|(k, _)| k.as_str()).collect();
    assert_eq!(names, vec!["a", "b", "c"]);
    assert_eq!(v.get("a").unwrap().as_str(), Some("x"));
    assert_eq!(v.get("b").unwrap().as_u64(), Some(2));
    assert!(v.get("z").is_none());
    let arr = v.get("c").unwrap().as_array().unwrap();
    assert_eq!(arr.len(), 5);
    assert_eq!(arr[0].as_u64(), Some(1));
    assert_eq!(arr[1].as_u64(), None);
    assert_eq!(arr[2].as_u64(), None);
    assert!(matches!(arr[3], JsonValue::Bool(true)));
    assert!(matches!(arr[4], JsonValue::Null));
}

#[test]
fn invalid_json_is_an_error() {
    assert!(read_json(b"{").is_none());
    assert!(read_json(b"").is_none());
    assert!(read_json(b"[1,]").is_none());
}

#[test]
fn accessors_refuse_other_kinds() {
    let v = read_json(b"[\"s\"]").unwrap();
    assert!(v.as_object().is_none());
    assert!(v.get("s").is_none());
    assert!(v.as_str().is_none());
    assert!(v.as_u64().is_none());
    assert!(v.as_array().unwrap()[0].as_array().is_none());
}
