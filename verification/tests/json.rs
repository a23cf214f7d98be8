use in_the_loop::json::Metadata;

#[test]
fn metadata_reads_members() {
    let doc = Metadata::from_json(
        r#"{"owner":"x","count":3,"big":18446744073709551615,"flag":true,"cost":1.5,"data":{"toolName":"ask_user"},"none":null}"#,
    )
    .unwrap();
    assert_eq!(doc.get_str("owner"), Some("x".to_string()));
    assert_eq!(doc.get_str("count"), None);
    assert_eq!(doc.get_i64("count"), Some(3));
    assert_eq!(doc.get_i64("big"), None);
    assert_eq!(doc.get_i64("cost"), None);
    assert_eq!(doc.get_bool("flag"), Some(true));
    assert_eq!(doc.get_bool("owner"), None);
    assert_eq!(doc.get_str("missing"), None);
    assert!(doc.contains_key("none"));
    assert!(!doc.contains_key("missing"));
    let data = doc.get_object("data").unwrap();
    assert_eq!(data.get_str("toolName"), Some("ask_user".to_string()));
    assert!(doc.get_object("owner").is_none());
}

#[test]
fn metadata_is_always_an_object() {
    assert!(Metadata::from_json("[1,2]").is_none());
    assert!(Metadata::from_json("\"text\"").is_none());
    assert!(Metadata::from_json("not json").is_none());
    assert!(Metadata::from_json("").is_none());
    assert!(Metadata::is_json("[1,2]"));
    assert!(!Metadata::is_json("not json"));
    let empty = Metadata::from_json_or_empty("not json");
    assert_eq!(empty.to_json().ok().unwrap(), "{}");
    let kept = Metadata::from_json_or_empty(r#"{"a":1}"#);
    assert_eq!(kept.get_i64("a"), Some(1));
}

#[test]
fn metadata_writes_members() {
    let mut doc = Metadata::new();
    doc.insert_str("s", "text");
    doc.insert_i64("i", -4);
    doc.insert_u64("u", 18446744073709551615);
    doc.insert_bool("b", false);
    doc.insert_null("n");
    doc.insert_opt_str("some", &Some("x".to_string()));
    doc.insert_opt_str("nothing", &None);
    assert!(doc.insert_json("cost", "0.25"));
    assert!(!doc.insert_json("bad", "{"));
    let mut inner = Metadata::new();
    inner.insert_str("ts", "1");
    doc.insert_objects("list", vec![inner, Metadata::new()]);
    assert_eq!(
        doc.to_json().ok().unwrap(),
        r#"{"b":false,"cost":0.25,"i":-4,"list":[{"ts":"1"},{}],"n":null,"nothing":null,"s":"text","some":"x","u":18446744073709551615}"#
    );
    assert_eq!(doc.get_i64("i"), Some(-4));
    assert_eq!(doc.get_i64("u"), None);
    doc.insert_str("i", "now a text");
    assert_eq!(doc.get_i64("i"), None);
    assert_eq!(doc.get_str("i"), Some("now a text".to_string()));
}

#[test]
fn metadata_merge_prefers_the_newcomer() {
    let mut doc = Metadata::from_json(r#"{"a":1,"b":"old"}"#).unwrap();
    let other = Metadata::from_json(r#"{"b":"new","c":true}"#).unwrap();
    doc.merge(&other);
    assert_eq!(doc.to_json().ok().unwrap(), r#"{"a":1,"b":"new","c":true}"#);
    assert_eq!(other.get_str("b"), Some("new".to_string()));
    let copy = doc.clone();
    assert_eq!(copy.to_json().ok().unwrap(), doc.to_json().ok().unwrap());
}
