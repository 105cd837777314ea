use geojson_geometry::text::str_eq;
use geojson_geometry::{Json, JsonObject, Number};

fn text(s: &str) -> Json {
    Json::String(s.to_string())
}

#[test]
fn new_object_is_empty() {
    let object = JsonObject::new();
    assert_eq!(object.len(), 0);
    assert!(object.members().is_empty());
    assert!(object.get("type").is_none());
}

#[test]
fn insert_appends_in_order() {
    let mut object = JsonObject::new();
    object.insert("b".to_string(), text("first"));
    object.insert("a".to_string(), text("second"));
    assert_eq!(object.len(), 2);
    assert_eq!(object.members()[0].0, "b");
    assert_eq!(object.members()[1].0, "a");
    assert_eq!(object.get("a"), Some(&text("second")));
    assert_eq!(object.get("b"), Some(&text("first")));
    assert_eq!(object.get("c"), None);
}

#[test]
fn insert_replaces_in_place() {
    let mut object = JsonObject::new();
    object.insert("x".to_string(), Json::Bool(true));
    object.insert("y".to_string(), Json::Null);
    object.insert("x".to_string(), Json::Bool(false));
    assert_eq!(object.len(), 2);
    assert_eq!(object.members()[0], ("x".to_string(), Json::Bool(false)));
    assert_eq!(object.members()[1], ("y".to_string(), Json::Null));
    assert_eq!(object.get("x"), Some(&Json::Bool(false)));
}

#[test]
fn get_tells_keys_apart() {
    let mut object = JsonObject::new();
    object.insert("type".to_string(), text("Point"));
    assert!(object.get("typ").is_none());
    assert!(object.get("types").is_none());
    assert!(object.get("Type").is_none());
    assert!(object.get("").is_none());
    assert!(object.get("type").is_some());
}

#[test]
fn str_eq_compares_characters() {
    assert!(str_eq("", ""));
    assert!(str_eq("Point", "Point"));
    assert!(!str_eq("Point", "point"));
    assert!(!str_eq("Point", "Points"));
    assert!(!str_eq("Points", "Point"));
    assert!(str_eq("g\u{e9}om\u{e9}trie", "g\u{e9}om\u{e9}trie"));
    assert!(!str_eq("g\u{e9}o", "geo"));
}

#[test]
fn accessors_pick_their_variant() {
    let number = Json::Number(Number::from_bits(7));
    let string = text("s");
    let array = Json::Array(vec![Json::Null]);
    let object = Json::Object(JsonObject::new());

    assert_eq!(number.as_number(), Some(Number::from_bits(7)));
    assert_eq!(string.as_number(), None);
    assert_eq!(Json::Null.as_number(), None);

    assert_eq!(string.as_string(), Some("s"));
    assert_eq!(number.as_string(), None);

    assert_eq!(array.as_array(), Some(&vec![Json::Null]));
    assert_eq!(object.as_array(), None);

    assert_eq!(object.as_object(), Some(&JsonObject::new()));
    assert_eq!(array.as_object(), None);
    assert_eq!(Json::Bool(true).as_object(), None);
}

#[test]
fn clone_copies_deeply() {
    let mut inner = JsonObject::new();
    inner.insert("k".to_string(), Json::Array(vec![Json::Number(Number::from_bits(1)), text("t")]));
    let mut outer = JsonObject::new();
    outer.insert("inner".to_string(), Json::Object(inner));
    outer.insert("flag".to_string(), Json::Bool(true));
    let copy = outer.clone();
    assert_eq!(copy, outer);
    let value = Json::Object(outer);
    assert_eq!(value.clone(), value);
}

#[test]
fn number_keeps_its_bits() {
    let x = 1.1f64;
    let n = Number::from_bits(x.to_bits());
    assert_eq!(n.to_bits(), x.to_bits());
    assert_eq!(f64::from_bits(n.to_bits()), 1.1);
    assert_ne!(Number::from_bits(0), Number::from_bits(1));
}
