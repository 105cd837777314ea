use geojson_geometry::{Error, Geometry, Json, JsonObject, Number, Value};
use rustc_serialize::json;
use std::collections::BTreeMap;

fn num(x: f64) -> Number {
    Number::from_bits(x.to_bits())
}

fn to_outside(value: &Json) -> json::Json {
    match value {
        Json::Null => json::Json::Null,
        Json::Bool(b) => json::Json::Boolean(*b),
        Json::Number(n) => json::Json::F64(f64::from_bits(n.to_bits())),
        Json::String(s) => json::Json::String(s.clone()),
        Json::Array(items) => json::Json::Array(items.iter().map(to_outside).collect()),
        Json::Object(object) => json::Json::Object(object_to_outside(object)),
    }
}

fn object_to_outside(object: &JsonObject) -> json::Object {
    let mut map = BTreeMap::new();
    for (key, value) in object.members() {
        map.insert(key.clone(), to_outside(value));
    }
    map
}

fn from_outside(value: &json::Json) -> Json {
    match value {
        json::Json::Null => Json::Null,
        json::Json::Boolean(b) => Json::Bool(*b),
        json::Json::I64(_) | json::Json::U64(_) | json::Json::F64(_) => {
            Json::Number(num(value.as_f64().unwrap()))
        }
        json::Json::String(s) => Json::String(s.clone()),
        json::Json::Array(items) => Json::Array(items.iter().map(from_outside).collect()),
        json::Json::Object(map) => Json::Object(object_from_outside(map)),
    }
}

fn object_from_outside(map: &json::Object) -> JsonObject {
    let mut object = JsonObject::new();
    for (key, value) in map {
        object.insert(key.clone(), from_outside(value));
    }
    object
}

fn encode(geometry: &Geometry) -> String {
    json::encode(&to_outside(&geometry.to_json())).unwrap()
}

fn decode(json_string: String) -> Result<Geometry, Error> {
    let parsed = json::Json::from_str(&json_string).unwrap();
    let object = object_from_outside(parsed.as_object().unwrap());
    Geometry::from_object(&object)
}

#[test]
fn encode_decode_geometry() {
    let geometry_json_str = "{\"coordinates\":[1.1,2.1],\"type\":\"Point\"}";
    let geometry = Geometry {
        value: Value::Point(vec![num(1.1), num(2.1)]),
        crs: None,
        bbox: None,
    };

    // Test encode
    let json_string = encode(&geometry);
    assert_eq!(json_string, geometry_json_str);

    // Test decode
    let decoded_geometry = match decode(json_string) {
        Ok(g) => g,
        _ => unreachable!(),
    };
    assert_eq!(decoded_geometry, geometry);
}

#[test]
fn text_keeps_bbox_and_leaves_crs_out() {
    let geometry = Geometry {
        value: Value::LineString(vec![vec![num(0.0), num(0.5)], vec![num(10.0), num(-3.25)]]),
        crs: None,
        bbox: Some(vec![num(0.0), num(-3.25), num(10.0), num(0.5)]),
    };
    let text = encode(&geometry);
    assert_eq!(
        text,
        "{\"bbox\":[0.0,-3.25,10.0,0.5],\"coordinates\":[[0.0,0.5],[10.0,-3.25]],\"type\":\"LineString\"}"
    );
    assert!(!text.contains("crs"));
    assert!(!text.contains("null"));
    assert_eq!(decode(text), Ok(geometry));
}

#[test]
fn text_round_trip_with_crs() {
    let mut properties = JsonObject::new();
    properties.insert("name".to_string(), Json::String("EPSG:4326".to_string()));
    let mut crs = JsonObject::new();
    crs.insert("properties".to_string(), Json::Object(properties));
    crs.insert("type".to_string(), Json::String("name".to_string()));
    let geometry = Geometry {
        value: Value::Point(vec![num(100.0), num(0.0)]),
        crs: Some(crs),
        bbox: None,
    };
    let text = encode(&geometry);
    assert_eq!(
        text,
        "{\"coordinates\":[100.0,0.0],\"crs\":{\"properties\":{\"name\":\"EPSG:4326\"},\"type\":\"name\"},\"type\":\"Point\"}"
    );
    assert_eq!(decode(text), Ok(geometry));
}

#[test]
fn text_round_trip_nested_collection() {
    let inner = Geometry::new(Value::GeometryCollection(vec![
        Geometry::new(Value::Point(vec![num(1.0), num(2.0), num(3.0)])),
        Geometry::new(Value::MultiPoint(vec![vec![num(4.0), num(5.0)]])),
    ]));
    let outer = Geometry::new(Value::GeometryCollection(vec![
        Geometry::new(Value::Polygon(vec![vec![
            vec![num(0.0), num(0.0)],
            vec![num(1.0), num(0.0)],
            vec![num(1.0), num(1.0)],
            vec![num(0.0), num(0.0)],
        ]])),
        inner,
        Geometry::new(Value::LineString(vec![])),
    ]));
    let text = encode(&outer);
    assert_eq!(
        text,
        "{\"geometries\":[{\"coordinates\":[[[0.0,0.0],[1.0,0.0],[1.0,1.0],[0.0,0.0]]],\"type\":\"Polygon\"},{\"geometries\":[{\"coordinates\":[1.0,2.0,3.0],\"type\":\"Point\"},{\"coordinates\":[[4.0,5.0]],\"type\":\"MultiPoint\"}],\"type\":\"GeometryCollection\"},{\"coordinates\":[],\"type\":\"LineString\"}],\"type\":\"GeometryCollection\"}"
    );
    assert_eq!(decode(text), Ok(outer));
}

#[test]
fn text_with_unknown_type_is_refused() {
    let text = "{\"type\":\"Circle\",\"coordinates\":[1.0,2.0]}".to_string();
    assert_eq!(decode(text), Err(Error::UnknownType));
}

#[test]
fn text_without_type_is_refused() {
    let text = "{\"coordinates\":[1.0,2.0]}".to_string();
    assert_eq!(decode(text), Err(Error::InvalidTypeField));
}

#[test]
fn text_point_of_wrong_depth_is_refused() {
    let text = "{\"type\":\"Point\",\"coordinates\":[[1.0,2.0],[3.0,4.0]]}".to_string();
    assert_eq!(decode(text), Err(Error::MalformedCoordinates));
}

#[test]
fn text_integers_are_numbers() {
    let text = "{\"type\":\"Point\",\"coordinates\":[1,-2]}".to_string();
    let expected = Geometry::new(Value::Point(vec![num(1.0), num(-2.0)]));
    assert_eq!(decode(text), Ok(expected));
}

#[test]
fn text_null_metadata_is_refused() {
    let bbox = "{\"type\":\"Point\",\"coordinates\":[1.0,2.0],\"bbox\":null}".to_string();
    assert_eq!(decode(bbox), Err(Error::MalformedBbox));
    let crs = "{\"type\":\"Point\",\"coordinates\":[1.0,2.0],\"crs\":null}".to_string();
    assert_eq!(decode(crs), Err(Error::MalformedCrs));
}
