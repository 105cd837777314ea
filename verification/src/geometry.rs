//! Geometries: the seven shapes, their optional metadata, and the mapping
//! between a geometry and the JSON object that encodes it.

use crate::coords::{
    position_json, position_to_json, positions_1d_json, positions_1d_to_json, positions_2d_json,
    positions_2d_to_json, positions_3d_json, positions_3d_to_json, Position,
};
use crate::error::Error;
use crate::extract::{
    bbox_of, coords_1d_pos, coords_2d_pos, coords_3d_pos, coords_one_pos, crs_of, expect_type,
    get_bbox, get_coords_1d_pos, get_coords_2d_pos, get_coords_3d_pos, get_coords_one_pos, get_crs,
    type_of,
};
use crate::json::{
    array_view, lemma_insert_absent, lookup, position_of, Json, JsonObject, JsonView, ObjectView,
};
use crate::number::Number;
use crate::text::str_eq;
use vstd::prelude::*;

verus! {

/// The coordinates of a point.
pub type PointType = Position;

/// The coordinates of a line string.
pub type LineStringType = Vec<Position>;

/// The coordinates of a polygon: its rings, the exterior one first.
pub type PolygonType = Vec<Vec<Position>>;

/// A bounding box: minima and maxima along each axis.
pub type Bbox = Vec<Number>;

/// A coordinate reference system, kept as the JSON object that describes it.
pub type Crs = JsonObject;

/// The shape of a geometry.
#[derive(Debug, PartialEq)]
pub enum Value {
    Point(PointType),
    MultiPoint(Vec<PointType>),
    LineString(LineStringType),
    MultiLineString(Vec<LineStringType>),
    Polygon(PolygonType),
    MultiPolygon(Vec<PolygonType>),
    GeometryCollection(Vec<Geometry>),
}

/// A shape together with its optional bounding box and coordinate reference
/// system.
#[derive(Debug, PartialEq)]
pub struct Geometry {
    pub bbox: Option<Bbox>,
    pub value: Value,
    pub crs: Option<Crs>,
}

/// The mathematical content of a `Value`.
pub enum ValueView {
    Point(Seq<Number>),
    MultiPoint(Seq<Seq<Number>>),
    LineString(Seq<Seq<Number>>),
    MultiLineString(Seq<Seq<Seq<Number>>>),
    Polygon(Seq<Seq<Seq<Number>>>),
    MultiPolygon(Seq<Seq<Seq<Seq<Number>>>>),
    GeometryCollection(Seq<GeometryView>),
}

/// The mathematical content of a `Geometry`.
pub struct GeometryView {
    pub bbox: Option<Seq<Number>>,
    pub value: ValueView,
    pub crs: Option<ObjectView>,
}

/// The contents of a list of geometries, in order.
pub open spec fn geometries_view(geometries: Vec<Geometry>) -> Seq<GeometryView>
    decreases geometries,
{
    Seq::new(
        geometries.len() as nat,
        |i: int|
            if 0 <= i < geometries.len() {
                geometries[i].view()
            } else {
                arbitrary()
            },
    )
}

impl View for Value {
    type V = ValueView;

    open spec fn view(&self) -> ValueView
        decreases self,
    {
        match self {
            Value::Point(p) => ValueView::Point(p.deep_view()),
            Value::MultiPoint(p) => ValueView::MultiPoint(p.deep_view()),
            Value::LineString(p) => ValueView::LineString(p.deep_view()),
            Value::MultiLineString(p) => ValueView::MultiLineString(p.deep_view()),
            Value::Polygon(p) => ValueView::Polygon(p.deep_view()),
            Value::MultiPolygon(p) => ValueView::MultiPolygon(p.deep_view()),
            Value::GeometryCollection(g) => ValueView::GeometryCollection(geometries_view(*g)),
        }
    }
}

impl View for Geometry {
    type V = GeometryView;

    open spec fn view(&self) -> GeometryView
        decreases self,
    {
        GeometryView {
            bbox: self.bbox.deep_view(),
            value: self.value.view(),
            crs: match self.crs {
                Some(crs) => Some(crs@),
                None => None,
            },
        }
    }
}

/// The discriminator string of a shape.
pub open spec fn shape_name(value: ValueView) -> Seq<char> {
    match value {
        ValueView::Point(_) => "Point"@,
        ValueView::MultiPoint(_) => "MultiPoint"@,
        ValueView::LineString(_) => "LineString"@,
        ValueView::MultiLineString(_) => "MultiLineString"@,
        ValueView::Polygon(_) => "Polygon"@,
        ValueView::MultiPolygon(_) => "MultiPolygon"@,
        ValueView::GeometryCollection(_) => "GeometryCollection"@,
    }
}

/// The key under which a shape's payload is stored.
pub open spec fn payload_key(value: ValueView) -> Seq<char> {
    match value {
        ValueView::GeometryCollection(_) => "geometries"@,
        _ => "coordinates"@,
    }
}

/// The JSON objects of a list of geometries, in order.
pub open spec fn geometries_json(geometries: Seq<GeometryView>) -> Seq<JsonView>
    decreases geometries,
{
    Seq::new(
        geometries.len(),
        |i: int|
            if 0 <= i < geometries.len() {
                JsonView::Object(geometry_object(geometries[i]))
            } else {
                JsonView::Null
            },
    )
}

/// The JSON form of a shape's payload: nested arrays of numbers, or, for a
/// collection, the array of its geometries' objects.
pub open spec fn value_json(value: ValueView) -> JsonView
    decreases value,
{
    match value {
        ValueView::Point(p) => position_json(p),
        ValueView::MultiPoint(p) => positions_1d_json(p),
        ValueView::LineString(p) => positions_1d_json(p),
        ValueView::MultiLineString(p) => positions_2d_json(p),
        ValueView::Polygon(p) => positions_2d_json(p),
        ValueView::MultiPolygon(p) => positions_3d_json(p),
        ValueView::GeometryCollection(g) => JsonView::Array(geometries_json(g)),
    }
}

/// The members that carry a geometry's metadata: `crs`, then `bbox`, each
/// only when present.
pub open spec fn metadata_members(
    bbox: Option<Seq<Number>>,
    crs: Option<ObjectView>,
) -> ObjectView {
    let crs_members = match crs {
        Some(c) => seq![("crs"@, JsonView::Object(c))],
        None => Seq::empty(),
    };
    let bbox_members = match bbox {
        Some(b) => seq![("bbox"@, position_json(b))],
        None => Seq::empty(),
    };
    crs_members + bbox_members
}

/// The JSON object of a geometry: `crs` and `bbox` when present, then `type`,
/// then the payload.
pub open spec fn geometry_object(geometry: GeometryView) -> ObjectView
    decreases geometry,
{
    metadata_members(geometry.bbox, geometry.crs).push(
        ("type"@, JsonView::String(shape_name(geometry.value))),
    ).push((payload_key(geometry.value), value_json(geometry.value)))
}

/// The geometries that the elements of a `geometries` array encode. Each
/// element must be an object that is a geometry; the first element that is
/// not decides the error.
pub open spec fn parse_members(items: Seq<JsonView>) -> Result<Seq<GeometryView>, Error>
    decreases items, 0int,
{
    if items.len() == 0 {
        Ok(Seq::empty())
    } else {
        match parse_members(items.drop_last()) {
            Err(e) => Err(e),
            Ok(geometries) => match items.last() {
                JsonView::Object(members) => match parse_object(members) {
                    Ok(geometry) => Ok(geometries.push(geometry)),
                    Err(e) => Err(e),
                },
                _ => Err(Error::MalformedCoordinates),
            },
        }
    }
}

/// The geometries of the `geometries` member, which must be present and an
/// array.
pub open spec fn geometries_of(members: ObjectView) -> Result<Seq<GeometryView>, Error>
    decreases members, 0int,
{
    match lookup(members, "geometries"@) {
        Some(JsonView::Array(items)) => parse_members(items),
        _ => Err(Error::MalformedCoordinates),
    }
}

/// The shape that an object whose `type` is `name` encodes.
pub open spec fn parse_value(members: ObjectView, name: Seq<char>) -> Result<ValueView, Error>
    decreases members, 1int,
{
    if name == "Point"@ {
        match coords_one_pos(members) {
            Ok(p) => Ok(ValueView::Point(p)),
            Err(e) => Err(e),
        }
    } else if name == "MultiPoint"@ {
        match coords_1d_pos(members) {
            Ok(p) => Ok(ValueView::MultiPoint(p)),
            Err(e) => Err(e),
        }
    } else if name == "LineString"@ {
        match coords_1d_pos(members) {
            Ok(p) => Ok(ValueView::LineString(p)),
            Err(e) => Err(e),
        }
    } else if name == "MultiLineString"@ {
        match coords_2d_pos(members) {
            Ok(p) => Ok(ValueView::MultiLineString(p)),
            Err(e) => Err(e),
        }
    } else if name == "Polygon"@ {
        match coords_2d_pos(members) {
            Ok(p) => Ok(ValueView::Polygon(p)),
            Err(e) => Err(e),
        }
    } else if name == "MultiPolygon"@ {
        match coords_3d_pos(members) {
            Ok(p) => Ok(ValueView::MultiPolygon(p)),
            Err(e) => Err(e),
        }
    } else if name == "GeometryCollection"@ {
        match geometries_of(members) {
            Ok(g) => Ok(ValueView::GeometryCollection(g)),
            Err(e) => Err(e),
        }
    } else {
        Err(Error::UnknownType)
    }
}

/// The geometry that a JSON object encodes, or the first reason why it
/// encodes none: the discriminator is checked first, then the payload, then
/// the bounding box, then the coordinate reference system.
pub open spec fn parse_object(members: ObjectView) -> Result<GeometryView, Error>
    decreases members, 2int,
{
    match type_of(members) {
        Err(e) => Err(e),
        Ok(name) => match parse_value(members, name) {
            Err(e) => Err(e),
            Ok(value) => match bbox_of(members) {
                Err(e) => Err(e),
                Ok(bbox) => match crs_of(members) {
                    Err(e) => Err(e),
                    Ok(crs) => Ok(GeometryView { bbox, value, crs }),
                },
            },
        },
    }
}

/// The five member keys of a geometry object are pairwise different.
pub proof fn lemma_member_keys_differ()
    ensures
        "crs"@ != "bbox"@,
        "crs"@ != "type"@,
        "crs"@ != "coordinates"@,
        "crs"@ != "geometries"@,
        "bbox"@ != "type"@,
        "bbox"@ != "coordinates"@,
        "bbox"@ != "geometries"@,
        "type"@ != "coordinates"@,
        "type"@ != "geometries"@,
        "coordinates"@ != "geometries"@,
{
    reveal_strlit("crs");
    reveal_strlit("bbox");
    reveal_strlit("type");
    reveal_strlit("coordinates");
    reveal_strlit("geometries");
    assert("crs"@.len() == 3);
    assert("bbox"@.len() == 4);
    assert("type"@.len() == 4);
    assert("coordinates"@.len() == 11);
    assert("geometries"@.len() == 10);
    assert("bbox"@[0] != "type"@[0]);
}

/// Whether two values are of the same shape.
pub open spec fn same_shape(a: ValueView, b: ValueView) -> bool {
    match a {
        ValueView::Point(_) => b is Point,
        ValueView::MultiPoint(_) => b is MultiPoint,
        ValueView::LineString(_) => b is LineString,
        ValueView::MultiLineString(_) => b is MultiLineString,
        ValueView::Polygon(_) => b is Polygon,
        ValueView::MultiPolygon(_) => b is MultiPolygon,
        ValueView::GeometryCollection(_) => b is GeometryCollection,
    }
}

/// The seven discriminator strings are pairwise different: two values have
/// the same discriminator exactly when they are of the same shape.
pub proof fn lemma_shape_names_differ(a: ValueView, b: ValueView)
    ensures
        shape_name(a) == shape_name(b) <==> same_shape(a, b),
{
    reveal_strlit("Point");
    reveal_strlit("MultiPoint");
    reveal_strlit("LineString");
    reveal_strlit("MultiLineString");
    reveal_strlit("Polygon");
    reveal_strlit("MultiPolygon");
    reveal_strlit("GeometryCollection");
    assert("Point"@.len() == 5);
    assert("MultiPoint"@.len() == 10);
    assert("LineString"@.len() == 10);
    assert("MultiLineString"@.len() == 15);
    assert("Polygon"@.len() == 7);
    assert("MultiPolygon"@.len() == 12);
    assert("GeometryCollection"@.len() == 18);
    assert("MultiPoint"@[0] != "LineString"@[0]);
}

/// An error among the first `n` elements is the error of the whole array.
proof fn lemma_parse_members_prefix_error(items: Seq<JsonView>, n: int)
    requires
        0 <= n <= items.len(),
        parse_members(items.take(n)) is Err,
    ensures
        parse_members(items) == parse_members(items.take(n)),
    decreases items.len() - n,
{
    if n < items.len() {
        assert(items.take(n + 1).drop_last() =~= items.take(n));
        lemma_parse_members_prefix_error(items, n + 1);
    } else {
        assert(items.take(n) =~= items);
    }
}

/// Reads the `geometries` member: an array of objects, each of them a
/// geometry.
pub fn get_geometries(object: &JsonObject) -> (geometries: Result<Vec<Geometry>, Error>)
    ensures
        match geometries {
            Ok(g) => geometries_of(object@) == Ok::<Seq<GeometryView>, Error>(geometries_view(g)),
            Err(e) => geometries_of(object@) == Err::<Seq<GeometryView>, Error>(e),
        },
    decreases object@, 0int,
{
    let items = match object.get("geometries") {
        Some(json) => match json.as_array() {
            Some(items) => items,
            None => {
                return Err(Error::MalformedCoordinates);
            },
        },
        None => {
            return Err(Error::MalformedCoordinates);
        },
    };
    let ghost views = array_view(*items);
    let mut geometries: Vec<Geometry> = Vec::new();
    let mut i: usize = 0;
    assert(views.take(0).len() == 0);
    assert(geometries_view(geometries) =~= Seq::empty());
    while i < items.len()
        invariant
            i <= items.len(),
            views == array_view(*items),
            lookup(object@, "geometries"@) == Some(JsonView::Array(views)),
            parse_members(views.take(i as int)) == Ok::<Seq<GeometryView>, Error>(
                geometries_view(geometries),
            ),
        decreases items.len() - i,
    {
        proof {
            assert(views.take(i + 1).drop_last() =~= views.take(i as int));
            assert(views.take(i + 1).last() == views[i as int]);
        }
        let parsed = match items[i].as_object() {
            Some(nested) => {
                proof {
                    // the nested object lies inside the `geometries` member
                    let k = position_of(object@, "geometries"@, 0);
                    assert(decreases_to!(object@ => object@[k].1->Array_0[i as int]->Object_0));
                }
                Geometry::from_object(nested)
            },
            None => Err(Error::MalformedCoordinates),
        };
        match parsed {
            Ok(geometry) => {
                let ghost before = geometries_view(geometries);
                geometries.push(geometry);
                assert(geometries_view(geometries) =~= before.push(geometry@));
            },
            Err(e) => {
                proof {
                    lemma_parse_members_prefix_error(views, i + 1);
                }
                return Err(e);
            },
        }
        i += 1;
    }
    assert(views.take(i as int) =~= views);
    Ok(geometries)
}

/// Reads the payload that the discriminator `name` asks for.
fn value_from_object(object: &JsonObject, name: &str) -> (value: Result<Value, Error>)
    ensures
        match value {
            Ok(v) => parse_value(object@, name@) == Ok::<ValueView, Error>(v@),
            Err(e) => parse_value(object@, name@) == Err::<ValueView, Error>(e),
        },
    decreases object@, 1int,
{
    if str_eq(name, "Point") {
        match get_coords_one_pos(object) {
            Ok(p) => Ok(Value::Point(p)),
            Err(e) => Err(e),
        }
    } else if str_eq(name, "MultiPoint") {
        match get_coords_1d_pos(object) {
            Ok(p) => Ok(Value::MultiPoint(p)),
            Err(e) => Err(e),
        }
    } else if str_eq(name, "LineString") {
        match get_coords_1d_pos(object) {
            Ok(p) => Ok(Value::LineString(p)),
            Err(e) => Err(e),
        }
    } else if str_eq(name, "MultiLineString") {
        match get_coords_2d_pos(object) {
            Ok(p) => Ok(Value::MultiLineString(p)),
            Err(e) => Err(e),
        }
    } else if str_eq(name, "Polygon") {
        match get_coords_2d_pos(object) {
            Ok(p) => Ok(Value::Polygon(p)),
            Err(e) => Err(e),
        }
    } else if str_eq(name, "MultiPolygon") {
        match get_coords_3d_pos(object) {
            Ok(p) => Ok(Value::MultiPolygon(p)),
            Err(e) => Err(e),
        }
    } else if str_eq(name, "GeometryCollection") {
        match get_geometries(object) {
            Ok(g) => Ok(Value::GeometryCollection(g)),
            Err(e) => Err(e),
        }
    } else {
        Err(Error::UnknownType)
    }
}

impl Clone for Value {
    fn clone(&self) -> (copy: Value)
        ensures
            copy@ == self@,
        decreases self,
    {
        match self {
            Value::Point(p) => Value::Point(p.clone()),
            Value::MultiPoint(p) => Value::MultiPoint(p.clone()),
            Value::LineString(p) => Value::LineString(p.clone()),
            Value::MultiLineString(p) => Value::MultiLineString(p.clone()),
            Value::Polygon(p) => Value::Polygon(p.clone()),
            Value::MultiPolygon(p) => Value::MultiPolygon(p.clone()),
            Value::GeometryCollection(geometries) => {
                let mut copies: Vec<Geometry> = Vec::new();
                let mut i: usize = 0;
                while i < geometries.len()
                    invariant
                        i <= geometries.len(),
                        copies.len() == i,
                        self is GeometryCollection,
                        self->GeometryCollection_0 == *geometries,
                        forall|j: int| 0 <= j < i ==> (#[trigger] copies[j])@ == geometries[j]@,
                    decreases geometries.len() - i,
                {
                    copies.push(geometries[i].clone());
                    i += 1;
                }
                assert(geometries_view(copies) =~= geometries_view(*geometries));
                Value::GeometryCollection(copies)
            },
        }
    }
}

impl Clone for Geometry {
    fn clone(&self) -> (copy: Geometry)
        ensures
            copy@ == self@,
        decreases self,
    {
        Geometry {
            bbox: match &self.bbox {
                Some(bbox) => Some(bbox.clone()),
                None => None,
            },
            value: self.value.clone(),
            crs: match &self.crs {
                Some(crs) => Some(crs.clone()),
                None => None,
            },
        }
    }
}

impl Value {
    /// The JSON form of the payload.
    pub fn to_json(&self) -> (json: Json)
        ensures
            json@ == value_json(self@),
        decreases self,
    {
        match self {
            Value::Point(p) => position_to_json(p),
            Value::MultiPoint(p) => positions_1d_to_json(p),
            Value::LineString(p) => positions_1d_to_json(p),
            Value::MultiLineString(p) => positions_2d_to_json(p),
            Value::Polygon(p) => positions_2d_to_json(p),
            Value::MultiPolygon(p) => positions_3d_to_json(p),
            Value::GeometryCollection(geometries) => {
                let mut items: Vec<Json> = Vec::new();
                let mut i: usize = 0;
                while i < geometries.len()
                    invariant
                        i <= geometries.len(),
                        items.len() == i,
                        self is GeometryCollection,
                        self->GeometryCollection_0 == *geometries,
                        forall|j: int|
                            0 <= j < i ==> (#[trigger] items[j])@ == JsonView::Object(
                                geometry_object(geometries[j]@),
                            ),
                    decreases geometries.len() - i,
                {
                    items.push(Json::Object(geometries[i].to_json_object()));
                    i += 1;
                }
                assert(array_view(items) =~= geometries_json(geometries_view(*geometries)));
                Json::Array(items)
            },
        }
    }
}

impl Geometry {
    /// A geometry of the given shape, without bounding box or coordinate
    /// reference system.
    pub fn new(value: Value) -> (geometry: Geometry)
        ensures
            geometry.value == value,
            geometry.bbox is None,
            geometry.crs is None,
            geometry@ == (GeometryView { bbox: None, value: value@, crs: None }),
    {
        Geometry { bbox: None, value, crs: None }
    }

    /// The JSON object that encodes the geometry.
    pub fn to_json_object(&self) -> (object: JsonObject)
        ensures
            object@ == geometry_object(self@),
        decreases self,
    {
        proof {
            lemma_member_keys_differ();
        }
        let mut object = JsonObject::new();
        match &self.crs {
            Some(crs) => {
                proof {
                    lemma_insert_absent(object@, "crs"@, JsonView::Object(crs@));
                }
                object.insert("crs".to_owned(), Json::Object(crs.clone()));
            },
            None => {},
        }
        match &self.bbox {
            Some(bbox) => {
                proof {
                    lemma_insert_absent(object@, "bbox"@, position_json(bbox.deep_view()));
                }
                object.insert("bbox".to_owned(), position_to_json(bbox));
            },
            None => {},
        }
        assert(object@ =~= metadata_members(self@.bbox, self@.crs));
        let name = match &self.value {
            Value::Point(_) => "Point",
            Value::MultiPoint(_) => "MultiPoint",
            Value::LineString(_) => "LineString",
            Value::MultiLineString(_) => "MultiLineString",
            Value::Polygon(_) => "Polygon",
            Value::MultiPolygon(_) => "MultiPolygon",
            Value::GeometryCollection(_) => "GeometryCollection",
        };
        proof {
            lemma_insert_absent(object@, "type"@, JsonView::String(name@));
        }
        object.insert("type".to_owned(), Json::String(name.to_owned()));
        let key = match &self.value {
            Value::GeometryCollection(_) => "geometries",
            _ => "coordinates",
        };
        let payload = self.value.to_json();
        proof {
            lemma_insert_absent(object@, key@, payload@);
        }
        object.insert(key.to_owned(), payload);
        object
    }

    /// Reads a geometry from the JSON object that encodes it. Nothing is
    /// returned unless every member that is read is well formed.
    pub fn from_object(object: &JsonObject) -> (geometry: Result<Geometry, Error>)
        ensures
            match geometry {
                Ok(g) => parse_object(object@) == Ok::<GeometryView, Error>(g@),
                Err(e) => parse_object(object@) == Err::<GeometryView, Error>(e),
            },
        decreases object@, 2int,
    {
        let name = match expect_type(object) {
            Ok(name) => name,
            Err(e) => {
                return Err(e);
            },
        };
        let value = match value_from_object(object, name) {
            Ok(value) => value,
            Err(e) => {
                return Err(e);
            },
        };
        let bbox = match get_bbox(object) {
            Ok(bbox) => bbox,
            Err(e) => {
                return Err(e);
            },
        };
        let crs = match get_crs(object) {
            Ok(crs) => crs,
            Err(e) => {
                return Err(e);
            },
        };
        Ok(Geometry { bbox, value, crs })
    }

    /// The JSON value that encodes the geometry: its object.
    pub fn to_json(&self) -> (json: Json)
        ensures
            json@ == JsonView::Object(geometry_object(self@)),
    {
        Json::Object(self.to_json_object())
    }
}

} // verus!
