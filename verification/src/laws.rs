//! What holds of the mapping between geometries and JSON objects.

use crate::coords::{
    json_position, lemma_position_round_trip, lemma_positions_1d_round_trip,
    lemma_positions_2d_round_trip, lemma_positions_3d_round_trip, position_json,
};
use crate::error::Error;
use crate::geometry::{
    geometries_json, geometry_object, lemma_member_keys_differ, lemma_shape_names_differ,
    metadata_members, parse_members, parse_object, parse_value, payload_key, shape_name,
    value_json, GeometryView, ValueView,
};
use crate::json::{
    lemma_position_of_absent, lemma_position_of_first, lookup, JsonView, ObjectView,
};
use vstd::prelude::*;

verus! {

/// The members of a geometry's object, by key: `type` holds the
/// discriminator and the payload key holds the payload; `bbox` and `crs` are
/// members exactly when the geometry has them. No member is null.
pub proof fn lemma_geometry_object_members(geometry: GeometryView)
    ensures
        forall|i: int|
            0 <= i < geometry_object(geometry).len() ==> !((#[trigger] geometry_object(
                geometry,
            )[i]).1 is Null),
        lookup(geometry_object(geometry), "type"@) == Some(
            JsonView::String(shape_name(geometry.value)),
        ),
        lookup(geometry_object(geometry), payload_key(geometry.value)) == Some(
            value_json(geometry.value),
        ),
        lookup(geometry_object(geometry), "bbox"@) == match geometry.bbox {
            Some(bbox) => Some(position_json(bbox)),
            None => None,
        },
        lookup(geometry_object(geometry), "crs"@) == match geometry.crs {
            Some(crs) => Some(JsonView::Object(crs)),
            None => None,
        },
{
    lemma_member_keys_differ();
    let members = geometry_object(geometry);
    let n = metadata_members(geometry.bbox, geometry.crs).len() as int;
    lemma_position_of_first(members, "type"@, 0, n);
    lemma_position_of_first(members, payload_key(geometry.value), 0, n + 1);
    match geometry.crs {
        Some(_) => {
            lemma_position_of_first(members, "crs"@, 0, 0);
        },
        None => {
            lemma_position_of_absent(members, "crs"@, 0);
        },
    }
    match geometry.bbox {
        Some(_) => {
            lemma_position_of_first(members, "bbox"@, 0, n - 1);
        },
        None => {
            lemma_position_of_absent(members, "bbox"@, 0);
        },
    }
}

/// Reading the first `n` objects of the JSON form of a list of geometries
/// gives the first `n` geometries back.
proof fn lemma_members_round_trip(geometries: Seq<GeometryView>, n: int)
    requires
        0 <= n <= geometries.len(),
    ensures
        parse_members(geometries_json(geometries).take(n)) == Ok::<Seq<GeometryView>, Error>(
            geometries.take(n),
        ),
    decreases geometries, n,
{
    let items = geometries_json(geometries);
    if n == 0 {
        assert(geometries.take(0) =~= Seq::empty());
    } else {
        lemma_members_round_trip(geometries, n - 1);
        lemma_round_trip(geometries[n - 1]);
        assert(items.take(n).drop_last() =~= items.take(n - 1));
        assert(items.take(n).last() == items[n - 1]);
        assert(geometries.take(n - 1).push(geometries[n - 1]) =~= geometries.take(n));
    }
}

/// The collection of the given geometries, without metadata.
pub open spec fn collection_of(geometries: Seq<GeometryView>) -> GeometryView {
    GeometryView { bbox: None, value: ValueView::GeometryCollection(geometries), crs: None }
}

/// Round trip: reading the JSON object of a geometry gives the geometry
/// back, whatever its shape, its metadata and the depth of its nesting.
pub proof fn lemma_round_trip(geometry: GeometryView)
    ensures
        parse_object(geometry_object(geometry)) == Ok::<GeometryView, Error>(geometry),
    decreases geometry, 0int,
{
    let members = geometry_object(geometry);
    lemma_geometry_object_members(geometry);
    lemma_member_keys_differ();
    lemma_shape_names_differ(geometry.value, ValueView::Point(Seq::empty()));
    lemma_shape_names_differ(geometry.value, ValueView::MultiPoint(Seq::empty()));
    lemma_shape_names_differ(geometry.value, ValueView::LineString(Seq::empty()));
    lemma_shape_names_differ(geometry.value, ValueView::MultiLineString(Seq::empty()));
    lemma_shape_names_differ(geometry.value, ValueView::Polygon(Seq::empty()));
    lemma_shape_names_differ(geometry.value, ValueView::MultiPolygon(Seq::empty()));
    lemma_shape_names_differ(geometry.value, ValueView::GeometryCollection(Seq::empty()));
    match geometry.value {
        ValueView::Point(p) => {
            lemma_position_round_trip(p);
        },
        ValueView::MultiPoint(p) => {
            lemma_positions_1d_round_trip(p);
        },
        ValueView::LineString(p) => {
            lemma_positions_1d_round_trip(p);
        },
        ValueView::MultiLineString(p) => {
            lemma_positions_2d_round_trip(p);
        },
        ValueView::Polygon(p) => {
            lemma_positions_2d_round_trip(p);
        },
        ValueView::MultiPolygon(p) => {
            lemma_positions_3d_round_trip(p);
        },
        ValueView::GeometryCollection(g) => {
            lemma_members_round_trip(g, g.len() as int);
            assert(geometries_json(g).take(g.len() as int) =~= geometries_json(g));
            assert(g.take(g.len() as int) =~= g);
        },
    }
    assert(parse_value(members, shape_name(geometry.value)) == Ok::<ValueView, Error>(
        geometry.value,
    ));
    match geometry.bbox {
        Some(bbox) => {
            lemma_position_round_trip(bbox);
        },
        None => {},
    }
}

/// Round trip of a collection's members: reading the JSON form of a list of
/// geometries gives the same geometries, as many and in the same order,
/// whatever their shapes and however deeply collections are nested in it.
pub proof fn lemma_collection_round_trip(geometries: Seq<GeometryView>)
    ensures
        parse_members(geometries_json(geometries)) == Ok::<Seq<GeometryView>, Error>(geometries),
        parse_object(geometry_object(collection_of(geometries))) == Ok::<GeometryView, Error>(
            collection_of(geometries),
        ),
{
    lemma_members_round_trip(geometries, geometries.len() as int);
    assert(geometries_json(geometries).take(geometries.len() as int) =~= geometries_json(
        geometries,
    ));
    assert(geometries.take(geometries.len() as int) =~= geometries);
    lemma_round_trip(collection_of(geometries));
}

/// Optional metadata survives the round trip: the geometry read back has the
/// bounding box and the coordinate reference system of the one written, and
/// metadata that is absent is written as no member at all.
pub proof fn lemma_metadata_preserved(geometry: GeometryView)
    ensures
        parse_object(geometry_object(geometry)) is Ok,
        parse_object(geometry_object(geometry))->Ok_0.bbox == geometry.bbox,
        parse_object(geometry_object(geometry))->Ok_0.crs == geometry.crs,
        geometry.bbox is None ==> lookup(geometry_object(geometry), "bbox"@) is None,
        geometry.crs is None ==> lookup(geometry_object(geometry), "crs"@) is None,
{
    lemma_round_trip(geometry);
    lemma_geometry_object_members(geometry);
}

/// An object whose `type` is a string other than the seven discriminators is
/// refused as of unknown type, whatever else it holds.
pub proof fn lemma_unknown_type(members: ObjectView, name: Seq<char>)
    requires
        lookup(members, "type"@) == Some(JsonView::String(name)),
        name != "Point"@,
        name != "MultiPoint"@,
        name != "LineString"@,
        name != "MultiLineString"@,
        name != "Polygon"@,
        name != "MultiPolygon"@,
        name != "GeometryCollection"@,
    ensures
        parse_object(members) == Err::<GeometryView, Error>(Error::UnknownType),
{
}

/// An object without a `type` member, or whose `type` is not a string, is
/// refused for its type field, whatever else it holds.
pub proof fn lemma_invalid_type_field(members: ObjectView)
    requires
        !(lookup(members, "type"@) matches Some(JsonView::String(_))),
    ensures
        parse_object(members) == Err::<GeometryView, Error>(Error::InvalidTypeField),
{
}

/// A point whose `coordinates` member is missing or is anything but an array
/// of numbers is refused for its coordinates.
pub proof fn lemma_point_wrong_depth(members: ObjectView)
    requires
        lookup(members, "type"@) == Some(JsonView::String("Point"@)),
        match lookup(members, "coordinates"@) {
            Some(json) => json_position(json) is None,
            None => true,
        },
    ensures
        parse_object(members) == Err::<GeometryView, Error>(Error::MalformedCoordinates),
{
}

} // verus!
