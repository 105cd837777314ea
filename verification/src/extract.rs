//! Reading the members of a geometry object: the discriminator, the
//! coordinate payload and the optional metadata.

use crate::coords::{
    json_position, json_positions_1d, json_positions_2d, json_positions_3d, json_to_1d_positions,
    json_to_2d_positions, json_to_3d_positions, json_to_position,
};
use crate::error::Error;
use crate::json::{lookup, JsonObject, JsonView, ObjectView};
use crate::number::Number;
use vstd::prelude::*;

verus! {

/// The text of the `type` member, which must be present and a string.
pub open spec fn type_of(members: ObjectView) -> Result<Seq<char>, Error> {
    match lookup(members, "type"@) {
        Some(JsonView::String(name)) => Ok(name),
        _ => Err(Error::InvalidTypeField),
    }
}

/// The `coordinates` member read as a single position.
pub open spec fn coords_one_pos(members: ObjectView) -> Result<Seq<Number>, Error> {
    match lookup(members, "coordinates"@) {
        Some(json) => match json_position(json) {
            Some(position) => Ok(position),
            None => Err(Error::MalformedCoordinates),
        },
        None => Err(Error::MalformedCoordinates),
    }
}

/// The `coordinates` member read as a list of positions.
pub open spec fn coords_1d_pos(members: ObjectView) -> Result<Seq<Seq<Number>>, Error> {
    match lookup(members, "coordinates"@) {
        Some(json) => match json_positions_1d(json) {
            Some(positions) => Ok(positions),
            None => Err(Error::MalformedCoordinates),
        },
        None => Err(Error::MalformedCoordinates),
    }
}

/// The `coordinates` member read as a list of lists of positions.
pub open spec fn coords_2d_pos(members: ObjectView) -> Result<Seq<Seq<Seq<Number>>>, Error> {
    match lookup(members, "coordinates"@) {
        Some(json) => match json_positions_2d(json) {
            Some(positions) => Ok(positions),
            None => Err(Error::MalformedCoordinates),
        },
        None => Err(Error::MalformedCoordinates),
    }
}

/// The `coordinates` member read as a list of lists of lists of positions.
pub open spec fn coords_3d_pos(members: ObjectView) -> Result<
    Seq<Seq<Seq<Seq<Number>>>>,
    Error,
> {
    match lookup(members, "coordinates"@) {
        Some(json) => match json_positions_3d(json) {
            Some(positions) => Ok(positions),
            None => Err(Error::MalformedCoordinates),
        },
        None => Err(Error::MalformedCoordinates),
    }
}

/// The bounding box: absent when there is no `bbox` member, an error when the
/// member is not an array of numbers.
pub open spec fn bbox_of(members: ObjectView) -> Result<Option<Seq<Number>>, Error> {
    match lookup(members, "bbox"@) {
        Some(json) => match json_position(json) {
            Some(numbers) => Ok(Some(numbers)),
            None => Err(Error::MalformedBbox),
        },
        None => Ok(None),
    }
}

/// The coordinate reference system: absent when there is no `crs` member, an
/// error when the member is not an object.
pub open spec fn crs_of(members: ObjectView) -> Result<Option<ObjectView>, Error> {
    match lookup(members, "crs"@) {
        Some(JsonView::Object(crs)) => Ok(Some(crs)),
        Some(_) => Err(Error::MalformedCrs),
        None => Ok(None),
    }
}

/// Reads the `type` member.
pub fn expect_type(object: &JsonObject) -> (name: Result<&str, Error>)
    ensures
        match name {
            Ok(text) => type_of(object@) == Ok::<Seq<char>, Error>(text@),
            Err(e) => type_of(object@) == Err::<Seq<char>, Error>(e),
        },
{
    match object.get("type") {
        Some(json) => match json.as_string() {
            Some(text) => Ok(text),
            None => Err(Error::InvalidTypeField),
        },
        None => Err(Error::InvalidTypeField),
    }
}

/// Reads `coordinates` as a single position.
pub fn get_coords_one_pos(object: &JsonObject) -> (coords: Result<Vec<Number>, Error>)
    ensures
        match coords {
            Ok(position) => coords_one_pos(object@) == Ok::<Seq<Number>, Error>(
                position.deep_view(),
            ),
            Err(e) => coords_one_pos(object@) == Err::<Seq<Number>, Error>(e),
        },
{
    match object.get("coordinates") {
        Some(json) => match json_to_position(json) {
            Some(position) => Ok(position),
            None => Err(Error::MalformedCoordinates),
        },
        None => Err(Error::MalformedCoordinates),
    }
}

/// Reads `coordinates` as a list of positions.
pub fn get_coords_1d_pos(object: &JsonObject) -> (coords: Result<Vec<Vec<Number>>, Error>)
    ensures
        match coords {
            Ok(positions) => coords_1d_pos(object@) == Ok::<Seq<Seq<Number>>, Error>(
                positions.deep_view(),
            ),
            Err(e) => coords_1d_pos(object@) == Err::<Seq<Seq<Number>>, Error>(e),
        },
{
    match object.get("coordinates") {
        Some(json) => match json_to_1d_positions(json) {
            Some(positions) => Ok(positions),
            None => Err(Error::MalformedCoordinates),
        },
        None => Err(Error::MalformedCoordinates),
    }
}

/// Reads `coordinates` as a list of lists of positions.
pub fn get_coords_2d_pos(object: &JsonObject) -> (coords: Result<Vec<Vec<Vec<Number>>>, Error>)
    ensures
        match coords {
            Ok(positions) => coords_2d_pos(object@) == Ok::<Seq<Seq<Seq<Number>>>, Error>(
                positions.deep_view(),
            ),
            Err(e) => coords_2d_pos(object@) == Err::<Seq<Seq<Seq<Number>>>, Error>(e),
        },
{
    match object.get("coordinates") {
        Some(json) => match json_to_2d_positions(json) {
            Some(positions) => Ok(positions),
            None => Err(Error::MalformedCoordinates),
        },
        None => Err(Error::MalformedCoordinates),
    }
}

/// Reads `coordinates` as a list of lists of lists of positions.
pub fn get_coords_3d_pos(object: &JsonObject) -> (coords: Result<
    Vec<Vec<Vec<Vec<Number>>>>,
    Error,
>)
    ensures
        match coords {
            Ok(positions) => coords_3d_pos(object@) == Ok::<Seq<Seq<Seq<Seq<Number>>>>, Error>(
                positions.deep_view(),
            ),
            Err(e) => coords_3d_pos(object@) == Err::<Seq<Seq<Seq<Seq<Number>>>>, Error>(e),
        },
{
    match object.get("coordinates") {
        Some(json) => match json_to_3d_positions(json) {
            Some(positions) => Ok(positions),
            None => Err(Error::MalformedCoordinates),
        },
        None => Err(Error::MalformedCoordinates),
    }
}

/// Reads the optional bounding box.
pub fn get_bbox(object: &JsonObject) -> (bbox: Result<Option<Vec<Number>>, Error>)
    ensures
        match bbox {
            Ok(found) => bbox_of(object@) == Ok::<Option<Seq<Number>>, Error>(found.deep_view()),
            Err(e) => bbox_of(object@) == Err::<Option<Seq<Number>>, Error>(e),
        },
{
    match object.get("bbox") {
        Some(json) => match json_to_position(json) {
            Some(numbers) => Ok(Some(numbers)),
            None => Err(Error::MalformedBbox),
        },
        None => Ok(None),
    }
}

/// Reads the optional coordinate reference system.
pub fn get_crs(object: &JsonObject) -> (crs: Result<Option<JsonObject>, Error>)
    ensures
        match crs {
            Ok(Some(found)) => crs_of(object@) == Ok::<Option<ObjectView>, Error>(Some(found@)),
            Ok(None) => crs_of(object@) == Ok::<Option<ObjectView>, Error>(None),
            Err(e) => crs_of(object@) == Err::<Option<ObjectView>, Error>(e),
        },
{
    match object.get("crs") {
        Some(json) => match json.as_object() {
            Some(crs) => Ok(Some(crs.clone())),
            None => Err(Error::MalformedCrs),
        },
        None => Ok(None),
    }
}

} // verus!
