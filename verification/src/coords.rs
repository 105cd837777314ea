//! Coordinate arrays: positions nested zero to three lists deep, and their
//! JSON form.

use crate::json::{array_view, Json, JsonView};
use crate::number::Number;
use vstd::prelude::*;

verus! {

/// A single coordinate tuple: longitude, latitude and, optionally, elevation.
/// The length is not restricted.
pub type Position = Vec<Number>;

/// The JSON form of a position: the array of its numbers.
pub open spec fn position_json(position: Seq<Number>) -> JsonView {
    JsonView::Array(position.map_values(|n: Number| JsonView::Number(n)))
}

/// The JSON form of a list of positions.
pub open spec fn positions_1d_json(positions: Seq<Seq<Number>>) -> JsonView {
    JsonView::Array(positions.map_values(|p: Seq<Number>| position_json(p)))
}

/// The JSON form of a list of lists of positions.
pub open spec fn positions_2d_json(positions: Seq<Seq<Seq<Number>>>) -> JsonView {
    JsonView::Array(positions.map_values(|p: Seq<Seq<Number>>| positions_1d_json(p)))
}

/// The JSON form of a list of lists of lists of positions.
pub open spec fn positions_3d_json(positions: Seq<Seq<Seq<Seq<Number>>>>) -> JsonView {
    JsonView::Array(positions.map_values(|p: Seq<Seq<Seq<Number>>>| positions_2d_json(p)))
}

/// The position that a JSON value holds: it must be an array of numbers.
pub open spec fn json_position(json: JsonView) -> Option<Seq<Number>> {
    match json {
        JsonView::Array(items) => if forall|i: int|
            0 <= i < items.len() ==> (#[trigger] items[i]) is Number {
            Some(items.map_values(|item: JsonView| item->Number_0))
        } else {
            None
        },
        _ => None,
    }
}

/// The list of positions that a JSON value holds: it must be an array of
/// positions.
pub open spec fn json_positions_1d(json: JsonView) -> Option<Seq<Seq<Number>>> {
    match json {
        JsonView::Array(items) => if forall|i: int|
            0 <= i < items.len() ==> json_position(#[trigger] items[i]) is Some {
            Some(items.map_values(|item: JsonView| json_position(item)->Some_0))
        } else {
            None
        },
        _ => None,
    }
}

/// The list of lists of positions that a JSON value holds.
pub open spec fn json_positions_2d(json: JsonView) -> Option<Seq<Seq<Seq<Number>>>> {
    match json {
        JsonView::Array(items) => if forall|i: int|
            0 <= i < items.len() ==> json_positions_1d(#[trigger] items[i]) is Some {
            Some(items.map_values(|item: JsonView| json_positions_1d(item)->Some_0))
        } else {
            None
        },
        _ => None,
    }
}

/// The list of lists of lists of positions that a JSON value holds.
pub open spec fn json_positions_3d(json: JsonView) -> Option<Seq<Seq<Seq<Seq<Number>>>>> {
    match json {
        JsonView::Array(items) => if forall|i: int|
            0 <= i < items.len() ==> json_positions_2d(#[trigger] items[i]) is Some {
            Some(items.map_values(|item: JsonView| json_positions_2d(item)->Some_0))
        } else {
            None
        },
        _ => None,
    }
}

/// Reading the JSON form of a position gives the position back.
pub proof fn lemma_position_round_trip(position: Seq<Number>)
    ensures
        json_position(position_json(position)) == Some(position),
{
    let items = position.map_values(|n: Number| JsonView::Number(n));
    assert(items.map_values(|item: JsonView| item->Number_0) =~= position);
}

/// Reading the JSON form of a list of positions gives the list back.
pub proof fn lemma_positions_1d_round_trip(positions: Seq<Seq<Number>>)
    ensures
        json_positions_1d(positions_1d_json(positions)) == Some(positions),
{
    let items = positions.map_values(|p: Seq<Number>| position_json(p));
    assert forall|i: int| 0 <= i < items.len() implies json_position(#[trigger] items[i]) == Some(
        positions[i],
    ) by {
        lemma_position_round_trip(positions[i]);
    }
    assert(items.map_values(|item: JsonView| json_position(item)->Some_0) =~= positions);
}

/// Reading the JSON form of a list of lists of positions gives it back.
pub proof fn lemma_positions_2d_round_trip(positions: Seq<Seq<Seq<Number>>>)
    ensures
        json_positions_2d(positions_2d_json(positions)) == Some(positions),
{
    let items = positions.map_values(|p: Seq<Seq<Number>>| positions_1d_json(p));
    assert forall|i: int| 0 <= i < items.len() implies json_positions_1d(#[trigger] items[i])
        == Some(positions[i]) by {
        lemma_positions_1d_round_trip(positions[i]);
    }
    assert(items.map_values(|item: JsonView| json_positions_1d(item)->Some_0) =~= positions);
}

/// Reading the JSON form of a list of lists of lists of positions gives it
/// back.
pub proof fn lemma_positions_3d_round_trip(positions: Seq<Seq<Seq<Seq<Number>>>>)
    ensures
        json_positions_3d(positions_3d_json(positions)) == Some(positions),
{
    let items = positions.map_values(|p: Seq<Seq<Seq<Number>>>| positions_2d_json(p));
    assert forall|i: int| 0 <= i < items.len() implies json_positions_2d(#[trigger] items[i])
        == Some(positions[i]) by {
        lemma_positions_2d_round_trip(positions[i]);
    }
    assert(items.map_values(|item: JsonView| json_positions_2d(item)->Some_0) =~= positions);
}

/// Writes a position as a JSON array of numbers.
pub fn position_to_json(position: &Vec<Number>) -> (json: Json)
    ensures
        json@ == position_json(position.deep_view()),
{
    let mut items: Vec<Json> = Vec::new();
    let mut i: usize = 0;
    while i < position.len()
        invariant
            i <= position.len(),
            items.len() == i,
            forall|j: int| 0 <= j < i ==> (#[trigger] items[j])@ == JsonView::Number(position[j]),
        decreases position.len() - i,
    {
        items.push(Json::Number(position[i]));
        i += 1;
    }
    assert(array_view(items) =~= position.deep_view().map_values(
        |n: Number| JsonView::Number(n),
    ));
    Json::Array(items)
}

/// Writes a list of positions as a JSON array of arrays.
pub fn positions_1d_to_json(positions: &Vec<Vec<Number>>) -> (json: Json)
    ensures
        json@ == positions_1d_json(positions.deep_view()),
{
    let mut items: Vec<Json> = Vec::new();
    let mut i: usize = 0;
    while i < positions.len()
        invariant
            i <= positions.len(),
            items.len() == i,
            forall|j: int|
                0 <= j < i ==> (#[trigger] items[j])@ == position_json(positions[j].deep_view()),
        decreases positions.len() - i,
    {
        items.push(position_to_json(&positions[i]));
        i += 1;
    }
    assert(array_view(items) =~= positions.deep_view().map_values(
        |p: Seq<Number>| position_json(p),
    ));
    Json::Array(items)
}

/// Writes a list of lists of positions as nested JSON arrays.
pub fn positions_2d_to_json(positions: &Vec<Vec<Vec<Number>>>) -> (json: Json)
    ensures
        json@ == positions_2d_json(positions.deep_view()),
{
    let mut items: Vec<Json> = Vec::new();
    let mut i: usize = 0;
    while i < positions.len()
        invariant
            i <= positions.len(),
            items.len() == i,
            forall|j: int|
                0 <= j < i ==> (#[trigger] items[j])@ == positions_1d_json(
                    positions[j].deep_view(),
                ),
        decreases positions.len() - i,
    {
        items.push(positions_1d_to_json(&positions[i]));
        i += 1;
    }
    assert(array_view(items) =~= positions.deep_view().map_values(
        |p: Seq<Seq<Number>>| positions_1d_json(p),
    ));
    Json::Array(items)
}

/// Writes a list of lists of lists of positions as nested JSON arrays.
pub fn positions_3d_to_json(positions: &Vec<Vec<Vec<Vec<Number>>>>) -> (json: Json)
    ensures
        json@ == positions_3d_json(positions.deep_view()),
{
    let mut items: Vec<Json> = Vec::new();
    let mut i: usize = 0;
    while i < positions.len()
        invariant
            i <= positions.len(),
            items.len() == i,
            forall|j: int|
                0 <= j < i ==> (#[trigger] items[j])@ == positions_2d_json(
                    positions[j].deep_view(),
                ),
        decreases positions.len() - i,
    {
        items.push(positions_2d_to_json(&positions[i]));
        i += 1;
    }
    assert(array_view(items) =~= positions.deep_view().map_values(
        |p: Seq<Seq<Seq<Number>>>| positions_2d_json(p),
    ));
    Json::Array(items)
}

/// Reads a position: `Some` exactly when `json` is an array of numbers.
pub fn json_to_position(json: &Json) -> (position: Option<Vec<Number>>)
    ensures
        position.deep_view() == json_position(json@),
{
    let items = match json.as_array() {
        Some(items) => items,
        None => {
            return None;
        },
    };
    let mut position: Vec<Number> = Vec::new();
    let mut i: usize = 0;
    while i < items.len()
        invariant
            i <= items.len(),
            json@ == JsonView::Array(array_view(*items)),
            position.len() == i,
            forall|j: int|
                0 <= j < i ==> (#[trigger] array_view(*items)[j]) == JsonView::Number(position[j]),
        decreases items.len() - i,
    {
        match items[i].as_number() {
            Some(number) => {
                position.push(number);
            },
            None => {
                assert(!(array_view(*items)[i as int] is Number));
                return None;
            },
        }
        i += 1;
    }
    assert(position.deep_view() =~= array_view(*items).map_values(
        |item: JsonView| item->Number_0,
    ));
    Some(position)
}

/// Reads a list of positions: `Some` exactly when `json` is an array of
/// arrays of numbers.
pub fn json_to_1d_positions(json: &Json) -> (positions: Option<Vec<Vec<Number>>>)
    ensures
        positions.deep_view() == json_positions_1d(json@),
{
    let items = match json.as_array() {
        Some(items) => items,
        None => {
            return None;
        },
    };
    let mut positions: Vec<Vec<Number>> = Vec::new();
    let mut i: usize = 0;
    while i < items.len()
        invariant
            i <= items.len(),
            json@ == JsonView::Array(array_view(*items)),
            positions.len() == i,
            forall|j: int|
                0 <= j < i ==> json_position(#[trigger] array_view(*items)[j]) == Some(
                    positions[j].deep_view(),
                ),
        decreases items.len() - i,
    {
        match json_to_position(&items[i]) {
            Some(position) => {
                positions.push(position);
            },
            None => {
                assert(json_position(array_view(*items)[i as int]) is None);
                return None;
            },
        }
        i += 1;
    }
    assert(positions.deep_view() =~= array_view(*items).map_values(
        |item: JsonView| json_position(item)->Some_0,
    ));
    Some(positions)
}

/// Reads a list of lists of positions.
pub fn json_to_2d_positions(json: &Json) -> (positions: Option<Vec<Vec<Vec<Number>>>>)
    ensures
        positions.deep_view() == json_positions_2d(json@),
{
    let items = match json.as_array() {
        Some(items) => items,
        None => {
            return None;
        },
    };
    let mut positions: Vec<Vec<Vec<Number>>> = Vec::new();
    let mut i: usize = 0;
    while i < items.len()
        invariant
            i <= items.len(),
            json@ == JsonView::Array(array_view(*items)),
            positions.len() == i,
            forall|j: int|
                0 <= j < i ==> json_positions_1d(#[trigger] array_view(*items)[j]) == Some(
                    positions[j].deep_view(),
                ),
        decreases items.len() - i,
    {
        match json_to_1d_positions(&items[i]) {
            Some(inner) => {
                positions.push(inner);
            },
            None => {
                assert(json_positions_1d(array_view(*items)[i as int]) is None);
                return None;
            },
        }
        i += 1;
    }
    assert(positions.deep_view() =~= array_view(*items).map_values(
        |item: JsonView| json_positions_1d(item)->Some_0,
    ));
    Some(positions)
}

/// Reads a list of lists of lists of positions.
pub fn json_to_3d_positions(json: &Json) -> (positions: Option<Vec<Vec<Vec<Vec<Number>>>>>)
    ensures
        positions.deep_view() == json_positions_3d(json@),
{
    let items = match json.as_array() {
        Some(items) => items,
        None => {
            return None;
        },
    };
    let mut positions: Vec<Vec<Vec<Vec<Number>>>> = Vec::new();
    let mut i: usize = 0;
    while i < items.len()
        invariant
            i <= items.len(),
            json@ == JsonView::Array(array_view(*items)),
            positions.len() == i,
            forall|j: int|
                0 <= j < i ==> json_positions_2d(#[trigger] array_view(*items)[j]) == Some(
                    positions[j].deep_view(),
                ),
        decreases items.len() - i,
    {
        match json_to_2d_positions(&items[i]) {
            Some(inner) => {
                positions.push(inner);
            },
            None => {
                assert(json_positions_2d(array_view(*items)[i as int]) is None);
                return None;
            },
        }
        i += 1;
    }
    assert(positions.deep_view() =~= array_view(*items).map_values(
        |item: JsonView| json_positions_2d(item)->Some_0,
    ));
    Some(positions)
}

} // verus!
