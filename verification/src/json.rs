//! JSON values, and JSON objects as insertion-ordered maps.

use crate::number::Number;
use crate::text::str_eq;
use vstd::prelude::*;

verus! {

/// The mathematical content of a JSON value.
pub enum JsonView {
    Null,
    Bool(bool),
    Number(Number),
    String(Seq<char>),
    Array(Seq<JsonView>),
    Object(Seq<(Seq<char>, JsonView)>),
}

/// The members of a JSON object, in the order in which they were inserted.
pub type ObjectView = Seq<(Seq<char>, JsonView)>;

/// A JSON value.
#[derive(Debug, PartialEq)]
pub enum Json {
    Null,
    Bool(bool),
    Number(Number),
    String(String),
    Array(Vec<Json>),
    Object(JsonObject),
}

/// A JSON object: members in insertion order, no key occurring twice.
#[derive(Debug, PartialEq)]
pub struct JsonObject {
    entries: Vec<(String, Json)>,
}

/// Index of the first member at or after `from` whose key is `key`, or
/// `members.len()` if there is none.
pub open spec fn position_of(members: ObjectView, key: Seq<char>, from: int) -> int
    decreases members.len() - from,
{
    if from >= members.len() {
        members.len() as int
    } else if from >= 0 && members[from].0 == key {
        from
    } else {
        position_of(members, key, from + 1)
    }
}

/// The value of the first member whose key is `key`.
pub open spec fn lookup(members: ObjectView, key: Seq<char>) -> Option<JsonView> {
    let i = position_of(members, key, 0);
    if 0 <= i < members.len() {
        Some(members[i].1)
    } else {
        None
    }
}

/// No two members have the same key.
pub open spec fn distinct_keys(members: ObjectView) -> bool {
    forall|i: int, j: int|
        0 <= i < j < members.len() ==> (#[trigger] members[i]).0 != (#[trigger] members[j]).0
}

/// The members after `key` has been given the value `value`: the first member
/// with that key is replaced in place, and if there is none a new member is
/// appended.
pub open spec fn with_member(members: ObjectView, key: Seq<char>, value: JsonView) -> ObjectView {
    let i = position_of(members, key, 0);
    if 0 <= i < members.len() {
        members.update(i, (key, value))
    } else {
        members.push((key, value))
    }
}

/// The contents of the elements of an array, in order.
pub open spec fn array_view(items: Vec<Json>) -> Seq<JsonView>
    decreases items,
{
    Seq::new(
        items.len() as nat,
        |i: int|
            if 0 <= i < items.len() {
                items[i].view()
            } else {
                JsonView::Null
            },
    )
}

impl View for Json {
    type V = JsonView;

    open spec fn view(&self) -> JsonView
        decreases self,
    {
        match self {
            Json::Null => JsonView::Null,
            Json::Bool(b) => JsonView::Bool(*b),
            Json::Number(n) => JsonView::Number(*n),
            Json::String(s) => JsonView::String(s@),
            Json::Array(items) => JsonView::Array(array_view(*items)),
            Json::Object(object) => JsonView::Object(object.view()),
        }
    }
}

impl View for JsonObject {
    type V = ObjectView;

    closed spec fn view(&self) -> ObjectView
        decreases self,
    {
        members_view(self.entries)
    }
}

/// The keys and contents of the stored members, in order.
spec fn members_view(entries: Vec<(String, Json)>) -> ObjectView
    decreases entries,
{
    Seq::new(
        entries.len() as nat,
        |i: int|
            if 0 <= i < entries.len() {
                (entries[i].0@, entries[i].1.view())
            } else {
                (Seq::empty(), JsonView::Null)
            },
    )
}

/// The index of the first member whose key is `key`, or the number of members
/// if there is none.
fn find_key(entries: &Vec<(String, Json)>, key: &str) -> (i: usize)
    ensures
        i == position_of(members_view(*entries), key@, 0),
        i <= entries.len(),
        i < entries.len() ==> members_view(*entries)[i as int].0 == key@,
        forall|j: int| 0 <= j < i ==> (#[trigger] members_view(*entries)[j]).0 != key@,
{
    let mut i: usize = 0;
    while i < entries.len()
        invariant
            i <= entries.len(),
            position_of(members_view(*entries), key@, 0) == position_of(
                members_view(*entries),
                key@,
                i as int,
            ),
            forall|j: int| 0 <= j < i ==> (#[trigger] members_view(*entries)[j]).0 != key@,
        decreases entries.len() - i,
    {
        if str_eq(entries[i].0.as_str(), key) {
            return i;
        }
        i += 1;
    }
    i
}

impl Json {
    /// The text of a string value.
    pub fn as_string(&self) -> (text: Option<&str>)
        ensures
            match text {
                Some(t) => self@ == JsonView::String(t@),
                None => !(self@ is String),
            },
    {
        match self {
            Json::String(s) => Some(s.as_str()),
            _ => None,
        }
    }

    /// The number of a number value.
    pub fn as_number(&self) -> (number: Option<Number>)
        ensures
            match number {
                Some(n) => self@ == JsonView::Number(n),
                None => !(self@ is Number),
            },
    {
        match self {
            Json::Number(n) => Some(*n),
            _ => None,
        }
    }

    /// The elements of an array value.
    pub fn as_array(&self) -> (items: Option<&Vec<Json>>)
        ensures
            match items {
                Some(v) => self@ == JsonView::Array(array_view(*v)),
                None => !(self@ is Array),
            },
    {
        match self {
            Json::Array(items) => Some(items),
            _ => None,
        }
    }

    /// The object of an object value.
    pub fn as_object(&self) -> (object: Option<&JsonObject>)
        ensures
            match object {
                Some(o) => self@ == JsonView::Object(o@),
                None => !(self@ is Object),
            },
    {
        match self {
            Json::Object(object) => Some(object),
            _ => None,
        }
    }
}

impl JsonObject {
    #[verifier::type_invariant]
    spec fn well_formed(self) -> bool {
        distinct_keys(self@)
    }

    /// The object without members.
    pub fn new() -> (object: JsonObject)
        ensures
            object@ == Seq::<(Seq<char>, JsonView)>::empty(),
    {
        JsonObject { entries: Vec::new() }
    }

    /// The number of members.
    pub fn len(&self) -> (n: usize)
        ensures
            n == self@.len(),
            distinct_keys(self@),
    {
        proof {
            use_type_invariant(self);
        }
        self.entries.len()
    }

    /// The members, in insertion order.
    pub fn members(&self) -> (members: &Vec<(String, Json)>)
        ensures
            members.len() == self@.len(),
            forall|i: int|
                0 <= i < members.len() ==> (#[trigger] members[i]).0@ == self@[i].0 && members[i].1@
                    == self@[i].1,
            distinct_keys(self@),
    {
        proof {
            use_type_invariant(self);
        }
        &self.entries
    }

    /// The value of the member whose key is `key`, if there is one.
    pub fn get(&self, key: &str) -> (found: Option<&Json>)
        ensures
            match found {
                Some(value) => lookup(self@, key@) == Some(value@),
                None => lookup(self@, key@) is None,
            },
    {
        let i = find_key(&self.entries, key);
        if i < self.entries.len() {
            Some(&self.entries[i].1)
        } else {
            None
        }
    }

    /// Gives `key` the value `value`: replaces the value of the member with
    /// that key, or appends a new member if there is none.
    pub fn insert(&mut self, key: String, value: Json)
        ensures
            final(self)@ == with_member(old(self)@, key@, value@),
    {
        proof {
            use_type_invariant(&*self);
        }
        let ghost before = self@;
        let mut entries: Vec<(String, Json)> = Vec::new();
        std::mem::swap(&mut entries, &mut self.entries);
        let i = find_key(&entries, key.as_str());
        if i < entries.len() {
            entries.set(i, (key, value));
        } else {
            entries.push((key, value));
        }
        assert(members_view(entries) =~= with_member(before, key@, value@));
        self.entries = entries;
    }
}

impl Clone for Json {
    fn clone(&self) -> (copy: Json)
        ensures
            copy@ == self@,
        decreases self,
    {
        match self {
            Json::Null => Json::Null,
            Json::Bool(b) => Json::Bool(*b),
            Json::Number(n) => Json::Number(*n),
            Json::String(s) => Json::String(s.clone()),
            Json::Array(items) => {
                let mut copies: Vec<Json> = Vec::new();
                let mut i: usize = 0;
                while i < items.len()
                    invariant
                        i <= items.len(),
                        copies.len() == i,
                        self is Array,
                        self->Array_0 == *items,
                        forall|j: int| 0 <= j < i ==> (#[trigger] copies[j])@ == items[j]@,
                    decreases items.len() - i,
                {
                    copies.push(items[i].clone());
                    i += 1;
                }
                assert(array_view(copies) =~= array_view(*items));
                Json::Array(copies)
            },
            Json::Object(object) => Json::Object(object.clone()),
        }
    }
}

impl Clone for JsonObject {
    fn clone(&self) -> (copy: JsonObject)
        ensures
            copy@ == self@,
        decreases self,
    {
        proof {
            use_type_invariant(self);
        }
        let mut entries: Vec<(String, Json)> = Vec::new();
        let mut i: usize = 0;
        while i < self.entries.len()
            invariant
                i <= self.entries.len(),
                entries.len() == i,
                forall|j: int|
                    0 <= j < i ==> (#[trigger] entries[j]).0@ == self.entries[j].0@ && entries[j].1@
                        == self.entries[j].1@,
            decreases self.entries.len() - i,
        {
            entries.push((self.entries[i].0.clone(), self.entries[i].1.clone()));
            i += 1;
        }
        assert(members_view(entries) =~= members_view(self.entries));
        JsonObject { entries }
    }
}

/// Where no member from `from` on has the key, the search ends past the last
/// member.
pub proof fn lemma_position_of_absent(members: ObjectView, key: Seq<char>, from: int)
    requires
        0 <= from <= members.len(),
        forall|i: int| from <= i < members.len() ==> (#[trigger] members[i]).0 != key,
    ensures
        position_of(members, key, from) == members.len(),
    decreases members.len() - from,
{
    if from < members.len() {
        lemma_position_of_absent(members, key, from + 1);
    }
}

/// The search from `from` finds the member at `i` when that member has the
/// key and none between `from` and `i` has it.
pub proof fn lemma_position_of_first(members: ObjectView, key: Seq<char>, from: int, i: int)
    requires
        0 <= from <= i < members.len(),
        members[i].0 == key,
        forall|j: int| from <= j < i ==> (#[trigger] members[j]).0 != key,
    ensures
        position_of(members, key, from) == i,
    decreases i - from,
{
    if from < i {
        lemma_position_of_first(members, key, from + 1, i);
    }
}

/// Giving a value to a key that no member has appends a member.
pub proof fn lemma_insert_absent(members: ObjectView, key: Seq<char>, value: JsonView)
    requires
        forall|i: int| 0 <= i < members.len() ==> (#[trigger] members[i]).0 != key,
    ensures
        lookup(members, key) is None,
        with_member(members, key, value) == members.push((key, value)),
{
    lemma_position_of_absent(members, key, 0);
}

/// The search from `from` ends at or after `from` and no later than past the
/// last member; where it ends on a member, that member has the key.
pub proof fn lemma_position_of_bounds(members: ObjectView, key: Seq<char>, from: int)
    requires
        0 <= from <= members.len(),
    ensures
        from <= position_of(members, key, from) <= members.len(),
        position_of(members, key, from) < members.len() ==> members[position_of(
            members,
            key,
            from,
        )].0 == key,
        forall|j: int|
            from <= j < position_of(members, key, from) ==> (#[trigger] members[j]).0 != key,
    decreases members.len() - from,
{
    if from < members.len() && members[from].0 != key {
        lemma_position_of_bounds(members, key, from + 1);
    }
}

/// After a key has been given a value, looking the key up finds that value.
pub proof fn lemma_lookup_inserted(members: ObjectView, key: Seq<char>, value: JsonView)
    ensures
        lookup(with_member(members, key, value), key) == Some(value),
{
    lemma_position_of_bounds(members, key, 0);
    let i = position_of(members, key, 0);
    lemma_position_of_first(with_member(members, key, value), key, 0, i);
}

/// Giving a value to one key changes what no other key holds.
pub proof fn lemma_lookup_other(
    members: ObjectView,
    key: Seq<char>,
    value: JsonView,
    other: Seq<char>,
)
    requires
        other != key,
    ensures
        lookup(with_member(members, key, value), other) == lookup(members, other),
{
    let after = with_member(members, key, value);
    lemma_position_of_bounds(members, key, 0);
    lemma_position_of_bounds(members, other, 0);
    let j = position_of(members, other, 0);
    if j < members.len() {
        lemma_position_of_first(after, other, 0, j);
    } else {
        lemma_position_of_absent(after, other, 0);
    }
}

/// Giving a value to a key keeps the keys distinct.
pub proof fn lemma_insert_keeps_keys_distinct(
    members: ObjectView,
    key: Seq<char>,
    value: JsonView,
)
    requires
        distinct_keys(members),
    ensures
        distinct_keys(with_member(members, key, value)),
{
    lemma_position_of_bounds(members, key, 0);
}

} // verus!
