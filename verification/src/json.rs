//! JSON values, and how they are read.

use vstd::prelude::*;

use crate::text;

verus! {

/// A JSON value. A number is kept as the text it is written with.
#[derive(Debug, PartialEq, Eq)]
pub enum Json {
    Null,
    Bool(bool),
    Number(String),
    Text(String),
    Array(Vec<Json>),
    Object(Vec<(String, Json)>),
}

/// The view of a JSON value.
pub enum JsonView {
    Null,
    Bool(bool),
    Number(Seq<char>),
    Text(Seq<char>),
    Array(Seq<JsonView>),
    Object(Seq<(Seq<char>, JsonView)>),
}

/// The view of a JSON value.
pub open spec fn json_view(value: Json) -> JsonView
    decreases value,
{
    match value {
        Json::Null => JsonView::Null,
        Json::Bool(flag) => JsonView::Bool(flag),
        Json::Number(number) => JsonView::Number(number@),
        Json::Text(text) => JsonView::Text(text@),
        Json::Array(items) => JsonView::Array(
            Seq::new(
                items@.len(),
                |i: int|
                    if 0 <= i < items@.len() {
                        json_view(items@[i])
                    } else {
                        JsonView::Null
                    },
            ),
        ),
        Json::Object(members) => JsonView::Object(
            Seq::new(
                members@.len(),
                |i: int|
                    if 0 <= i < members@.len() {
                        (members@[i].0@, json_view(members@[i].1))
                    } else {
                        (Seq::empty(), JsonView::Null)
                    },
            ),
        ),
    }
}

impl View for Json {
    type V = JsonView;

    open spec fn view(&self) -> JsonView {
        json_view(*self)
    }
}

// ---------------------------------------------------------------------------
// Reading a value
// ---------------------------------------------------------------------------

/// The first member of this name among the first `n` of an object from `i`
/// on.
pub open spec fn member_from(
    members: Seq<(Seq<char>, JsonView)>,
    key: Seq<char>,
    i: int,
) -> Option<JsonView>
    decreases members.len() - i,
{
    if i < 0 || i >= members.len() {
        None
    } else if members[i].0 == key {
        Some(members[i].1)
    } else {
        member_from(members, key, i + 1)
    }
}

/// The member of this name, where the value is an object that has one.
pub open spec fn member(value: JsonView, key: Seq<char>) -> Option<JsonView> {
    match value {
        JsonView::Object(members) => member_from(members, key, 0),
        _ => None,
    }
}

/// The text of an optional value, where it is text.
pub open spec fn text_in(value: Option<JsonView>) -> Option<Seq<char>> {
    match value {
        Some(JsonView::Text(text)) => Some(text),
        _ => None,
    }
}

/// The flag of an optional value, where it is one.
pub open spec fn flag_in(value: Option<JsonView>) -> Option<bool> {
    match value {
        Some(JsonView::Bool(flag)) => Some(flag),
        _ => None,
    }
}

/// The member of a member.
pub open spec fn member_of(value: Option<JsonView>, key: Seq<char>) -> Option<JsonView> {
    match value {
        Some(value) => member(value, key),
        None => None,
    }
}

/// The view of an optional value.
pub open spec fn opt_json(value: Option<&Json>) -> Option<JsonView> {
    match value {
        Some(value) => Some(value@),
        None => None,
    }
}

impl Json {
    /// The member of this name, where the value is an object that has one.
    pub fn get(&self, key: &str) -> (found: Option<&Json>)
        ensures
            opt_json(found) == member(self@, key@),
    {
        match self {
            Json::Object(members) => {
                let ghost all = self@->Object_0;
                let mut i: usize = 0;
                while i < members.len()
                    invariant
                        i <= members@.len(),
                        *self == Json::Object(*members),
                        self@ == JsonView::Object(all),
                        all.len() == members@.len(),
                        member(self@, key@) == member_from(all, key@, i as int),
                    decreases members@.len() - i,
                {
                    assert(all[i as int] == (members@[i as int].0@, members@[i as int].1@));
                    if text::same_text(&members[i].0, key) {
                        return Some(&members[i].1);
                    }
                    i += 1;
                }
                None
            },
            _ => None,
        }
    }

    /// The text, where the value is text.
    pub fn as_text(&self) -> (found: Option<&String>)
        ensures
            match found {
                Some(text) => self@ == JsonView::Text(text@),
                None => !(self@ is Text),
            },
    {
        match self {
            Json::Text(text) => Some(text),
            _ => None,
        }
    }

    /// A copy of the text of the member of this name, where it is text.
    pub fn text_at(&self, key: &str) -> (found: Option<String>)
        ensures
            text::opt_text(found) == text_in(member(self@, key@)),
    {
        match self.get(key) {
            Some(value) => match value.as_text() {
                Some(text) => Some(text.clone()),
                None => None,
            },
            None => None,
        }
    }

    /// The flag of the member of this name, where it is one.
    pub fn flag_at(&self, key: &str) -> (found: Option<bool>)
        ensures
            found == flag_in(member(self@, key@)),
    {
        match self.get(key) {
            Some(Json::Bool(flag)) => Some(*flag),
            _ => None,
        }
    }
}

// ---------------------------------------------------------------------------
// Building
// ---------------------------------------------------------------------------

/// The views of an object's members.
pub open spec fn members_view(members: Seq<(String, Json)>) -> Seq<(Seq<char>, JsonView)> {
    members.map_values(|member: (String, Json)| (member.0@, member.1@))
}

/// The views of an array's items.
pub open spec fn items_view(items: Seq<Json>) -> Seq<JsonView> {
    items.map_values(|item: Json| item@)
}

/// An object of these members.
pub fn object(members: Vec<(String, Json)>) -> (value: Json)
    ensures
        value@ == JsonView::Object(members_view(members@)),
{
    let value: Json = Json::Object(members);
    assert(value@->Object_0 =~= members_view(members@));
    value
}

/// An array of these items.
pub fn array(items: Vec<Json>) -> (value: Json)
    ensures
        value@ == JsonView::Array(items_view(items@)),
{
    let value: Json = Json::Array(items);
    assert(value@->Array_0 =~= items_view(items@));
    value
}

/// A text.
pub fn string(text: &str) -> (value: Json)
    ensures
        value@ == JsonView::Text(text@),
{
    Json::Text(text.to_string())
}

/// Adds a member to an object.
pub fn add_member(members: &mut Vec<(String, Json)>, key: &str, value: Json)
    ensures
        members_view(final(members)@) == members_view(old(members)@).push((key@, value@)),
{
    let ghost before = members@;
    let ghost inner = value@;
    members.push((key.to_string(), value));
    assert(members_view(members@) =~= members_view(before).push((key@, inner)));
}

/// Adds an item to an array.
pub fn add_item(items: &mut Vec<Json>, value: Json)
    ensures
        items_view(final(items)@) == items_view(old(items)@).push(value@),
{
    let ghost before = items@;
    let ghost inner = value@;
    items.push(value);
    assert(items_view(items@) =~= items_view(before).push(inner));
}

/// No members.
pub fn no_members() -> (members: Vec<(String, Json)>)
    ensures
        members_view(members@) == Seq::<(Seq<char>, JsonView)>::empty(),
{
    let members: Vec<(String, Json)> = Vec::new();
    assert(members_view(members@) =~= Seq::empty());
    members
}

/// No items.
pub fn no_items() -> (items: Vec<Json>)
    ensures
        items_view(items@) == Seq::<JsonView>::empty(),
{
    let items: Vec<Json> = Vec::new();
    assert(items_view(items@) =~= Seq::empty());
    items
}

/// An object of one member.
pub fn object_of_one(key: &str, value: Json) -> (object: Json)
    ensures
        object@ == JsonView::Object(seq![(key@, value@)]),
{
    let ghost inner = value@;
    let mut members: Vec<(String, Json)> = no_members();
    add_member(&mut members, key, value);
    assert(members_view(members@) =~= seq![(key@, inner)]);
    self::object(members)
}

/// A list of texts.
pub fn strings(list: Vec<String>) -> (value: Json)
    ensures
        value@ == JsonView::Array(
            text::texts(list@).map_values(|text: Seq<char>| JsonView::Text(text)),
        ),
{
    let ghost all = text::texts(list@).map_values(|text: Seq<char>| JsonView::Text(text));
    let mut items: Vec<Json> = no_items();
    let mut i: usize = 0;
    assert(items_view(items@) =~= all.take(0));
    while i < list.len()
        invariant
            i <= list@.len(),
            all == text::texts(list@).map_values(|text: Seq<char>| JsonView::Text(text)),
            items_view(items@) == all.take(i as int),
        decreases list@.len() - i,
    {
        add_item(&mut items, string(&list[i]));
        proof {
            assert(all[i as int] == JsonView::Text(list@[i as int]@));
            assert(all.take(i + 1) =~= all.take(i as int).push(all[i as int]));
        }
        i += 1;
    }
    proof {
        assert(all.take(i as int) =~= all);
    }
    array(items)
}

// ---------------------------------------------------------------------------
// Copying
// ---------------------------------------------------------------------------

impl Clone for Json {
    fn clone(&self) -> (copy: Self)
        ensures
            copy@ == self@,
        decreases self,
    {
        match self {
            Json::Null => Json::Null,
            Json::Bool(flag) => Json::Bool(*flag),
            Json::Number(number) => Json::Number(number.clone()),
            Json::Text(text) => Json::Text(text.clone()),
            Json::Array(items) => {
                let mut copy: Vec<Json> = Vec::new();
                let mut i: usize = 0;
                while i < items.len()
                    invariant
                        i <= items@.len(),
                        *self == Json::Array(*items),
                        copy@.len() == i,
                        forall|k: int| 0 <= k < i ==> (#[trigger] copy@[k])@ == items@[k]@,
                    decreases items@.len() - i,
                {
                    proof {
                        assert(decreases_to!(*self => self->Array_0));
                        assert(decreases_to!(items@ => items@[i as int]));
                        assert(decreases_to!(*self => items@[i as int]));
                    }
                    copy.push(items[i].clone());
                    i += 1;
                }
                let copy: Json = Json::Array(copy);
                assert(copy@->Array_0 =~= self@->Array_0);
                copy
            },
            Json::Object(members) => {
                let mut copy: Vec<(String, Json)> = Vec::new();
                let mut i: usize = 0;
                while i < members.len()
                    invariant
                        i <= members@.len(),
                        *self == Json::Object(*members),
                        copy@.len() == i,
                        forall|k: int|
                            0 <= k < i ==> (#[trigger] copy@[k]).0@ == members@[k].0@
                                && copy@[k].1@ == members@[k].1@,
                    decreases members@.len() - i,
                {
                    proof {
                        assert(decreases_to!(*self => self->Object_0));
                        assert(decreases_to!(members@ => members@[i as int]));
                        assert(decreases_to!(members@[i as int] => members@[i as int].1));
                        assert(decreases_to!(*self => members@[i as int].1));
                    }
                    copy.push((members[i].0.clone(), members[i].1.clone()));
                    i += 1;
                }
                let copy: Json = Json::Object(copy);
                assert(copy@->Object_0 =~= self@->Object_0);
                copy
            },
        }
    }
}

// ---------------------------------------------------------------------------
// Parsing
// ---------------------------------------------------------------------------

/// A JSON value of the crate that parses them.
#[verifier::external_type_specification]
#[verifier::external_body]
pub struct ExValue(serde_json::Value);

/// What a parsed value holds.
pub uninterp spec fn held(value: serde_json::Value) -> JsonView;

/// The JSON value that a text writes, if it is one.
pub uninterp spec fn json_in(text: Seq<char>) -> Option<JsonView>;

/// One level of a parsed value.
pub enum Node {
    Null,
    Bool(bool),
    Number(String),
    Text(String),
    Array(Vec<serde_json::Value>),
    Object(Vec<(String, serde_json::Value)>),
}

/// What one level of a parsed value holds.
pub open spec fn node_view(node: Node) -> JsonView {
    match node {
        Node::Null => JsonView::Null,
        Node::Bool(flag) => JsonView::Bool(flag),
        Node::Number(number) => JsonView::Number(number@),
        Node::Text(text) => JsonView::Text(text@),
        Node::Array(items) => JsonView::Array(
            items@.map_values(|item: serde_json::Value| held(item)),
        ),
        Node::Object(members) => JsonView::Object(
            members@.map_values(|member: (String, serde_json::Value)| (member.0@, held(member.1))),
        ),
    }
}

/// `serde_json::from_str` into a `serde_json::Value`: what the text writes, or
/// None where it is not one JSON value. What a text writes is a function of
/// the text.
#[verifier::external_body]
fn parse_value(text: &str) -> (value: Option<serde_json::Value>)
    ensures
        match value {
            Some(value) => json_in(text@) == Some(held(value)),
            None => json_in(text@) is None,
        },
{
    serde_json::from_str::<serde_json::Value>(text).ok()
}

/// The variants of `serde_json::Value`, told apart: what a value holds is
/// what its one level holds, with a number written out by its `Display` and
/// an object's members in the order of the map.
#[verifier::external_body]
fn open_value(value: serde_json::Value) -> (node: Node)
    ensures
        node_view(node) == held(value),
{
    match value {
        serde_json::Value::Null => Node::Null,
        serde_json::Value::Bool(flag) => Node::Bool(flag),
        serde_json::Value::Number(number) => Node::Number(number.to_string()),
        serde_json::Value::String(text) => Node::Text(text),
        serde_json::Value::Array(items) => Node::Array(items),
        serde_json::Value::Object(members) => Node::Object(members.into_iter().collect()),
    }
}

/// A parsed value as a JSON value of this library.
fn convert(value: serde_json::Value) -> (json: Json)
    ensures
        json@ == held(value),
    decreases held(value),
{
    let ghost whole = held(value);
    match open_value(value) {
        Node::Null => Json::Null,
        Node::Bool(flag) => Json::Bool(flag),
        Node::Number(number) => Json::Number(number),
        Node::Text(text) => Json::Text(text),
        Node::Array(items) => {
            let ghost all = items@;
            let mut rest: Vec<serde_json::Value> = items;
            let mut out: Vec<Json> = Vec::new();
            while rest.len() > 0
                invariant
                    whole == held(value),
                    rest@.len() + out@.len() == all.len(),
                    whole == JsonView::Array(
                        all.map_values(|item: serde_json::Value| held(item)),
                    ),
                    forall|k: int| 0 <= k < rest@.len() ==> rest@[k] == all[out@.len() + k],
                    forall|k: int| 0 <= k < out@.len() ==> (#[trigger] out@[k])@ == held(all[k]),
                decreases rest@.len(),
            {
                let ghost at = out@.len() as int;
                let first: serde_json::Value = rest.remove(0);
                proof {
                    assert(first == all[at]);
                    assert(whole->Array_0[at] == held(first));
                    assert(decreases_to!(whole => whole->Array_0));
                    assert(decreases_to!(whole->Array_0 => whole->Array_0[at]));
                    assert(decreases_to!(whole => held(first)));
                }
                out.push(convert(first));
            }
            let json: Json = Json::Array(out);
            assert(json@->Array_0 =~= whole->Array_0);
            json
        },
        Node::Object(members) => {
            let ghost all = members@;
            let mut rest: Vec<(String, serde_json::Value)> = members;
            let mut out: Vec<(String, Json)> = Vec::new();
            while rest.len() > 0
                invariant
                    whole == held(value),
                    rest@.len() + out@.len() == all.len(),
                    whole == JsonView::Object(
                        all.map_values(
                            |member: (String, serde_json::Value)| (member.0@, held(member.1)),
                        ),
                    ),
                    forall|k: int| 0 <= k < rest@.len() ==> rest@[k] == all[out@.len() + k],
                    forall|k: int|
                        0 <= k < out@.len() ==> (#[trigger] out@[k]).0@ == all[k].0@
                            && out@[k].1@ == held(all[k].1),
                decreases rest@.len(),
            {
                let ghost at = out@.len() as int;
                let (key, first) = rest.remove(0);
                proof {
                    assert((key, first) == all[at]);
                    assert(whole->Object_0[at].1 == held(first));
                    assert(decreases_to!(whole => whole->Object_0));
                    assert(decreases_to!(whole->Object_0 => whole->Object_0[at]));
                    assert(decreases_to!(whole->Object_0[at] => whole->Object_0[at].1));
                    assert(decreases_to!(whole => held(first)));
                }
                out.push((key, convert(first)));
            }
            let json: Json = Json::Object(out);
            assert(json@->Object_0 =~= whole->Object_0);
            json
        },
    }
}

/// The JSON value that a text writes, if it is one.
pub fn parse(text: &str) -> (json: Option<Json>)
    ensures
        match json {
            Some(json) => json_in(text@) == Some(json@),
            None => json_in(text@) is None,
        },
{
    match parse_value(text) {
        Some(value) => Some(convert(value)),
        None => None,
    }
}

// ---------------------------------------------------------------------------
// Looking things up
// ---------------------------------------------------------------------------

proof fn lemma_member_from(members: Seq<(Seq<char>, JsonView)>, key: Seq<char>, from: int, i: int)
    requires
        0 <= from <= i <= members.len(),
        i < members.len() ==> members[i].0 == key,
        forall|j: int| from <= j < i ==> (#[trigger] members[j]).0 != key,
    ensures
        i < members.len() ==> member_from(members, key, from) == Some(members[i].1),
        i == members.len() ==> member_from(members, key, from) is None,
    decreases i - from,
{
    if from < i {
        assert(members[from].0 != key);
        lemma_member_from(members, key, from + 1, i);
    }
}

/// A member of an object is found under its key, and nothing is found under a
/// key that the object does not have.
pub proof fn members_are_found(members: Seq<(Seq<char>, JsonView)>, key: Seq<char>, i: int)
    requires
        0 <= i <= members.len(),
        i < members.len() ==> members[i].0 == key,
        forall|j: int| 0 <= j < i ==> (#[trigger] members[j]).0 != key,
    ensures
        i < members.len() ==> member(JsonView::Object(members), key) == Some(members[i].1),
        i == members.len() ==> member(JsonView::Object(members), key) is None,
{
    lemma_member_from(members, key, 0, i);
}

} // verus!
