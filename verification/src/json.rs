//! JSON documents as trees, and the reading of bytes into them.

use vstd::prelude::*;
use vstd::string::*;
use crate::error::DecodeError;
use crate::number::decimal_value;

verus! {

/// A JSON value.
///
/// A number holds a decimal literal, so that no floating point is needed to
/// hold it. In a value that was read from bytes it is the literal that the
/// JSON reader prints for the number after parsing it, which need not be the
/// one that the bytes held: `254` stays `254`, and `1e2` becomes `100.0`.
#[derive(Debug, PartialEq, Eq)]
pub enum Json {
    Null,
    Bool(bool),
    Number(String),
    Text(String),
    Array(Vec<Json>),
    Object(Vec<Member>),
}

/// One member of a JSON object.
#[derive(Debug, PartialEq, Eq)]
pub struct Member {
    pub name: String,
    pub value: Json,
}

/// The mathematical content of a [`Json`] value.
pub enum JsonView {
    Null,
    Bool(bool),
    Number(Seq<char>),
    Text(Seq<char>),
    Array(Seq<JsonView>),
    Object(Seq<MemberView>),
}

/// The mathematical content of a [`Member`].
pub struct MemberView {
    pub name: Seq<char>,
    pub value: JsonView,
}

impl View for Json {
    type V = JsonView;

    open spec fn view(&self) -> JsonView
        decreases self,
    {
        match self {
            Json::Null => JsonView::Null,
            Json::Bool(flag) => JsonView::Bool(*flag),
            Json::Number(literal) => JsonView::Number(literal@),
            Json::Text(text) => JsonView::Text(text@),
            Json::Array(items) => JsonView::Array(
                Seq::new(
                    items@.len(),
                    |i: int|
                        if 0 <= i < items@.len() {
                            items@[i]@
                        } else {
                            JsonView::Null
                        },
                ),
            ),
            Json::Object(members) => JsonView::Object(
                Seq::new(
                    members@.len(),
                    |i: int|
                        if 0 <= i < members@.len() {
                            MemberView { name: members@[i].name@, value: members@[i].value@ }
                        } else {
                            MemberView { name: Seq::empty(), value: JsonView::Null }
                        },
                ),
            ),
        }
    }
}

impl Clone for Json {
    /// A copy that holds what the value holds.
    fn clone(&self) -> (copy: Json)
        ensures
            copy@ == self@,
        decreases self,
    {
        match self {
            Json::Null => Json::Null,
            Json::Bool(flag) => Json::Bool(*flag),
            Json::Number(literal) => Json::Number(literal.clone()),
            Json::Text(text) => Json::Text(text.clone()),
            Json::Array(items) => {
                let mut copies: Vec<Json> = Vec::new();
                let mut i: usize = 0;
                while i < items.len()
                    invariant
                        i <= items.len(),
                        copies@.len() == i,
                        *self == Json::Array(*items),
                        forall|j: int| 0 <= j < i ==> (#[trigger] copies@[j])@ == items@[j]@,
                    decreases items.len() - i,
                {
                    proof {
                        assert(self->Array_0 == *items);
                        assert(decreases_to!(self => self->Array_0@[i as int]));
                    }
                    copies.push(items[i].clone());
                    i += 1;
                }
                proof {
                    assert(Json::Array(copies)@->Array_0 =~= Json::Array(*items)@->Array_0);
                }
                Json::Array(copies)
            },
            Json::Object(members) => {
                let mut copies: Vec<Member> = Vec::new();
                let mut i: usize = 0;
                while i < members.len()
                    invariant
                        i <= members.len(),
                        copies@.len() == i,
                        *self == Json::Object(*members),
                        forall|j: int|
                            0 <= j < i ==> (#[trigger] copies@[j]).name@ == members@[j].name@
                                && copies@[j].value@ == members@[j].value@,
                    decreases members.len() - i,
                {
                    let member = &members[i];
                    proof {
                        assert(self->Object_0 == *members);
                        assert(decreases_to!(self => self->Object_0@[i as int].value));
                    }
                    copies.push(Member { name: member.name.clone(), value: member.value.clone() });
                    i += 1;
                }
                proof {
                    assert(Json::Object(copies)@->Object_0 =~= Json::Object(*members)@->Object_0);
                }
                Json::Object(copies)
            },
        }
    }
}

impl Clone for Member {
    /// A copy that holds what the member holds.
    fn clone(&self) -> (copy: Member)
        ensures
            copy.name@ == self.name@,
            copy.value@ == self.value@,
    {
        Member { name: self.name.clone(), value: self.value.clone() }
    }
}

/// The members of an object as pairs of a name and a value.
pub open spec fn members_view(members: Seq<Member>) -> Seq<MemberView> {
    Seq::new(
        members.len(),
        |i: int| MemberView { name: members[i].name@, value: members[i].value@ },
    )
}

/// The values of an array.
pub open spec fn items_view(items: Seq<Json>) -> Seq<JsonView> {
    Seq::new(items.len(), |i: int| items[i]@)
}

/// The value that an object holds under `name`: that of the last member so
/// named, as a map filled member by member would have it.
pub open spec fn member_value(members: Seq<MemberView>, name: Seq<char>) -> Option<JsonView>
    decreases members.len(),
{
    if members.len() == 0 {
        None
    } else if members.last().name == name {
        Some(members.last().value)
    } else {
        member_value(members.drop_last(), name)
    }
}

/// Looking a name up after one more member was appended: the new member
/// answers for its own name, the earlier ones for every other.
pub broadcast proof fn lemma_member_value_push(
    members: Seq<MemberView>,
    member: MemberView,
    name: Seq<char>,
)
    ensures
        #[trigger] member_value(members.push(member), name) == if member.name == name {
            Some(member.value)
        } else {
            member_value(members, name)
        },
{
    assert(members.push(member).drop_last() =~= members);
}

/// A name that no member carries has no value.
pub proof fn lemma_member_value_absent(members: Seq<MemberView>, name: Seq<char>)
    requires
        forall|i: int| 0 <= i < members.len() ==> (#[trigger] members[i]).name != name,
    ensures
        member_value(members, name) is None,
    decreases members.len(),
{
    if members.len() > 0 {
        assert(members.last() == members[members.len() - 1]);
        assert forall|i: int| 0 <= i < members.drop_last().len() implies (
        #[trigger] members.drop_last()[i]).name != name by {
            assert(members.drop_last()[i] == members[i]);
        }
        lemma_member_value_absent(members.drop_last(), name);
    }
}

/// The value that an object holds under a name is the value of one of its
/// members of that name.
pub proof fn lemma_member_value_is_member(members: Seq<MemberView>, name: Seq<char>) -> (at: int)
    requires
        member_value(members, name) is Some,
    ensures
        0 <= at < members.len(),
        members[at].name == name,
        member_value(members, name) == Some(members[at].value),
    decreases members.len(),
{
    if members.last().name == name {
        members.len() - 1
    } else {
        let at = lemma_member_value_is_member(members.drop_last(), name);
        assert(members.drop_last()[at] == members[at]);
        at
    }
}

/// Whether two literals stand for the same number: they are the same
/// literal, or both are literals of digits with one value.
pub open spec fn same_number(first: Seq<char>, second: Seq<char>) -> bool {
    first == second || (decimal_value(first) is Some && decimal_value(first) == decimal_value(
        second,
    ))
}

/// Whether two values are equal as JSON values: the members of an object
/// count by their names and not by their order, and a number counts by what
/// it stands for and not by how it is written. The values are compared in
/// this way down to the given depth, and by plain equality below it, so a
/// greater depth never asks for more.
pub open spec fn same_json(first: JsonView, second: JsonView, depth: nat) -> bool
    decreases depth,
{
    if depth == 0 {
        first == second
    } else {
        match (first, second) {
            (JsonView::Null, JsonView::Null) => true,
            (JsonView::Bool(x), JsonView::Bool(y)) => x == y,
            (JsonView::Number(x), JsonView::Number(y)) => same_number(x, y),
            (JsonView::Text(x), JsonView::Text(y)) => x == y,
            (JsonView::Array(x), JsonView::Array(y)) => x.len() == y.len() && forall|i: int|
                0 <= i < x.len() ==> same_json(#[trigger] x[i], y[i], (depth - 1) as nat),
            (JsonView::Object(x), JsonView::Object(y)) => forall|name: Seq<char>|
                match (#[trigger] member_value(x, name), member_value(y, name)) {
                    (None, None) => true,
                    (Some(u), Some(v)) => same_json(u, v, (depth - 1) as nat),
                    _ => false,
                },
            _ => false,
        }
    }
}

/// Values that are equal as JSON values down to one depth are so down to
/// any greater depth.
pub proof fn lemma_same_json_deeper(first: JsonView, second: JsonView, depth: nat)
    requires
        same_json(first, second, depth),
    ensures
        same_json(first, second, depth + 1),
    decreases depth,
{
    if depth == 0 {
        match first {
            JsonView::Array(x) => {
                assert forall|i: int| 0 <= i < x.len() implies same_json(#[trigger] x[i], x[i], 0) by {}
            },
            JsonView::Object(x) => {
                assert forall|name: Seq<char>|
                    match (#[trigger] member_value(x, name), member_value(x, name)) {
                        (None, None) => true,
                        (Some(u), Some(v)) => same_json(u, v, 0),
                        _ => false,
                    } by {}
            },
            _ => {},
        }
    } else {
        match (first, second) {
            (JsonView::Array(x), JsonView::Array(y)) => {
                assert forall|i: int| 0 <= i < x.len() implies same_json(
                    #[trigger] x[i],
                    y[i],
                    depth,
                ) by {
                    lemma_same_json_deeper(x[i], y[i], (depth - 1) as nat);
                }
            },
            (JsonView::Object(x), JsonView::Object(y)) => {
                assert forall|name: Seq<char>|
                    match (#[trigger] member_value(x, name), member_value(y, name)) {
                        (None, None) => true,
                        (Some(u), Some(v)) => same_json(u, v, depth),
                        _ => false,
                    } by {
                    match (member_value(x, name), member_value(y, name)) {
                        (Some(u), Some(v)) => {
                            lemma_same_json_deeper(u, v, (depth - 1) as nat);
                        },
                        _ => {},
                    }
                }
            },
            _ => {},
        }
    }
}

/// An object's view is made of the views of its members.
pub proof fn lemma_object_view(members: Vec<Member>)
    ensures
        Json::Object(members)@ == JsonView::Object(members_view(members@)),
{
    assert(Json::Object(members)@->Object_0 =~= members_view(members@));
}

/// An array's view is made of the views of its items.
pub proof fn lemma_array_view(items: Vec<Json>)
    ensures
        Json::Array(items)@ == JsonView::Array(items_view(items@)),
{
    assert(Json::Array(items)@->Array_0 =~= items_view(items@));
}

/// Looks a member up by name among the members of an object.
pub fn find_member<'a>(members: &'a Vec<Member>, name: &str) -> (found: Option<&'a Json>)
    ensures
        match found {
            Some(value) => member_value(members_view(members@), name@) == Some(value@),
            None => member_value(members_view(members@), name@) is None,
        },
{
    let key = String::from_str(name);
    let ghost all = members_view(members@);
    let mut found: Option<&'a Json> = None;
    let mut i: usize = 0;
    while i < members.len()
        invariant
            i <= members.len(),
            key@ == name@,
            all == members_view(members@),
            match found {
                Some(value) => member_value(all.take(i as int), name@) == Some(value@),
                None => member_value(all.take(i as int), name@) is None,
            },
        decreases members.len() - i,
    {
        proof {
            assert(all.take(i + 1).drop_last() =~= all.take(i as int));
        }
        if members[i].name == key {
            found = Some(&members[i].value);
        }
        i += 1;
    }
    proof {
        assert(all.take(i as int) =~= all);
    }
    found
}

/// `serde_json::Value`, a parsed document as serde_json holds it.
#[verifier::external_type_specification]
#[verifier::external_body]
pub struct ExValue(serde_json::Value);

/// `serde_json::Error`, the reason why serde_json gave up on a document.
#[verifier::external_type_specification]
#[verifier::external_body]
pub struct ExError(serde_json::Error);

/// The tree that a `serde_json::Value` holds: its variants one for one, a
/// number by the decimal literal that serde_json prints for it, the members
/// of an object in the order in which serde_json walks them.
pub uninterp spec fn value_tree(value: serde_json::Value) -> JsonView;

/// The document that `serde_json::from_slice` reads from `bytes`, and `None`
/// where it rejects them.
pub uninterp spec fn json_document(bytes: Seq<u8>) -> Option<JsonView>;

/// Calls `serde_json::from_slice` for a `serde_json::Value`. The contract
/// claims only that the outcome is a function of the bytes: it gives that
/// function the name `json_document`.
#[verifier::external_body]
fn read_value(bytes: &[u8]) -> (outcome: Result<serde_json::Value, serde_json::Error>)
    ensures
        match outcome {
            Ok(value) => json_document(bytes@) == Some(value_tree(value)),
            Err(_) => json_document(bytes@) is None,
        },
{
    serde_json::from_slice::<serde_json::Value>(bytes)
}

/// Copies a `serde_json::Value` into a [`Json`], variant by variant: a
/// number is written out with `serde_json::Number`'s `to_string`, and the
/// members of an object are walked with `serde_json::Map::iter`. The
/// contract claims that the copy holds what the value holds, and gives that
/// the name `value_tree`.
#[verifier::external_body]
fn tree_of_value(value: &serde_json::Value) -> (tree: Json)
    ensures
        tree@ == value_tree(*value),
{
    match value {
        serde_json::Value::Null => Json::Null,
        serde_json::Value::Bool(flag) => Json::Bool(*flag),
        serde_json::Value::Number(number) => Json::Number(number.to_string()),
        serde_json::Value::String(text) => Json::Text(text.clone()),
        serde_json::Value::Array(items) => Json::Array(items.iter().map(tree_of_value).collect()),
        serde_json::Value::Object(map) => Json::Object(
            map.iter().map(|(k, v)| Member { name: k.clone(), value: tree_of_value(v) }).collect(),
        ),
    }
}

/// `serde_json::Error::line`: nothing is claimed of the number.
pub assume_specification[ serde_json::Error::line ](error: &serde_json::Error) -> (line: usize);

/// `serde_json::Error::column`: nothing is claimed of the number.
pub assume_specification[ serde_json::Error::column ](error: &serde_json::Error) -> (column: usize);

/// Reads a JSON document from bytes.
///
/// Succeeds exactly on the bytes that serde_json accepts as one JSON value,
/// and then returns the tree that it read. Where an object in the bytes
/// names a member twice, the reader keeps the later one only, so the tree
/// never shows that there were two.
pub fn parse_json(bytes: &[u8]) -> (outcome: Result<Json, DecodeError>)
    ensures
        match outcome {
            Ok(tree) => json_document(bytes@) == Some(tree@),
            Err(error) => json_document(bytes@) is None && error is Syntax,
        },
{
    match read_value(bytes) {
        Ok(value) => Ok(tree_of_value(&value)),
        Err(error) => Err(DecodeError::Syntax { line: error.line(), column: error.column() }),
    }
}

} // verus!
