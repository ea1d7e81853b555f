//! JSON values, and the outside JSON values that are only carried through.
use vstd::prelude::*;
use vstd::string::*;

verus! {

broadcast use vstd::string::group_string_axioms;

/// `serde_json::Value`: a payload that is carried from a request to its receiver and never
/// looked into.
#[verifier::external_type_specification]
#[verifier::external_body]
pub struct ExPayload(serde_json::Value);

/// `serde_json::Value::clone` gives back a value equal to the one it was called on.
pub assume_specification[ <serde_json::Value as Clone>::clone ](value: &serde_json::Value) -> (copy:
    serde_json::Value)
    ensures
        copy == *value,
;

/// A JSON number. A number with a fraction or an exponent is held by the bits of its double.
#[derive(Clone, Copy, Debug, PartialEq, Eq, Structural)]
pub enum JsonNumber {
    Unsigned(u64),
    Negative(i64),
    FloatBits(u64),
}

/// One member of a JSON object.
#[derive(Debug, PartialEq, Eq)]
pub struct JsonMember {
    pub key: String,
    pub value: JsonValue,
}

/// A JSON value whose parts are looked into.
#[derive(Debug, PartialEq, Eq)]
pub enum JsonValue {
    Null,
    Bool(bool),
    Number(JsonNumber),
    String(String),
    Array(Vec<JsonValue>),
    Object(Vec<JsonMember>),
}

/// What a JSON value is, with texts and rows taken as sequences.
pub enum JsonView {
    Null,
    Bool(bool),
    Number(JsonNumber),
    String(Seq<char>),
    Array(Seq<JsonView>),
    Object(Seq<(Seq<char>, JsonView)>),
}

pub open spec fn json_view(value: JsonValue) -> JsonView
    decreases value,
{
    match value {
        JsonValue::Null => JsonView::Null,
        JsonValue::Bool(b) => JsonView::Bool(b),
        JsonValue::Number(n) => JsonView::Number(n),
        JsonValue::String(s) => JsonView::String(s@),
        JsonValue::Array(items) => JsonView::Array(
            Seq::new(
                items@.len(),
                |i: int| if 0 <= i < items@.len() { json_view(items@[i]) } else { arbitrary() },
            ),
        ),
        JsonValue::Object(members) => JsonView::Object(
            Seq::new(
                members@.len(),
                |i: int|
                    if 0 <= i < members@.len() {
                        (members@[i].key@, json_view(members@[i].value))
                    } else {
                        arbitrary()
                    },
            ),
        ),
    }
}

impl View for JsonValue {
    type V = JsonView;

    open spec fn view(&self) -> JsonView {
        json_view(*self)
    }
}

impl Clone for JsonValue {
    fn clone(&self) -> (copy: Self)
        ensures
            copy@ == self@,
        decreases self,
    {
        match self {
            JsonValue::Null => JsonValue::Null,
            JsonValue::Bool(b) => JsonValue::Bool(*b),
            JsonValue::Number(n) => JsonValue::Number(*n),
            JsonValue::String(s) => JsonValue::String(s.clone()),
            JsonValue::Array(items) => {
                let mut out: Vec<JsonValue> = Vec::new();
                let mut i: usize = 0;
                while i < items.len()
                    invariant
                        i <= items.len(),
                        out.len() == i,
                        forall|j: int| 0 <= j < i ==> (#[trigger] out@[j])@ == items@[j]@,
                        decreases_to!(self => items),
                    decreases items.len() - i,
                {
                    out.push(items[i].clone());
                    i = i + 1;
                }
                let copy = JsonValue::Array(out);
                assert(copy@->Array_0 =~= self@->Array_0);
                copy
            },
            JsonValue::Object(members) => {
                let mut out: Vec<JsonMember> = Vec::new();
                let mut i: usize = 0;
                while i < members.len()
                    invariant
                        i <= members.len(),
                        out.len() == i,
                        forall|j: int|
                            0 <= j < i ==> (#[trigger] out@[j]).key@ == members@[j].key@
                                && out@[j].value@ == members@[j].value@,
                        decreases_to!(self => members),
                    decreases members.len() - i,
                {
                    out.push(
                        JsonMember { key: members[i].key.clone(), value: members[i].value.clone() },
                    );
                    i = i + 1;
                }
                let copy = JsonValue::Object(out);
                assert(copy@->Object_0 =~= self@->Object_0);
                copy
            },
        }
    }
}

/// The view of a JSON value tells its kind and all of its parts.
pub proof fn law_json_is_seen_whole(value: JsonValue, i: int)
    ensures
        value is Null <==> value@ is Null,
        value matches JsonValue::Bool(b) ==> value@ == JsonView::Bool(b),
        value matches JsonValue::Number(n) ==> value@ == JsonView::Number(n),
        value matches JsonValue::String(s) ==> value@ == JsonView::String(s@),
        value matches JsonValue::Array(items) ==> (value@ matches JsonView::Array(row) && row.len()
            == items@.len() && (0 <= i < items@.len() ==> row[i] == items@[i]@)),
        value matches JsonValue::Object(members) ==> (value@ matches JsonView::Object(row)
            && row.len() == members@.len() && (0 <= i < members@.len() ==> row[i] == (
            members@[i].key@,
            members@[i].value@,
        ))),
{
}

} // verus!
