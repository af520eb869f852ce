//! The text of a JSON object whose members are all strings.

use vstd::prelude::*;

verus! {

/// The error of the JSON serialiser.
#[verifier::external_type_specification]
#[verifier::external_body]
pub struct ExJsonError(serde_json::Error);

/// One member of a JSON object: a key and the string that it holds.
#[derive(Clone, Debug)]
pub struct Field {
    pub key: String,
    pub value: String,
}

impl View for Field {
    type V = (Seq<char>, Seq<char>);

    open spec fn view(&self) -> (Seq<char>, Seq<char>) {
        (self.key@, self.value@)
    }
}

/// The keys and values of `fields`, in their order.
pub open spec fn field_views(fields: Seq<Field>) -> Seq<(Seq<char>, Seq<char>)> {
    fields.map_values(|field: Field| field@)
}

/// What the serialiser writes for the object with the members `fields`, in
/// that order.
pub uninterp spec fn json_object(fields: Seq<(Seq<char>, Seq<char>)>) -> Seq<char>;

/// Calls `serde_json::to_string` on a `serde_json::Map` that holds each of
/// `fields` as a string value, inserted in order. The contract claims two
/// things. The call succeeds: the serialiser fails only where a value refuses
/// to be written, where a key of a map is no string, or where its writer
/// fails, and here every key and every value is a string and the writer is a
/// vector of bytes. And the text is the one function `json_object` of the keys
/// and values: the same members give the same text.
#[verifier::external_body]
fn serialize(fields: &Vec<Field>) -> (r: Result<String, serde_json::Error>)
    ensures
        r is Ok,
        r matches Ok(text) ==> text@ == json_object(field_views(fields@)),
{
    let mut object = serde_json::Map::new();
    for field in fields.iter() {
        object.insert(field.key.clone(), serde_json::Value::String(field.value.clone()));
    }
    serde_json::to_string(&object)
}

/// The text of the JSON object with the members `fields`.
pub fn object_text(fields: &Vec<Field>) -> (text: String)
    ensures
        text@ == json_object(field_views(fields@)),
{
    match serialize(fields) {
        Ok(t) => t,
        Err(_) => vstd::pervasive::unreached(),
    }
}

} // verus!
