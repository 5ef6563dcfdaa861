//! JSON in and out, through `serde_json`.
use crate::table::{find_where, lookup, model};
use crate::text::{opt_str, opt_text, same, texts};
use vstd::prelude::*;

verus! {

/// A JSON value without parts.
pub enum JsonScalar<T = String> {
    Null,
    Text(T),
    Int(i64),
    Flag(bool),
}

impl View for JsonScalar<String> {
    type V = JsonScalar<Seq<char>>;

    open spec fn view(&self) -> JsonScalar<Seq<char>> {
        match self {
            JsonScalar::Null => JsonScalar::Null,
            JsonScalar::Text(text) => JsonScalar::Text(text@),
            JsonScalar::Int(number) => JsonScalar::Int(*number),
            JsonScalar::Flag(flag) => JsonScalar::Flag(*flag),
        }
    }
}

/// A member of a JSON object.
pub struct JsonField<T = String> {
    pub name: T,
    pub value: JsonScalar<T>,
}

impl View for JsonField<String> {
    type V = JsonField<Seq<char>>;

    open spec fn view(&self) -> JsonField<Seq<char>> {
        JsonField { name: self.name@, value: self.value@ }
    }
}

/// A JSON text or null.
pub open spec fn text_or_null(value: Option<Seq<char>>) -> JsonScalar<Seq<char>> {
    match value {
        Some(text) => JsonScalar::Text(text),
        None => JsonScalar::Null,
    }
}

/// A JSON text.
pub fn json_text(value: &str) -> (scalar: JsonScalar)
    ensures
        scalar@ == JsonScalar::Text(value@),
{
    JsonScalar::Text(value.to_owned())
}

/// A JSON text or null.
pub fn json_opt(value: Option<&str>) -> (scalar: JsonScalar)
    ensures
        scalar@ == text_or_null(opt_str(value)),
{
    match value {
        Some(text) => json_text(text),
        None => JsonScalar::Null,
    }
}

/// A JSON array of scalars, or an object of them.
pub enum JsonDocument {
    Array(Vec<JsonScalar>),
    Object(Vec<JsonField>),
}

/// The model of a document.
pub enum DocumentModel {
    Array(Seq<JsonScalar<Seq<char>>>),
    Object(Seq<JsonField<Seq<char>>>),
}

impl View for JsonDocument {
    type V = DocumentModel;

    open spec fn view(&self) -> DocumentModel {
        match self {
            JsonDocument::Array(items) => DocumentModel::Array(model(items@)),
            JsonDocument::Object(fields) => DocumentModel::Object(model(fields@)),
        }
    }
}

/// The compact JSON text, in bytes, of a document.
pub uninterp spec fn json_bytes(document: DocumentModel) -> Seq<u8>;

/// The compact JSON text, in bytes, of an array of scalars.
pub open spec fn json_array_bytes(items: Seq<JsonScalar<Seq<char>>>) -> Seq<u8> {
    json_bytes(DocumentModel::Array(items))
}

/// The compact JSON text, in bytes, of an object of scalars.
pub open spec fn json_object_bytes(fields: Seq<JsonField<Seq<char>>>) -> Seq<u8> {
    json_bytes(DocumentModel::Object(fields))
}

/// Whether two objects have the same names in the same order, each name once.
pub open spec fn named_alike(
    fields: Seq<JsonField<Seq<char>>>,
    others: Seq<JsonField<Seq<char>>>,
) -> bool {
    &&& fields.len() == others.len()
    &&& forall|i: int| 0 <= i < fields.len() ==> (#[trigger] fields[i]).name == others[i].name
    &&& forall|i: int, j: int|
        0 <= i < j < fields.len() ==> (#[trigger] fields[i]).name != (#[trigger] fields[j]).name
}

/// Whether two documents have the same shape: both are arrays, or both are
/// objects of the same names.
pub open spec fn shaped_alike(document: DocumentModel, other: DocumentModel) -> bool {
    match (document, other) {
        (DocumentModel::Array(_), DocumentModel::Array(_)) => true,
        (DocumentModel::Object(fields), DocumentModel::Object(others)) => named_alike(
            fields,
            others,
        ),
        _ => false,
    }
}

/// The compact JSON text of an object of scalars.
pub uninterp spec fn json_object_text(fields: Seq<JsonField<Seq<char>>>) -> Seq<char>;

/// The compact JSON text of an array of texts.
pub uninterp spec fn json_list_text(items: Seq<Seq<char>>) -> Seq<char>;

/// The array of texts that a JSON text writes, or why it writes none.
pub uninterp spec fn json_text_list(text: Seq<char>) -> Result<Seq<Seq<char>>, Seq<char>>;

/// The members of the object that a JSON text writes, if it writes one.
pub uninterp spec fn json_members(text: Seq<char>) -> Option<Seq<JsonMember<Seq<char>>>>;

/// A member of an object to be written.
pub open spec fn member(name: Seq<char>, value: JsonScalar<Seq<char>>) -> JsonField<Seq<char>> {
    JsonField { name, value }
}

/// Makes a member of an object to be written.
pub fn json_field(name: &str, value: JsonScalar) -> (field: JsonField)
    ensures
        field@ == member(name@, value@),
{
    JsonField { name: name.to_owned(), value }
}

/// Writes a document with `serde_json::to_vec`. Its bytes are a function of the
/// scalars, or of the members, in it, and no other document of its shape has the
/// same bytes: a text is written between quotes with its quotes, backslashes and
/// control characters escaped, a number in decimal digits, and a null or a flag
/// as its own word. Of objects nothing is said where their names differ or come
/// twice: a map holds each name once, whatever the order the names came in.
/// Writing values that hold texts, integers, flags and nulls under text keys
/// cannot fail.
#[verifier::external_body]
fn encode_document(document: &JsonDocument) -> (bytes: Vec<u8>)
    ensures
        bytes@ == json_bytes(document@),
        forall|other: DocumentModel|
            shaped_alike(document@, other) && #[trigger] json_bytes(other) == bytes@ ==> other
                == document@,
{
    let scalar = |value: &JsonScalar| match value {
        JsonScalar::Null => serde_json::Value::Null,
        JsonScalar::Text(text) => serde_json::Value::from(text.as_str()),
        JsonScalar::Int(number) => serde_json::Value::from(*number),
        JsonScalar::Flag(flag) => serde_json::Value::from(*flag),
    };
    let field = |field: &JsonField| (field.name.clone(), scalar(&field.value));
    let value = match document {
        JsonDocument::Array(items) => serde_json::Value::Array(items.iter().map(scalar).collect()),
        JsonDocument::Object(fields) => serde_json::Value::Object(fields.iter().map(field).collect()),
    };
    serde_json::to_vec(&value).expect("plain JSON values can be written")
}

/// Writes an array of scalars.
pub fn encode_array(items: Vec<JsonScalar>) -> (bytes: Vec<u8>)
    ensures
        bytes@ == json_array_bytes(model(items@)),
        forall|others: Seq<JsonScalar<Seq<char>>>| #[trigger]
            json_array_bytes(others) == bytes@ ==> others == model(items@),
{
    encode_document(&JsonDocument::Array(items))
}

/// Writes an object of scalars.
pub fn encode_object(fields: Vec<JsonField>) -> (bytes: Vec<u8>)
    ensures
        bytes@ == json_object_bytes(model(fields@)),
        forall|others: Seq<JsonField<Seq<char>>>|
            named_alike(model(fields@), others) && #[trigger] json_object_bytes(others) == bytes@
                ==> others == model(fields@),
{
    encode_document(&JsonDocument::Object(fields))
}

/// What reading an object of one text member gives.
pub open spec fn one_member_read(name: Seq<char>, text: Seq<char>) -> Option<
    Seq<JsonMember<Seq<char>>>,
> {
    Some(seq![JsonMember { name, value: JsonValue::Text(text) }])
}

/// Writes an object of scalars with `serde_json::Value`'s own text form. The text
/// is a function of the members, and reading the text of an object whose one
/// member is a text gives that member back.
#[verifier::external_body]
pub(crate) fn write_object(fields: &Vec<JsonField>) -> (text: String)
    ensures
        text@ == json_object_text(model(fields@)),
        fields@.len() == 1 && fields@[0].value is Text ==> json_members(text@) == one_member_read(
            fields@[0].name@,
            fields@[0].value->Text_0@,
        ),
{
    let mut object = serde_json::Map::new();
    for field in fields {
        let value = match &field.value {
            JsonScalar::Null => serde_json::Value::Null,
            JsonScalar::Text(text) => serde_json::Value::from(text.as_str()),
            JsonScalar::Int(number) => serde_json::Value::from(*number),
            JsonScalar::Flag(flag) => serde_json::Value::from(*flag),
        };
        object.insert(field.name.clone(), value);
    }
    serde_json::Value::Object(object).to_string()
}

/// Reading gave `items`.
pub open spec fn list_read_ok(items: Seq<Seq<char>>) -> Result<Seq<Seq<char>>, Seq<char>> {
    Ok(items)
}

/// Writes an array of texts with `serde_json::to_string`. The text is a function
/// of the array, and reading it gives the array back. Writing texts cannot fail.
#[verifier::external_body]
pub(crate) fn encode_list(items: &Vec<String>) -> (text: String)
    ensures
        text@ == json_list_text(texts(items@)),
        json_text_list(text@) == list_read_ok(texts(items@)),
{
    serde_json::to_string(items).expect("a list of texts can be written")
}

/// What reading a list of texts gave.
pub open spec fn list_read(
    result: Result<Vec<String>, String>,
) -> Result<Seq<Seq<char>>, Seq<char>> {
    match result {
        Ok(items) => Ok(texts(items@)),
        Err(error) => Err(error@),
    }
}

/// Reads an array of texts with `serde_json::from_str`. What it gives, the text
/// of the error too, is a function of the text read.
#[verifier::external_body]
pub(crate) fn decode_list(text: &str) -> (result: Result<Vec<String>, String>)
    ensures
        list_read(result) == json_text_list(text@),
{
    serde_json::from_str::<Vec<String>>(text).map_err(|error| error.to_string())
}

/// A member's value, as far as the library tells values apart.
pub enum JsonValue<T = String> {
    Text(T),
    Flag(bool),
    Other,
}

/// A member of an object that was read.
pub struct JsonMember<T = String> {
    pub name: T,
    pub value: JsonValue<T>,
}

impl View for JsonMember<String> {
    type V = JsonMember<Seq<char>>;

    open spec fn view(&self) -> JsonMember<Seq<char>> {
        JsonMember {
            name: self.name@,
            value: match self.value {
                JsonValue::Text(text) => JsonValue::Text(text@),
                JsonValue::Flag(flag) => JsonValue::Flag(flag),
                JsonValue::Other => JsonValue::Other,
            },
        }
    }
}

/// The model of what reading an object gave.
pub open spec fn members_read(members: Option<Vec<JsonMember>>) -> Option<
    Seq<JsonMember<Seq<char>>>,
> {
    match members {
        Some(list) => Some(model(list@)),
        None => None,
    }
}

/// Reads a JSON object with `serde_json::from_str`: its members, each with its
/// value where that is a text or a flag. A text that is no JSON, or another JSON
/// value, gives nothing. The result is a function of the text read.
#[verifier::external_body]
pub(crate) fn decode_object(text: &str) -> (members: Option<Vec<JsonMember>>)
    ensures
        members_read(members) == json_members(text@),
{
    match serde_json::from_str::<serde_json::Value>(text) {
        Ok(serde_json::Value::Object(object)) => {
            let member = |(name, value): (String, serde_json::Value)| match value {
                serde_json::Value::String(text) => JsonMember { name, value: JsonValue::Text(text) },
                serde_json::Value::Bool(flag) => JsonMember { name, value: JsonValue::Flag(flag) },
                _ => JsonMember { name, value: JsonValue::Other },
            };
            Some(object.into_iter().map(member).collect())
        },
        _ => None,
    }
}

/// The members called `name`.
pub open spec fn named(name: Seq<char>) -> spec_fn(JsonMember<Seq<char>>) -> bool {
    |member: JsonMember<Seq<char>>| member.name == name
}

/// The text of the member called `name`, if it is there and a text.
pub open spec fn member_text(members: Seq<JsonMember<Seq<char>>>, name: Seq<char>) -> Option<
    Seq<char>,
> {
    match lookup(members, named(name)) {
        Some(member) => match member.value {
            JsonValue::Text(text) => Some(text),
            _ => None,
        },
        None => None,
    }
}

/// Whether the member called `name` is there and is the flag `true`.
pub open spec fn member_is_true(members: Seq<JsonMember<Seq<char>>>, name: Seq<char>) -> bool {
    match lookup(members, named(name)) {
        Some(member) => match member.value {
            JsonValue::Flag(flag) => flag,
            _ => false,
        },
        None => false,
    }
}

/// Finds the text of the member called `name`.
pub fn text_member(members: &Vec<JsonMember>, name: &str) -> (text: Option<String>)
    ensures
        opt_text(text) == member_text(model(members@), name@),
{
    let found = find_where(
        members,
        |member: &JsonMember| -> (yes: bool)
            ensures yes == named(name@)(member@)
            { same(member.name.as_str(), name) },
        Ghost(named(name@)),
    );
    match found {
        Some(at) => match &members[at].value {
            JsonValue::Text(text) => Some(text.clone()),
            _ => None,
        },
        None => None,
    }
}

/// Decides whether the member called `name` is the flag `true`.
pub fn true_member(members: &Vec<JsonMember>, name: &str) -> (yes: bool)
    ensures
        yes == member_is_true(model(members@), name@),
{
    let found = find_where(
        members,
        |member: &JsonMember| -> (yes: bool)
            ensures yes == named(name@)(member@)
            { same(member.name.as_str(), name) },
        Ghost(named(name@)),
    );
    match found {
        Some(at) => match &members[at].value {
            JsonValue::Flag(flag) => *flag,
            _ => false,
        },
        None => false,
    }
}

} // verus!
