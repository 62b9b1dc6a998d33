//! JSON documents in compact text form.

use vstd::prelude::*;

use crate::error::StateError;
use crate::text::{joined, texts};

verus! {

/// An error of the JSON crate. Opaque: only that it came back matters.
#[verifier::external_type_specification]
#[verifier::external_body]
pub struct ExJsonError(serde_json::Error);

/// Compact form of the document that a text denotes, where it denotes one, as
/// the JSON crate reads and prints it.
pub uninterp spec fn compact_json(text: Seq<char>) -> Option<Seq<char>>;

/// The texts of a JSON array of strings, where a text denotes one, as the JSON
/// crate reads it.
pub uninterp spec fn json_strings(text: Seq<char>) -> Option<Seq<Seq<char>>>;

/// The JSON string literal of a text, as the JSON crate prints it.
pub uninterp spec fn json_literal(text: Seq<char>) -> Seq<char>;

/// `serde_json::from_str` into a JSON value, handed back in its compact text
/// form. The text is accepted exactly when it denotes a document.
#[verifier::external_body]
fn read_json(text: &str) -> (r: Result<String, serde_json::Error>)
    ensures
        match r {
            Ok(document) => compact_json(text@) == Some(document@),
            Err(_) => compact_json(text@) is None,
        },
{
    let value: serde_json::Value = serde_json::from_str(text)?;
    Ok(value.to_string())
}

/// Whether a text that was printed from string literals was read as the texts
/// that it was printed from.
pub open spec fn reads_printed_strings<E>(text: Seq<char>, r: Result<Vec<String>, E>) -> bool {
    forall|values: Seq<Seq<char>>|
        text == #[trigger] strings_json(values) ==> (r matches Ok(read) && texts(read@) == values)
}

/// `serde_json::from_str` into a list of texts. The text is accepted exactly
/// when it denotes an array of strings, and an array printed from string
/// literals reads back as the texts that it was printed from.
#[verifier::external_body]
fn read_strings(text: &str) -> (r: Result<Vec<String>, serde_json::Error>)
    ensures
        match r {
            Ok(values) => json_strings(text@) == Some(texts(values@)),
            Err(_) => json_strings(text@) is None,
        },
        reads_printed_strings(text@, r),
{
    serde_json::from_str(text)
}

/// `serde_json::Value::to_string` of a string value: the quoted and escaped
/// literal.
#[verifier::external_body]
fn print_literal(text: &str) -> (r: String)
    ensures
        r@ == json_literal(text@),
{
    serde_json::Value::from(text).to_string()
}

/// The JSON string literal of a text.
pub fn literal(text: &str) -> (r: String)
    ensures
        r@ == json_literal(text@),
{
    print_literal(text)
}

/// Compact JSON array of strings.
pub open spec fn strings_json(values: Seq<Seq<char>>) -> Seq<char> {
    "["@ + joined(values.map_values(|value: Seq<char>| json_literal(value)), ","@) + "]"@
}

/// Prints texts as a compact JSON array of strings.
pub fn print_strings(values: &[String]) -> (r: String)
    ensures
        r@ == strings_json(texts(values@)),
{
    let mut parts: Vec<String> = Vec::new();
    let mut i: usize = 0;
    while i < values.len()
        invariant
            i <= values@.len(),
            parts@.len() == i,
            forall|k: int| 0 <= k < i ==> #[trigger] parts@[k]@ == json_literal(values@[k]@),
        decreases values@.len() - i,
    {
        parts.push(literal(values[i].as_str()));
        i += 1;
    }
    assert(texts(parts@) =~= texts(values@).map_values(|value: Seq<char>| json_literal(value)));
    let mut out = String::new();
    out.push_str("[");
    let body = crate::text::join(parts.as_slice(), ",");
    out.push_str(body.as_str());
    out.push_str("]");
    assert(out@ =~= strings_json(texts(values@)));
    out
}

/// Reads a JSON array of strings.
pub fn parse_strings(text: &str) -> (r: Result<Vec<String>, StateError>)
    ensures
        match json_strings(text@) {
            Some(values) => r matches Ok(read) && texts(read@) == values,
            None => r == Err::<Vec<String>, StateError>(StateError::Json),
        },
        reads_printed_strings(text@, r),
{
    match read_strings(text) {
        Ok(values) => Ok(values),
        Err(_) => Err(StateError::Json),
    }
}

/// Texts that were printed as an array read back unchanged.
pub fn reprint_strings(values: &[String]) -> (r: Result<Vec<String>, StateError>)
    ensures
        r matches Ok(read) && texts(read@) == texts(values@),
{
    let printed = print_strings(values);
    parse_strings(printed.as_str())
}

/// A JSON document in compact text form.
#[derive(Clone, Debug, PartialEq, Eq)]
pub struct Json {
    pub text: String,
}

impl View for Json {
    type V = Seq<char>;

    open spec fn view(&self) -> Seq<char> {
        self.text@
    }
}

impl Json {
    /// What reading a text as a JSON document gives.
    pub open spec fn parsed(text: Seq<char>, r: Result<Json, StateError>) -> bool {
        match compact_json(text) {
            Some(document) => r matches Ok(json) && json@ == document,
            None => r == Err::<Json, StateError>(StateError::Json),
        }
    }

    /// Reads a JSON document.
    pub fn parse(text: &str) -> (r: Result<Json, StateError>)
        ensures
            Json::parsed(text@, r),
    {
        match read_json(text) {
            Ok(text) => Ok(Json { text }),
            Err(_) => Err(StateError::Json),
        }
    }

    /// Compact text of the document.
    pub fn as_str(&self) -> (text: &str)
        ensures
            text@ == self@,
    {
        self.text.as_str()
    }

    /// An equal document.
    pub fn duplicate(&self) -> (r: Json)
        ensures
            r == *self,
    {
        Json { text: self.text.clone() }
    }
}

} // verus!
