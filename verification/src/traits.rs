//! What the generated code relies on, for users to implement or derive.
use vstd::prelude::*;

verus! {

/// Formats the path of a request from a value's fields.
pub trait UrlParams {
    fn make_path(&self) -> String;
}

/// Builds a value from the text of a response.
pub trait Deserializer {
    fn deserialize(content: &String) -> Self where Self: Sized;
}

/// Writes a value as the text of a request's body.
pub trait Serializer {
    fn serialize(&self) -> String;
}

} // verus!
