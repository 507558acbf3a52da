//! Example domain types of the project scaffold: an entity, a value object,
//! a JSON-carrying record, and the data-access trait that an infrastructure
//! layer implements.

use vstd::prelude::*;

verus! {

/// An example entity, identified by `id`.
#[derive(Debug, Clone, PartialEq, Eq)]
pub struct User {
    /// Unique identifier.
    pub id: u64,
    /// Display name.
    pub name: String,
    /// Contact address.
    pub email: String,
}

/// An example value object: no identity, passed around immutably.
#[derive(Debug, Clone, PartialEq, Eq)]
pub struct Address {
    /// Street line.
    pub street: String,
    /// City name.
    pub city: String,
    /// Postal code.
    pub zipcode: String,
}

#[verifier::external_type_specification]
#[verifier::external_body]
/// serde_json's dynamic JSON value; opaque here, carried through.
pub struct ExValue(serde_json::Value);

/// Relies on serde_json's derived `Clone` for `Value`: a deep copy.
pub assume_specification[ <serde_json::Value as Clone>::clone ](v: &serde_json::Value) -> (r:
    serde_json::Value);

/// An example record carrying an arbitrary JSON value.
#[derive(Debug, Clone)]
pub struct Example {
    /// The carried JSON value.
    pub value: serde_json::Value,
}

/// The example data-access interface; an infrastructure layer implements it.
pub trait ExampleRepository {

}

} // verus!
