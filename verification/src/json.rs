//! JSON values as they arrive on the wire.
//!
//! Row cells and the server's error payload are `serde_json::Value`s. The
//! library never looks inside one: it carries them through and asks
//! `serde_json` for their text.

use vstd::prelude::*;

verus! {

/// `serde_json::Value`, carried through as an opaque value.
#[verifier::external_type_specification]
#[verifier::external_body]
pub struct ExValue(serde_json::Value);

/// The compact JSON text of a value: what `serde_json` writes for it through
/// `Display`, without added white space.
pub uninterp spec fn json_text(value: serde_json::Value) -> Seq<char>;

/// Renders a value as compact JSON text.
///
/// Trusted: calls `<serde_json::Value as ToString>::to_string`, which goes
/// through the value's `Display` impl. The contract only gives that text its
/// name, `json_text`; it depends on the value alone.
#[verifier::external_body]
pub(crate) fn render(value: &serde_json::Value) -> (text: String)
    ensures
        text@ == json_text(*value),
{
    value.to_string()
}

} // verus!
