//! The machine-readable API description.
use vstd::prelude::*;
use utoipa::openapi::OpenApi;
use crate::error::GameError;

verus! {

#[verifier::external_type_specification]
#[verifier::external_body]
pub struct ExOpenApi(OpenApi);

#[verifier::external_type_specification]
#[verifier::external_body]
pub struct ExJsonError(serde_json::Error);

/// Relies on utoipa's `OpenApi::to_pretty_json`, which renders the document
/// with `serde_json::to_string_pretty`.
#[verifier::external_body]
fn pretty_json(doc: &OpenApi) -> Result<String, serde_json::Error> {
    doc.to_pretty_json()
}

/// Relies on the `Display` of `serde_json::Error`: its message.
#[verifier::external_body]
fn json_error_message(e: &serde_json::Error) -> String {
    e.to_string()
}

/// Renders the API description `doc` as indented JSON; a failure to render
/// is a serialization error.
pub fn generate_openapi_spec(doc: &OpenApi) -> (r: Result<String, GameError>)
    ensures
        r matches Err(e) ==> e is Serialization,
{
    match pretty_json(doc) {
        Ok(text) => Ok(text),
        Err(e) => Err(GameError::Serialization(json_error_message(&e))),
    }
}

} // verus!
