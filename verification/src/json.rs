//! JSON documents that are passed through without being interpreted.

use vstd::prelude::*;

verus! {

/// A JSON document of `serde_json`. Nothing here looks inside one.
#[verifier::external_type_specification]
#[verifier::external_body]
pub struct ExDocument(serde_json::Value);

/// The error of `serde_json`.
#[verifier::external_type_specification]
#[verifier::external_body]
pub struct ExDocumentError(serde_json::Error);

/// The pretty-printed text of `document` as `serde_json::to_string_pretty`
/// writes it, or `None` where it reports an error.
pub uninterp spec fn pretty_text(document: serde_json::Value) -> Option<Seq<char>>;

/// Calls `serde_json::to_string_pretty` on a document. The contract claims
/// only that the outcome is a function of the document: the text that
/// [`pretty_text`] names, or an error exactly where it names none.
#[verifier::external_body]
pub(crate) fn render_pretty(document: &serde_json::Value) -> (rendered: Result<
    String,
    serde_json::Error,
>)
    ensures
        rendered.is_ok() == pretty_text(*document).is_some(),
        rendered.is_ok() ==> rendered.unwrap()@ == pretty_text(*document).unwrap(),
{
    serde_json::to_string_pretty(document)
}

} // verus!
