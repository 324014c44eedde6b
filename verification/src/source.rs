use vstd::prelude::*;

verus! {

/// `codespan::FileId`: the handle of a source file in a `codespan::Files`
/// database. Nothing is claimed of its contents; the value is only carried
/// into diagnostics.
#[verifier::external_type_specification]
#[verifier::external_body]
pub struct ExFileId(codespan::FileId);

/// `codespan::Span`: a half-open range of byte positions in a source file.
/// Nothing is claimed of its contents; the value is only carried from a
/// tree node into diagnostics.
#[verifier::external_type_specification]
#[verifier::external_body]
pub struct ExSpan(codespan::Span);

} // verus!
