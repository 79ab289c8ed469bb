//! Compile errors: the outside types that carry them, and the library's own
//! error value, which holds a span and a message.

use proc_macro2::Span;
use vstd::prelude::*;

verus! {

#[verifier::external_type_specification]
#[verifier::external_body]
pub struct ExSpan(proc_macro2::Span);

#[verifier::external_type_specification]
#[verifier::external_body]
pub struct ExError(syn::Error);

/// Calls `proc_macro2::Span::call_site`. Which span it is depends on the macro
/// invocation being expanded, so nothing is stated of it.
#[verifier::external_body]
pub(crate) fn call_site() -> Span {
    Span::call_site()
}

/// A compile error: a message, at a span of the source.
#[derive(Debug)]
pub struct SpannedError {
    pub span: Span,
    pub message: String,
}

} // verus!
