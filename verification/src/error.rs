//! The ways in which generating bindings can fail.

use vstd::prelude::*;

verus! {

/// The error of the Rust parser.
#[verifier::external_type_specification]
#[verifier::external_body]
pub struct ExSynError(syn::Error);

/// Why bindings could not be generated.
#[derive(Debug)]
pub enum PyBindgenError {
    /// A name cannot be written in Rust source code.
    SynError(syn::Error),
    /// The bindings cannot be put together.
    CodegenError(String),
}

/// Calls `to_string` on an error of the Rust parser, which gives the message
/// that the parser wrote.
#[verifier::external_body]
fn syn_error_text(e: &syn::Error) -> String {
    e.to_string()
}

/// Calls `syn::Error::new` with the span that `proc_macro2::Span::call_site`
/// gives and with `message`, which makes an error of the Rust parser that
/// carries this one message. Nothing is claimed of the error.
#[verifier::external_body]
pub(crate) fn parser_error(message: &str) -> syn::Error {
    syn::Error::new(proc_macro2::Span::call_site(), message)
}

impl PyBindgenError {
    /// The text before the detail in the message of an error that carries one.
    pub open spec fn headline(&self) -> Seq<char> {
        match self {
            PyBindgenError::SynError(_) => Seq::empty(),
            PyBindgenError::CodegenError(_) => "Failed to generate Rust code: "@,
        }
    }

    /// The message of the error. An error of the Rust parser speaks for
    /// itself; an error of the generator says so and gives the detail.
    pub fn message(&self) -> (s: String)
        ensures
            self matches PyBindgenError::CodegenError(d) ==> s@ == self.headline() + d@,
    {
        match self {
            PyBindgenError::SynError(e) => syn_error_text(e),
            PyBindgenError::CodegenError(d) => String::from_str(
                "Failed to generate Rust code: ",
            ).concat(d.as_str()),
        }
    }
}

} // verus!
