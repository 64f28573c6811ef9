use vstd::prelude::*;

verus! {

/// Whether a fragment of host-language source lexes as a well-formed token
/// stream. The compiler never interprets the fragment; it only checks this
/// boundary condition before passing the fragment through.
pub uninterp spec fn tokenizes(s: Seq<char>) -> bool;

/// Relies on `proc_macro2::TokenStream::from_str` (its `FromStr` impl):
/// whether a fragment lexes as a token stream is a function of the fragment
/// text alone, and the call reports failure as an error value.
#[verifier::external_body]
pub(crate) fn host_expr_well_formed(s: &str) -> (r: bool)
    ensures
        r == tokenizes(s@),
{
    <proc_macro2::TokenStream as core::str::FromStr>::from_str(s).is_ok()
}

} // verus!
