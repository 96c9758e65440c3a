use vstd::prelude::*;

use vstd::string::StringExecFns;

verus! {

/// Value of the `x-zse-93` header, which the signature input begins with.
pub const X_ZSE_93: &'static str = "101_3_3.0";

/// The string the `x-zse-96` signature is computed over:
/// `{x-zse-93}+{path_with_query}+{d_c0}`.
pub open spec fn spec_sign_input(path_with_query: Seq<char>, d_c0: Seq<char>) -> Seq<char> {
    "101_3_3.0"@ + "+"@ + path_with_query + "+"@ + d_c0
}

/// Construct the string fed to the signer for `x-zse-96`.
/// `path_with_query` is the request path including `?query` (no host).
pub fn build_sign_input(path_with_query: &str, d_c0: &str) -> (s: String)
    ensures
        s@ == spec_sign_input(path_with_query@, d_c0@),
{
    String::from_str("101_3_3.0").concat("+").concat(path_with_query).concat("+").concat(d_c0)
}

/// What the signer's output is accepted as: a signature must begin with
/// `2.0_`; anything else is reported as an unexpected format.
pub fn checked_signature(sig: String) -> (r: Result<String, String>)
    ensures
        crate::text::starts_with(sig@, "2.0_"@) ==> r == Ok::<String, String>(sig),
        !crate::text::starts_with(sig@, "2.0_"@) ==> (r matches Err(e)
            && e@ == "unexpected signature format: expected '2.0_' prefix, got: "@ + sig@),
{
    if crate::text::starts_with_str(&crate::text::chars_of(sig.as_str()), "2.0_") {
        Ok(sig)
    } else {
        Err(String::from_str("unexpected signature format: expected '2.0_' prefix, got: ").concat(sig.as_str()))
    }
}

} // verus!
