//! Conversion of a domain to the form in which it is queried.
use vstd::prelude::*;

verus! {

/// The ASCII form of a domain under idna's default UTS #46 processing, or
/// `None` where that processing reports errors.
pub uninterp spec fn ascii_form(d: Seq<char>) -> Option<Seq<char>>;

/// The lowercase form of a text, as `str::to_lowercase` gives it.
pub uninterp spec fn lower_of(s: Seq<char>) -> Seq<char>;

/// Relies on `idna::domain_to_ascii`, which runs a fixed default
/// configuration over the domain alone.
#[verifier::external_body]
pub(crate) fn domain_to_ascii(d: &str) -> (r: Result<String, idna::Errors>)
    ensures
        r is Err <==> ascii_form(d@) is None,
        r matches Ok(s) ==> ascii_form(d@) == Some(s@),
{
    idna::domain_to_ascii(d)
}

/// Relies on `str::to_lowercase`: the result depends on the characters alone,
/// and an empty text stays empty.
#[verifier::external_body]
pub(crate) fn to_lowercase(s: &str) -> (r: String)
    ensures
        r@ == lower_of(s@),
        s@.len() == 0 ==> r@.len() == 0,
{
    s.to_lowercase()
}

} // verus!
