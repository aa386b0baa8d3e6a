//! The ways a resolution can fail.
use vstd::prelude::*;

verus! {

/// Declares idna's error type, which a failed conversion to ASCII carries.
#[verifier::external_type_specification]
#[verifier::external_body]
pub struct ExIdnaErrors(idna::Errors);

#[derive(Debug)]
pub enum Error {
    /// A response neither speaks for the queried domain nor refers elsewhere.
    BadWhoisForDomain,
    /// The domain could not be converted to its ASCII form.
    ConvertToPunycode(idna::Errors),
    /// A referral leads back to the server held here, already asked.
    WhoisServerLoop(String),
    /// No server is known for any suffix of the domain.
    CantFindWhoisServer,
}

} // verus!
