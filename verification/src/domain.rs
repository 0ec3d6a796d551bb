//! The domains that mail may be sent from.

use vstd::prelude::*;
use vstd::std_specs::convert::TryFromSpecImpl;
use vstd::string::*;
use crate::error::{Error, ErrorModel};
use crate::legacy::email::{AddressFieldLegacy, AddressModel};
use crate::text::{after_last, after_last_char, same_text, trim, trimmed};

verus! {

/// A domain that the provider has verified for sending.
#[derive(Debug, Clone, PartialEq, Eq, Structural, Hash)]
pub enum VerifiedDomains {
    Metaspexet,
    Datasektionen,
    Ddagen,
}

impl VerifiedDomains {
    /// The verified domain that is written `domain`, letter for letter.
    pub open spec fn named(domain: Seq<char>) -> Option<VerifiedDomains> {
        if domain == "metaspexet.se"@ {
            Some(VerifiedDomains::Metaspexet)
        } else if domain == "datasektionen.se"@ {
            Some(VerifiedDomains::Datasektionen)
        } else if domain == "ddagen.se"@ {
            Some(VerifiedDomains::Ddagen)
        } else {
            None
        }
    }

    /// The verified domain that is written `domain`, letter for letter.
    pub fn from_name(domain: &str) -> (r: Option<VerifiedDomains>)
        ensures
            r == VerifiedDomains::named(domain@),
    {
        if same_text(domain, "metaspexet.se") {
            Some(VerifiedDomains::Metaspexet)
        } else if same_text(domain, "datasektionen.se") {
            Some(VerifiedDomains::Datasektionen)
        } else if same_text(domain, "ddagen.se") {
            Some(VerifiedDomains::Ddagen)
        } else {
            None
        }
    }
}

impl TryFrom<String> for VerifiedDomains {
    type Error = Error;

    /// A domain outside the list is handed back in the failure.
    fn try_from(value: String) -> (r: Result<VerifiedDomains, Error>)
        ensures
            match VerifiedDomains::named(value@) {
                Some(domain) => r == Ok::<VerifiedDomains, Error>(domain),
                None => r == Err::<VerifiedDomains, Error>(Error::InvalidEmailDomain(value)),
            },
    {
        match VerifiedDomains::from_name(value.as_str()) {
            Some(domain) => Ok(domain),
            None => Err(Error::InvalidEmailDomain(value)),
        }
    }
}

impl TryFromSpecImpl<String> for VerifiedDomains {
    open spec fn obeys_try_from_spec() -> bool {
        true
    }

    open spec fn try_from_spec(value: String) -> Result<VerifiedDomains, Error> {
        match VerifiedDomains::named(value@) {
            Some(domain) => Ok(domain),
            None => Err(Error::InvalidEmailDomain(value)),
        }
    }
}

/// The address that the sender's domain is read from: a bare address as it
/// stands, of a pair the address.
pub open spec fn sender_address(from: AddressModel) -> Seq<char> {
    match from {
        AddressModel::Address(a) => a,
        AddressModel::NameAndAddress { name, address } => address,
    }
}

/// What follows the last `@` of the trimmed address.
pub open spec fn domain_of(address: Seq<char>) -> Option<Seq<char>> {
    after_last(trimmed(address), '@')
}

/// The verified domain of a sender's address.
///
/// An address without `@` fails as `missing domain`; a domain outside the
/// list fails under its own name.
pub open spec fn guard(address: Seq<char>) -> Result<VerifiedDomains, ErrorModel> {
    match domain_of(address) {
        None => Err(ErrorModel::InvalidEmailDomain("missing domain"@)),
        Some(domain) => match VerifiedDomains::named(domain) {
            Some(verified) => Ok(verified),
            None => Err(ErrorModel::InvalidEmailDomain(domain)),
        },
    }
}

/// A guarded domain with its failure's text as a sequence of characters.
pub open spec fn guard_result(r: Result<VerifiedDomains, Error>) -> Result<
    VerifiedDomains,
    ErrorModel,
> {
    match r {
        Ok(domain) => Ok(domain),
        Err(e) => Err(e@),
    }
}

/// The verified domain of a sender's address.
pub fn guard_address(address: &str) -> (r: Result<VerifiedDomains, Error>)
    ensures
        guard_result(r) == guard(address@),
{
    match after_last_char(trim(address), '@') {
        None => Err(Error::InvalidEmailDomain(String::from_str("missing domain"))),
        Some(domain) => match VerifiedDomains::from_name(domain) {
            Some(verified) => Ok(verified),
            None => Err(Error::InvalidEmailDomain(String::from_str(domain))),
        },
    }
}

/// The verified domain of a sender.
pub fn guard_sender(from: &AddressFieldLegacy) -> (r: Result<VerifiedDomains, Error>)
    ensures
        guard_result(r) == guard(sender_address(from@)),
{
    match from {
        AddressFieldLegacy::Address(a) => guard_address(a.as_str()),
        AddressFieldLegacy::NameAndAddress(pair) => guard_address(pair.address.as_str()),
    }
}

/// Only the three listed domains pass the guard, and only as what follows
/// the last `@`.
pub proof fn lemma_guard_passes_only_listed(address: Seq<char>)
    ensures
        guard(address) is Ok <==> (domain_of(address) matches Some(domain) && (domain
            == "metaspexet.se"@ || domain == "datasektionen.se"@ || domain == "ddagen.se"@)),
{
}

} // verus!
