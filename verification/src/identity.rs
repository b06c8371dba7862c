//! Endpoint identities.

use vstd::prelude::*;
use vstd::string::*;
use crate::dns_name::{lowered, valid_reference_name, InvalidName, Name};

verus! {

/// The error with which the `http` crate rejects a text that is no URI.
/// Opaque here.
#[verifier::external_type_specification]
#[verifier::external_body]
pub struct ExInvalidUri(http::uri::InvalidUri);

/// The text that the `http` crate writes the URI as that it reads from
/// `text`; `None` where it takes `text` for no URI.
pub uninterp spec fn uri_text(text: Seq<char>) -> Option<Seq<char>>;

/// `http::Uri::try_from` on a text and, where it succeeds, `to_string` of the
/// URI. Trusted: the text that comes back is named by [`uri_text`], and the
/// error comes back exactly where the name has no text.
#[verifier::external_body]
fn uri_render(s: &str) -> (r: Result<String, http::uri::InvalidUri>)
    ensures
        r is Ok <==> uri_text(s@) is Some,
        r matches Ok(text) ==> uri_text(s@) == Some(text@),
{
    match http::Uri::try_from(s) {
        Ok(uri) => Ok(uri.to_string()),
        Err(e) => Err(e),
    }
}

/// Whether a text is one that the `http` crate writes a URI as.
pub open spec fn is_uri_text(text: Seq<char>) -> bool {
    exists|read: Seq<char>| #[trigger] uri_text(read) == Some(text)
}

/// A URI, held as the text that the `http` crate writes it as. Two URIs are
/// the same identity where they are written the same.
#[derive(Debug, Eq, PartialEq, Hash)]
pub struct UriText(String);

impl View for UriText {
    type V = Seq<char>;

    /// The text of the URI.
    closed spec fn view(&self) -> Seq<char> {
        self.0@
    }
}

impl UriText {
    /// What holds of every URI held: its text is one that a URI is written
    /// as.
    #[verifier::type_invariant]
    closed spec fn well_formed(self) -> bool {
        is_uri_text(self.0@)
    }

    /// The URI as text.
    pub fn as_str(&self) -> (s: &str)
        ensures
            s@ == self@,
            is_uri_text(self@),
    {
        proof {
            use_type_invariant(self);
        }
        self.0.as_str()
    }
}

impl Clone for UriText {
    fn clone(&self) -> (copy: Self)
        ensures
            copy@ == self@,
    {
        proof {
            use_type_invariant(self);
        }
        UriText(self.0.clone())
    }
}

/// The identity that an endpoint authenticates as: a DNS-like name, as in
/// the DNS names of a certificate, or a URI, as in its URI names. Whatever
/// authenticates the endpoint may supply it; a certificate is one way.
#[derive(Clone, Debug, Eq, PartialEq, Hash)]
pub enum Id {
    Dns(Name),
    Uri(UriText),
}

/// Why a text is no identity.
#[derive(Debug)]
pub enum InvalidId {
    /// It is no DNS name, or it is one that ends with a dot.
    Name(InvalidName),
    /// It is no URI.
    Uri(http::uri::InvalidUri),
}

impl Id {
    /// Reads a DNS-like identity: a DNS name that does not end with a dot.
    pub fn parse_dns_name(s: &str) -> (r: Result<Id, InvalidId>)
        ensures
            r is Ok <==> valid_reference_name(s.spec_bytes()) && s.spec_bytes().last() != 0x2e,
            r matches Ok(id) ==> id matches Id::Dns(name) && name@ == lowered(s@),
            r matches Err(e) ==> e is Name,
    {
        match Name::from_str(s) {
            Err(e) => Err(InvalidId::Name(e)),
            Ok(name) => {
                let bytes = s.as_bytes();
                if bytes[bytes.len() - 1] == 0x2e {
                    Err(InvalidId::Name(InvalidName))
                } else {
                    Ok(Id::Dns(name))
                }
            },
        }
    }

    /// Reads an identity in URI form, and holds it as the text that the
    /// `http` crate writes the URI as.
    pub fn parse_uri(s: &str) -> (r: Result<Id, InvalidId>)
        ensures
            r is Ok <==> uri_text(s@) is Some,
            r matches Ok(id) ==> id matches Id::Uri(uri) && uri_text(s@) == Some(uri@),
            r matches Err(e) ==> e is Uri,
    {
        match uri_render(s) {
            Ok(text) => {
                assert(is_uri_text(text@));
                Ok(Id::Uri(UriText(text)))
            },
            Err(e) => Err(InvalidId::Uri(e)),
        }
    }

    /// Reads an identity: as a DNS name where the text is one, else as a URI.
    pub fn from_str(s: &str) -> (r: Result<Id, InvalidId>)
        ensures
            r is Ok <==> (valid_reference_name(s.spec_bytes()) && s.spec_bytes().last() != 0x2e)
                || uri_text(s@) is Some,
            r matches Ok(id) ==> (id is Dns <==> valid_reference_name(s.spec_bytes())
                && s.spec_bytes().last() != 0x2e),
            r matches Ok(Id::Dns(name)) ==> name@ == lowered(s@),
            r matches Ok(Id::Uri(uri)) ==> uri_text(s@) == Some(uri@),
            r matches Err(e) ==> e is Uri,
    {
        match Id::parse_dns_name(s) {
            Ok(id) => Ok(id),
            Err(_) => Id::parse_uri(s),
        }
    }

    /// The identity as text: the name as it is held, or the URI as the `http`
    /// crate writes it.
    pub fn to_str(&self) -> (text: String)
        ensures
            self matches Id::Dns(name) ==> text@ == name@,
            self matches Id::Uri(uri) ==> text@ == uri@,
    {
        match self {
            Id::Dns(dns) => dns.as_str().to_owned(),
            Id::Uri(uri) => uri.as_str().to_owned(),
        }
    }

    /// The identity as it is shown: the name without the dots that end it,
    /// or the URI as the `http` crate writes it.
    pub fn to_display(&self) -> (text: String)
        ensures
            self matches Id::Dns(name) ==> text@ == crate::dns_name::without_dots(name@),
            self matches Id::Uri(uri) ==> text@ == uri@,
    {
        match self {
            Id::Dns(dns) => dns.without_trailing_dot().to_owned(),
            Id::Uri(uri) => uri.as_str().to_owned(),
        }
    }
}

impl core::str::FromStr for Id {
    type Err = InvalidId;

    fn from_str(s: &str) -> (r: Result<Id, InvalidId>)
        ensures
            r is Ok <==> (valid_reference_name(s.spec_bytes()) && s.spec_bytes().last() != 0x2e)
                || uri_text(s@) is Some,
            r matches Ok(id) ==> (id is Dns <==> valid_reference_name(s.spec_bytes())
                && s.spec_bytes().last() != 0x2e),
            r matches Ok(Id::Dns(name)) ==> name@ == lowered(s@),
            r matches Ok(Id::Uri(uri)) ==> uri_text(s@) == Some(uri@),
            r matches Err(e) ==> e is Uri,
    {
        Id::from_str(s)
    }
}

impl From<Name> for Id {
    fn from(n: Name) -> (id: Id) {
        Id::Dns(n)
    }
}

impl vstd::std_specs::convert::FromSpecImpl<Name> for Id {
    open spec fn obeys_from_spec() -> bool {
        true
    }

    open spec fn from_spec(n: Name) -> Id {
        Id::Dns(n)
    }
}

} // verus!
