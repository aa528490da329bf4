//! Identifiers: absolute IRIs with a derivable host component, the universal
//! primary key of every entity. Parsing and normalisation questions are left
//! to the `url` crate; this module keeps the original text together with the
//! host and path components that the policy and signing logic read.

use vstd::prelude::*;

verus! {

/// The host component that `url::Url::parse` derives from an IRI text, or
/// `None` when the text is not an absolute URL with a domain host.
pub uninterp spec fn iri_host_of(s: Seq<char>) -> Option<Seq<char>>;

/// The path component that `url::Url::parse` derives from an IRI text.
pub uninterp spec fn iri_path_of(s: Seq<char>) -> Seq<char>;

/// Relies on `url::Url::parse`, `Url::domain` and `Url::path`: splits an
/// absolute URL into its domain host and its path, and rejects texts that do
/// not parse or that carry no domain host.
#[verifier::external_body]
fn url_parts(s: &str) -> (r: Option<(String, String)>)
    ensures
        match r {
            Some(parts) => iri_host_of(s@) == Some(parts.0@) && parts.1@ == iri_path_of(s@),
            None => iri_host_of(s@) is None,
        },
{
    match url::Url::parse(s) {
        Ok(u) => match u.domain() {
            Some(d) => {
                let host = d.to_owned();
                let path = u.path().to_owned();
                Some((host, path))
            },
            None => None,
        },
        Err(_) => None,
    }
}

/// An absolute IRI, kept as written on the wire, together with the host and
/// path components derived from it.
#[derive(Debug, Clone)]
pub struct Iri {
    pub value: String,
    pub host: String,
    pub path: String,
}

/// The mathematical value of an [`Iri`].
pub struct IriV {
    pub value: Seq<char>,
    pub host: Seq<char>,
    pub path: Seq<char>,
}

impl IriV {
    /// The host and path fields are exactly the ones derived from the text.
    pub open spec fn wf(self) -> bool {
        iri_host_of(self.value) == Some(self.host) && self.path == iri_path_of(self.value)
    }
}

impl View for Iri {
    type V = IriV;

    open spec fn view(&self) -> IriV {
        IriV { value: self.value@, host: self.host@, path: self.path@ }
    }
}

impl Iri {
    /// Parses an IRI text. Returns the identifier exactly when the text is
    /// an absolute URL with a domain host.
    pub fn parse(s: &str) -> (r: Option<Iri>)
        ensures
            match r {
                Some(iri) => iri@.wf() && iri@.value == s@,
                None => iri_host_of(s@) is None,
            },
    {
        match url_parts(s) {
            Some(parts) => Some(Iri { value: s.to_owned(), host: parts.0, path: parts.1 }),
            None => None,
        }
    }

    /// True when the identifier's host equals `domain` up to ASCII case;
    /// the routing test that keeps local identifiers away from the
    /// federation client.
    pub fn host_is(&self, domain: &str) -> (r: bool)
        ensures
            r == crate::util::spec_ascii_eq(self@.host, domain@),
    {
        crate::util::str_eq_ignore_ascii_case(self.host.as_str(), domain)
    }

    pub fn as_str(&self) -> (r: &str)
        ensures
            r@ == self@.value,
    {
        self.value.as_str()
    }

    pub fn host_str(&self) -> (r: &str)
        ensures
            r@ == self@.host,
    {
        self.host.as_str()
    }
}

/// The routing decision: an identifier is local exactly when its host is
/// the instance's configured domain, compared up to ASCII case. Local
/// identifiers go to local persistence; only remote ones may reach the
/// federation client.
pub fn is_local(id: &Iri, instance_domain: &str) -> (r: bool)
    ensures
        r == crate::util::spec_ascii_eq(id@.host, instance_domain@),
{
    id.host_is(instance_domain)
}

} // verus!
