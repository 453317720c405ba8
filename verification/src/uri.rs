//! URIs by their parts, as the `http` crate parses them.

use vstd::prelude::*;

verus! {

/// A parsed URI.
#[derive(Debug, PartialEq, Eq)]
pub struct UriParts {
    pub scheme: Option<String>,
    pub authority: Option<AuthorityParts>,
    pub path_and_query: Option<String>,
}

/// The authority of a URI.
#[derive(Debug, PartialEq, Eq)]
pub struct AuthorityParts {
    /// The authority as written.
    pub text: String,
    /// Host, IPv6 literals in brackets.
    pub host: String,
    /// Port, where one is given.
    pub port: Option<u16>,
}

/// Mathematical [`UriParts`].
pub struct UriShape {
    pub scheme: Option<Seq<char>>,
    pub authority: Option<AuthorityShape>,
    pub path_and_query: Option<Seq<char>>,
}

/// Mathematical [`AuthorityParts`].
pub struct AuthorityShape {
    pub text: Seq<char>,
    pub host: Seq<char>,
    pub port: Option<u16>,
}

/// View of an optional text.
pub open spec fn opt_text(text: Option<String>) -> Option<Seq<char>> {
    match text {
        Some(text) => Some(text@),
        None => None,
    }
}

impl View for AuthorityParts {
    type V = AuthorityShape;

    open spec fn view(&self) -> AuthorityShape {
        AuthorityShape { text: self.text@, host: self.host@, port: self.port }
    }
}

impl View for UriParts {
    type V = UriShape;

    open spec fn view(&self) -> UriShape {
        UriShape {
            scheme: opt_text(self.scheme),
            authority: match self.authority {
                Some(authority) => Some(authority@),
                None => None,
            },
            path_and_query: opt_text(self.path_and_query),
        }
    }
}

/// View of a parse outcome.
pub open spec fn shape_of(parsed: Result<UriParts, String>) -> Result<UriShape, Seq<char>> {
    match parsed {
        Ok(parts) => Ok(parts@),
        Err(cause) => Err(cause@),
    }
}

/// What `http::Uri` makes of a text: its parts, or the rendered parse error.
pub uninterp spec fn parsed_uri(text: Seq<char>) -> Result<UriShape, Seq<char>>;

/// Parses with `http::Uri`'s `FromStr` and takes the parts with `scheme_str`,
/// `authority` (`as_str`, `host`, `port_u16`) and `path_and_query`. The result is
/// a function of the text.
#[verifier::external_body]
pub(crate) fn parse_uri(text: &str) -> (parsed: Result<UriParts, String>)
    ensures
        shape_of(parsed) == parsed_uri(text@),
{
    let uri = text.parse::<http::Uri>().map_err(|err| err.to_string())?;
    Ok(UriParts {
        scheme: uri.scheme_str().map(str::to_owned),
        authority: uri.authority().map(|authority| AuthorityParts {
            text: authority.as_str().to_owned(),
            host: authority.host().to_owned(),
            port: authority.port_u16(),
        }),
        path_and_query: uri.path_and_query().map(|path| path.as_str().to_owned()),
    })
}

/// The parts of a URI show as they were parsed, and so does a parse error.
pub proof fn law_uri_parts_show_as_they_are(parts: UriParts, text: String)
    ensures
        opt_text(Some(text)) == Some(text@),
        opt_text(None) is None,
        shape_of(Ok(parts)) == Ok::<UriShape, Seq<char>>(parts@),
        shape_of(Err(text)) == Err::<UriShape, Seq<char>>(text@),
        parts@.scheme == opt_text(parts.scheme),
        parts@.path_and_query == opt_text(parts.path_and_query),
        parts@.authority is Some <==> parts.authority is Some,
        parts.authority matches Some(authority) ==> parts@.authority->0.text == authority.text@
            && parts@.authority->0.host == authority.host@ && parts@.authority->0.port
            == authority.port,
{
}

} // verus!
