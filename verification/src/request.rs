//! Requests and responses.
use ntex_http::HeaderMap;
use vstd::prelude::*;

use crate::frame::pseudo::{opt_text, PseudoView, UriParts};
use crate::frame::Headers;
use crate::http;

verus! {

/// A request.
pub struct Request {
    pub uri: UriParts,
    pub method: String,
    pub headers: HeaderMap,
}

/// The parts of a request URI.
#[verifier::ext_equal]
pub struct UriView {
    pub scheme: Option<Seq<char>>,
    pub authority: Option<Seq<char>>,
    pub path_and_query: Option<Seq<char>>,
}

impl View for UriParts {
    type V = UriView;

    open spec fn view(&self) -> UriView {
        UriView {
            scheme: opt_text(self.scheme),
            authority: opt_text(self.authority),
            path_and_query: opt_text(self.path_and_query),
        }
    }
}

/// A byte of a scheme.
pub open spec fn is_scheme_byte(b: u8) -> bool {
    http::is_alphanumeric(b) || b == 0x2b || b == 0x2d || b == 0x2e || b == 0x7e
}

/// A scheme: at most 64 letters, digits, and `+`, `-`, `.`, `~`.
pub open spec fn valid_scheme(s: Seq<u8>) -> bool {
    s.len() <= 64 && forall|i: int| 0 <= i < s.len() ==> is_scheme_byte(#[trigger] s[i])
}

/// The authority that a text stands for.
pub uninterp spec fn authority_of(s: Seq<char>) -> Option<Seq<char>>;

/// The path and query that a text stands for.
pub uninterp spec fn path_and_query_of(s: Seq<char>) -> Option<Seq<char>>;

/// `http::uri::Scheme::from_str`: a text is a scheme exactly if it has at most 64
/// bytes and all of them may stand in one, and it is kept as it is.
#[verifier::external_body]
fn parse_scheme(s: &str) -> (r: Option<String>)
    ensures
        r is Some <==> valid_scheme(http::text_bytes(s@)),
        r matches Some(t) ==> t@ == s@,
{
    s.parse::<ntex_http::uri::Scheme>().ok().map(|s| s.as_str().to_string())
}

/// `http::uri::Authority::from_str`: the authority that a text stands for, which
/// depends on nothing but the text.
#[verifier::external_body]
fn parse_authority(s: &str) -> (r: Option<String>)
    ensures
        opt_text(r) == authority_of(s@),
{
    s.parse::<ntex_http::uri::Authority>().ok().map(|s| s.as_str().to_string())
}

/// `http::uri::PathAndQuery::from_str`: the path and query that a text stands for,
/// which depend on nothing but the text.
#[verifier::external_body]
fn parse_path_and_query(s: &str) -> (r: Option<String>)
    ensures
        opt_text(r) == path_and_query_of(s@),
{
    s.parse::<ntex_http::uri::PathAndQuery>().ok().map(|s| s.as_str().to_string())
}

impl UriView {
    /// The parts that make up a URI: with a scheme there must be an authority and
    /// a path, and an authority with a path must have a scheme.
    pub open spec fn valid(self) -> bool {
        if self.scheme is Some {
            self.authority is Some && self.path_and_query is Some
        } else {
            self.authority is None || self.path_and_query is None
        }
    }

    /// These parts, or a plain `/` where they do not make up a URI.
    pub open spec fn or_default(self) -> UriView {
        if self.valid() {
            self
        } else {
            UriView { scheme: None, authority: None, path_and_query: Some("/"@) }
        }
    }

    /// The parts of the URI of a request, where each one is valid by itself.
    pub open spec fn of(pseudo: PseudoView) -> UriView {
        UriView {
            scheme: match pseudo.scheme {
                Some(s) => if valid_scheme(http::text_bytes(s)) {
                    Some(s)
                } else {
                    None
                },
                None => None,
            },
            authority: match pseudo.authority {
                Some(s) => authority_of(s),
                None => None,
            },
            path_and_query: match pseudo.path {
                Some(s) => path_and_query_of(s),
                None => None,
            },
        }
    }
}

impl UriParts {
    /// These parts, or a plain `/` where they do not make up a URI.
    pub fn or_default(self) -> (r: UriParts)
        ensures
            r@ == self@.or_default(),
    {
        let valid: bool = if self.scheme.is_some() {
            self.authority.is_some() && self.path_and_query.is_some()
        } else {
            self.authority.is_none() || self.path_and_query.is_none()
        };
        if valid {
            self
        } else {
            UriParts { scheme: None, authority: None, path_and_query: Some("/".to_owned()) }
        }
    }
}

impl Request {
    /// The request that headers stand for. Parts of the URI that are not valid are
    /// left out, and the method is `GET` where none is given.
    pub fn from_headers(hdrs: Headers) -> (r: Request)
        ensures
            r.uri@ == UriView::of(hdrs@.block.pseudo).or_default(),
            r.method@ == match hdrs@.block.pseudo.method {
                Some(m) => m,
                None => "GET"@,
            },
            http::header_fields(r.headers) == hdrs@.block.fields,
    {
        let (pseudo, headers) = hdrs.into_parts();

        // scheme
        let scheme = match &pseudo.scheme {
            Some(s) => parse_scheme(s.as_str()),
            None => None,
        };
        // authority
        let authority = match &pseudo.authority {
            Some(s) => parse_authority(s.as_str()),
            None => None,
        };
        // path
        let path_and_query = match &pseudo.path {
            Some(s) => parse_path_and_query(s.as_str()),
            None => None,
        };
        let method = match pseudo.method {
            Some(m) => m,
            None => "GET".to_owned(),
        };
        let parts = UriParts { scheme, authority, path_and_query };
        Request { headers, uri: parts.or_default(), method }
    }
}

/// A response.
pub struct Response {
    pub status: u16,
    pub headers: HeaderMap,
}

/// The address of a request takes its parts from the pseudo-headers, each from its own.
/// What they do not have, it has not either.
pub proof fn addresses_have_parts(pseudo: PseudoView)
    ensures
        ({
            let uri = UriView::of(pseudo);
            &&& uri.scheme is Some ==> uri.scheme == pseudo.scheme
            &&& pseudo.scheme is None ==> uri.scheme is None
            &&& pseudo.authority is None ==> uri.authority is None
            &&& pseudo.path is None ==> uri.path_and_query is None
            &&& pseudo.authority matches Some(s) ==> uri.authority == authority_of(s)
            &&& pseudo.path matches Some(s) ==> uri.path_and_query == path_and_query_of(s)
        }),
{
}

/// An address is used where its parts go together: all three, or one of the last two, or
/// none. Otherwise it is the root.
pub proof fn addresses_hang_together(uri: UriView)
    ensures
        uri.or_default().scheme is Some ==> uri.or_default().authority is Some
            && uri.or_default().path_and_query is Some,
        uri.scheme is Some && uri.authority is Some && uri.path_and_query is Some
            ==> uri.or_default() == uri,
        uri.scheme is None && uri.authority is None ==> uri.or_default() == uri,
        uri.scheme is None && uri.path_and_query is None ==> uri.or_default() == uri,
        uri.or_default() != uri ==> uri.or_default().path_and_query == Some("/"@)
            && uri.or_default().scheme is None && uri.or_default().authority is None,
{
}

} // verus!
