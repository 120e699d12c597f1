use vstd::prelude::*;

use crate::frame::Protocol;

verus! {

/// The pseudo-headers of a request or a response.
#[derive(Debug)]
pub struct PseudoHeaders {
    // Request
    pub method: Option<String>,
    pub scheme: Option<String>,
    pub authority: Option<String>,
    pub path: Option<String>,
    pub protocol: Option<Protocol>,
    // Response
    pub status: Option<u16>,
}

/// What pseudo-headers say.
#[verifier::ext_equal]
pub struct PseudoView {
    pub method: Option<Seq<char>>,
    pub scheme: Option<Seq<char>>,
    pub authority: Option<Seq<char>>,
    pub path: Option<Seq<char>>,
    pub protocol: Option<Seq<char>>,
    pub status: Option<u16>,
}

/// The parts of a request URI.
#[derive(Debug)]
pub struct UriParts {
    pub scheme: Option<String>,
    pub authority: Option<String>,
    pub path_and_query: Option<String>,
}

/// An optional text by its characters.
pub open spec fn opt_text(s: Option<String>) -> Option<Seq<char>> {
    match s {
        Some(v) => Some(v@),
        None => None,
    }
}

impl View for PseudoHeaders {
    type V = PseudoView;

    open spec fn view(&self) -> PseudoView {
        PseudoView {
            method: opt_text(self.method),
            scheme: opt_text(self.scheme),
            authority: opt_text(self.authority),
            path: opt_text(self.path),
            protocol: match self.protocol {
                Some(p) => Some(p@),
                None => None,
            },
            status: self.status,
        }
    }
}

impl PseudoView {
    pub open spec fn empty() -> PseudoView {
        PseudoView {
            method: None,
            scheme: None,
            authority: None,
            path: None,
            protocol: None,
            status: None,
        }
    }

    /// The path of a request: an empty one is `/`, but for the methods that may
    /// go without a path.
    pub open spec fn request_path(method: Seq<char>, path: Option<Seq<char>>) -> Option<Seq<char>> {
        if path is Some && path->0.len() > 0 {
            path
        } else if method == "OPTIONS"@ || method == "CONNECT"@ {
            None
        } else {
            Some("/"@)
        }
    }
}

impl PseudoHeaders {
    /// The pseudo-headers of a request. The scheme and the authority are those of
    /// the URI, where it has them.
    pub fn request(method: String, uri: UriParts, protocol: Option<Protocol>) -> (r: PseudoHeaders)
        ensures
            r@ == (PseudoView {
                method: Some(method@),
                scheme: opt_text(uri.scheme),
                authority: opt_text(uri.authority),
                path: PseudoView::request_path(method@, opt_text(uri.path_and_query)),
                protocol: match protocol {
                    Some(p) => Some(p@),
                    None => None,
                },
                status: None,
            }),
    {
        let options = "OPTIONS".to_owned();
        let connect = "CONNECT".to_owned();
        let pathless: bool = method == options || method == connect;
        let path: Option<String> = match uri.path_and_query {
            Some(p) => if !p.as_str().is_empty() {
                Some(p)
            } else if pathless {
                None
            } else {
                Some("/".to_owned())
            },
            None => if pathless {
                None
            } else {
                Some("/".to_owned())
            },
        };
        PseudoHeaders {
            method: Some(method),
            scheme: uri.scheme,
            authority: uri.authority,
            path,
            protocol,
            status: None,
        }
    }

    pub fn response(status: u16) -> (r: PseudoHeaders)
        ensures
            r@ == (PseudoView { status: Some(status), ..PseudoView::empty() }),
    {
        PseudoHeaders {
            method: None,
            scheme: None,
            authority: None,
            path: None,
            protocol: None,
            status: Some(status),
        }
    }

    pub fn set_status(&mut self, value: u16)
        ensures
            final(self)@ == (PseudoView { status: Some(value), ..old(self)@ }),
    {
        self.status = Some(value);
    }

    pub fn set_scheme(&mut self, scheme: String)
        ensures
            final(self)@ == (PseudoView { scheme: Some(scheme@), ..old(self)@ }),
    {
        self.scheme = Some(scheme);
    }

    pub fn set_protocol(&mut self, protocol: Protocol)
        ensures
            final(self)@ == (PseudoView { protocol: Some(protocol@), ..old(self)@ }),
    {
        self.protocol = Some(protocol);
    }

    pub fn set_authority(&mut self, authority: String)
        ensures
            final(self)@ == (PseudoView { authority: Some(authority@), ..old(self)@ }),
    {
        self.authority = Some(authority);
    }
}

impl Default for PseudoHeaders {
    fn default() -> (r: PseudoHeaders)
        ensures
            r@ == PseudoView::empty(),
    {
        PseudoHeaders {
            method: None,
            scheme: None,
            authority: None,
            path: None,
            protocol: None,
            status: None,
        }
    }
}

/// A copy of an optional text.
pub fn copy_text(s: &Option<String>) -> (r: Option<String>)
    ensures
        opt_text(r) == opt_text(*s),
{
    match s {
        Some(v) => Some(v.clone()),
        None => None,
    }
}

impl Clone for PseudoHeaders {
    fn clone(&self) -> (r: PseudoHeaders)
        ensures
            r@ == self@,
    {
        PseudoHeaders {
            method: copy_text(&self.method),
            scheme: copy_text(&self.scheme),
            authority: copy_text(&self.authority),
            path: copy_text(&self.path),
            protocol: match &self.protocol {
                Some(p) => Some(p.clone()),
                None => None,
            },
            status: self.status,
        }
    }
}

/// A request has the path that was asked for. Without one, it has the root, unless its
/// method needs no path.
pub proof fn requests_have_paths(method: Seq<char>, path: Seq<char>)
    ensures
        path.len() > 0 ==> PseudoView::request_path(method, Some(path)) == Some(path),
        path.len() == 0 ==> PseudoView::request_path(method, Some(path))
            == PseudoView::request_path(method, None),
        PseudoView::request_path("OPTIONS"@, None) is None,
        PseudoView::request_path("CONNECT"@, None) is None,
        method != "OPTIONS"@ && method != "CONNECT"@ ==> PseudoView::request_path(method, None)
            == Some("/"@),
{
}

} // verus!
