//! The parts of a URL.

use vstd::prelude::*;
use crate::text;

verus! {

/// What a parsed URL holds.
pub struct UrlParts {
    pub scheme: String,
    /// The host as it stands in the URL, without the port.
    pub host: Option<String>,
    /// The port where one other than the scheme's own is written.
    pub port: Option<u16>,
    /// The port, or else the one that the scheme is known for.
    pub known_port: Option<u16>,
    pub path: String,
    pub query: Option<String>,
}

/// The parts of a URL by their texts.
pub struct UrlView {
    pub scheme: Seq<char>,
    pub host: Option<Seq<char>>,
    pub port: Option<u16>,
    pub known_port: Option<u16>,
    pub path: Seq<char>,
    pub query: Option<Seq<char>>,
}

impl View for UrlParts {
    type V = UrlView;

    open spec fn view(&self) -> UrlView {
        UrlView {
            scheme: self.scheme@,
            host: text::opt_view(self.host),
            port: self.port,
            known_port: self.known_port,
            path: self.path@,
            query: text::opt_view(self.query),
        }
    }
}

/// The parts, or the text of the error.
pub open spec fn result_view(r: Result<UrlParts, String>) -> Result<UrlView, Seq<char>> {
    match r {
        Ok(u) => Ok(u@),
        Err(e) => Err(e@),
    }
}

/// The port to connect to: the one that is known, or else that of plain HTTP.
pub open spec fn port_to_dial(u: UrlView) -> u16 {
    match u.known_port {
        Some(p) => p,
        None => 80,
    }
}

/// The port to connect to.
pub fn url_port(u: &UrlParts) -> (r: u16)
    ensures
        r == port_to_dial(u@),
{
    match u.known_port {
        Some(p) => p,
        None => 80,
    }
}

/// What `url::Url::parse` makes of a text: the parts of the URL, or the text
/// of the error.
pub uninterp spec fn url_parts(s: Seq<char>) -> Result<UrlView, Seq<char>>;

/// Calls `url::Url::parse` and takes the URL apart with its own accessors.
/// Which texts are URLs, and what their parts are, is only named.
#[verifier::external_body]
pub(crate) fn parse_url(s: &str) -> (r: Result<UrlParts, String>)
    ensures
        result_view(r) == url_parts(s@),
{
    match url::Url::parse(s) {
        Ok(u) => Ok(UrlParts {
            scheme: u.scheme().to_string(),
            host: u.host_str().map(|h| h.to_string()),
            port: u.port(),
            known_port: u.port_or_known_default(),
            path: u.path().to_string(),
            query: u.query().map(|q| q.to_string()),
        }),
        Err(e) => Err(e.to_string()),
    }
}

} // verus!
