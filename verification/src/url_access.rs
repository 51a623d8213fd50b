//! URLs, parsed by the `url` crate into the parts that the backends read.
use vstd::prelude::*;
use url::Url;
use vstd::utf8::{encode_utf8, is_ascii_chars};
use crate::jwk::opt_view;

verus! {

/// A URL scheme as the `url` parser leaves it: an ASCII letter, then lower-case ASCII
/// letters, digits, `+`, `-` and `.`.
pub open spec fn is_parsed_scheme(s: Seq<char>) -> bool {
    &&& s.len() > 0
    &&& 97 <= (s[0] as u32) <= 122
    &&& forall|i: int| 0 <= i < s.len() ==> {
        let n = #[trigger] s[i] as u32;
        (97 <= n <= 122) || (48 <= n <= 57) || n == 43 || n == 45 || n == 46
    }
}

/// The parts of a parsed URL that the backends read: its scheme, path, query, host and
/// port, as `Url::scheme`, `Url::path`, `Url::query`, `Url::host_str` and `Url::port`
/// give them.
#[derive(Debug, Clone, PartialEq, Eq)]
pub struct UrlParts {
    pub scheme: String,
    pub path: String,
    pub query: Option<String>,
    pub host: Option<String>,
    pub port: Option<u16>,
}

/// The mathematical value of [`UrlParts`].
pub struct UrlPartsView {
    pub scheme: Seq<char>,
    pub path: Seq<char>,
    pub query: Option<Seq<char>>,
    pub host: Option<Seq<char>>,
    pub port: Option<u16>,
}

impl View for UrlParts {
    type V = UrlPartsView;

    open spec fn view(&self) -> UrlPartsView {
        UrlPartsView {
            scheme: self.scheme@,
            path: self.path@,
            query: opt_view(self.query),
            host: opt_view(self.host),
            port: self.port,
        }
    }
}

/// The parts of the URL that a text parses into, if it is a URL.
pub uninterp spec fn parsed_url(input: Seq<char>) -> Option<UrlPartsView>;

/// The `application/x-www-form-urlencoded` parse of a byte string: its name/value pairs,
/// percent-decoded, in order.
pub uninterp spec fn form_urlencoded_parse(input: Seq<u8>) -> Seq<(Seq<char>, Seq<char>)>;

/// Calls `Url::parse` and reads the parts of the result. Trusted: the parts are a function
/// of the text alone; the scheme is lower-cased ASCII that starts with a letter and holds
/// letters, digits, `+`, `-` and `.` (the parser keeps no other); path, query and host are
/// ASCII, as documented (percent-encoded, or punycode for the host of a special URL).
#[verifier::external_body]
pub(crate) fn parse_url(input: &str) -> (r: Option<UrlParts>)
    ensures
        match r {
            Some(p) => parsed_url(input@) == Some(p@),
            None => parsed_url(input@) is None,
        },
        r matches Some(p) ==> is_parsed_scheme(p.scheme@) && is_ascii_chars(p.path@)
            && (p.query matches Some(q) ==> is_ascii_chars(q@)) && (p.host matches Some(h) ==> is_ascii_chars(h@)),
{
    match Url::parse(input) {
        Ok(u) => Some(UrlParts {
            scheme: u.scheme().to_owned(),
            path: u.path().to_owned(),
            query: u.query().map(|q| q.to_owned()),
            host: u.host_str().map(|h| h.to_owned()),
            port: u.port(),
        }),
        Err(_) => None,
    }
}

/// Calls `url::form_urlencoded::parse` on the bytes of `query` and collects the pairs.
/// Trusted: the result is the parse of those bytes, a function of them alone.
#[verifier::external_body]
pub(crate) fn parse_form_urlencoded(query: &str) -> (r: Vec<(String, String)>)
    ensures
        r@.map_values(|p: (String, String)| (p.0@, p.1@)) == form_urlencoded_parse(encode_utf8(query@)),
{
    url::form_urlencoded::parse(query.as_bytes()).map(|(k, v)| (k.into_owned(), v.into_owned())).collect()
}

impl UrlParts {
    /// The parts of the URL that `input` parses into, or `None` when it is not a URL.
    pub fn parse(input: &str) -> (r: Option<UrlParts>)
        ensures
            match r {
                Some(p) => parsed_url(input@) == Some(p@),
                None => parsed_url(input@) is None,
            },
            r matches Some(p) ==> is_parsed_scheme(p.scheme@),
    {
        parse_url(input)
    }
}

} // verus!
