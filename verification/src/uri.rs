//! Registry origins: the parts of a URI that the origin checks read, and the
//! checks themselves.

use vstd::prelude::*;
use crate::text::{chars_of, contains_char, has_char, opt_text, text_eq};

verus! {

/// The parts of a parsed URI that origin checks look at: the scheme, the
/// authority, and the path with its query (each absent when the URI has none).
#[derive(Debug)]
pub struct UriParts {
    pub scheme: Option<String>,
    pub authority: Option<String>,
    pub path_and_query: Option<String>,
}

impl View for UriParts {
    type V = (Option<Seq<char>>, Option<Seq<char>>, Option<Seq<char>>);

    open spec fn view(&self) -> Self::V {
        (opt_text(self.scheme), opt_text(self.authority), opt_text(self.path_and_query))
    }
}

/// What the `http` crate's URI parser makes of a text: `None` when it rejects
/// the text, else the scheme, authority and path-and-query it reports.
pub uninterp spec fn parsed_uri(text: Seq<char>) -> Option<
    (Option<Seq<char>>, Option<Seq<char>>, Option<Seq<char>>),
>;

/// The view of an optional parse result.
pub open spec fn parts_view(p: Option<UriParts>) -> Option<
    (Option<Seq<char>>, Option<Seq<char>>, Option<Seq<char>>),
> {
    match p {
        Some(parts) => Some(parts@),
        None => None,
    }
}

/// Parses `text` with `http::Uri`'s `FromStr` (re-exported by `ureq`) and reads
/// back `scheme_str`, `authority().as_str()` and `path_and_query().as_str()`.
/// Claimed: the result is the parser's verdict on `text` alone, named
/// `parsed_uri`; nothing more is said of the URI grammar.
#[verifier::external_body]
pub(crate) fn parse_uri(text: &str) -> (r: Option<UriParts>)
    ensures
        parts_view(r) == parsed_uri(text@),
{
    match text.parse::<ureq::http::Uri>() {
        Ok(uri) => Some(
            UriParts {
                scheme: uri.scheme_str().map(|s| s.to_owned()),
                authority: uri.authority().map(|a| a.as_str().to_owned()),
                path_and_query: uri.path_and_query().map(|p| p.as_str().to_owned()),
            },
        ),
        Err(_) => None,
    }
}

/// A bare origin: an authority without userinfo, no path or query beyond `/`,
/// and no trailing slash in the text.
pub open spec fn bare_origin(
    text: Seq<char>,
    parts: (Option<Seq<char>>, Option<Seq<char>>, Option<Seq<char>>),
) -> bool {
    &&& parts.1 is Some
    &&& !has_char(parts.1.unwrap(), '@')
    &&& (parts.2 is None || parts.2 == Some("/"@))
    &&& !(text.len() > 0 && text.last() == '/')
}

/// Whether the parsed parts of `text` describe a bare origin.
pub fn is_bare_origin(text: &str, parts: &UriParts) -> (b: bool)
    ensures
        b == bare_origin(text@, parts@),
{
    let authority_ok = match &parts.authority {
        Some(a) => !contains_char(&chars_of(a.as_str()), '@'),
        None => false,
    };
    let path_ok = match &parts.path_and_query {
        Some(p) => {
            text_eq(p.as_str(), "/")
        },
        None => true,
    };
    let v = chars_of(text);
    let trailing = v.len() > 0 && v[v.len() - 1] == '/';
    proof {
        reveal_strlit("/");
    }
    authority_ok && path_ok && !trailing
}

/// Whether an optional scheme is exactly `expected`.
pub fn scheme_is(parts: &UriParts, expected: &str) -> (b: bool)
    ensures
        b == (opt_text(parts.scheme) == Some(expected@)),
{
    match &parts.scheme {
        Some(s) => text_eq(s.as_str(), expected),
        None => false,
    }
}

} // verus!
