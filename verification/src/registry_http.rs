//! Fail-closed client for the cista.dev registry HTTP API.
//!
//! The client decides what is sent (URL, authorization, body) and checks what
//! comes back; a `Transport` carries each request over the network.

use vstd::prelude::*;
use crate::store::{
    identity_diagnostics, join_texts, non_empty_diagnostics, segment_diagnostics,
    validate_store_identity, views,
};
use crate::text::{blank, concat, decimal, decimal_string, has_char, is_blank, opt_text};
use crate::uri::{is_bare_origin, parse_uri, parsed_uri, parts_view, scheme_is, UriParts, bare_origin};

verus! {

/// Largest registry response body accepted, in bytes.
pub const MAX_RESPONSE_BYTES: u64 = 64 * 1024 * 1024;

/// HTTP method of a registry request.
#[derive(Clone, Copy, Debug, PartialEq, Eq, Structural)]
pub enum Method {
    Get,
    Put,
}

/// One registry request.
#[derive(Debug)]
pub struct Request {
    pub method: Method,
    pub url: String,
    pub authorization: Option<String>,
    pub body: Vec<u8>,
}

/// Carries a request to the registry and hands back the response body or a
/// failure message.
pub trait Transport {
    /// `r` is an answer this transport may give to `request`. A transport that
    /// says nothing of its answers (one that asks a remote service) keeps this
    /// default, under which any answer may come back.
    closed spec fn answers(&self, request: Request, r: Result<Vec<u8>, String>) -> bool {
        true
    }

    fn execute(&self, request: Request) -> (r: Result<Vec<u8>, String>)
        ensures
            self.answers(request, r),
    ;
}

/// `q` is the request for the archive of an identity at `path` under the
/// client's origin, with the client's bearer token and `body`.
pub open spec fn archive_request(
    client: RegistryHttpClient,
    method: Method,
    path: Seq<char>,
    body: Seq<u8>,
    q: Request,
) -> bool {
    &&& q.method == method
    &&& q.url@ == client.origin() + path
    &&& opt_text(q.authorization) == match client.token() {
        Some(t) => Some("Bearer "@ + t),
        None => None,
    }
    &&& q.body@ == body
}

/// Registry HTTP client configuration: a bare HTTP(S) origin and an optional
/// bearer token.
pub struct RegistryHttpClient {
    base_url: String,
    bearer_token: Option<String>,
}

/// What constructing a client from `base_url` and `token` gives, from the parsed
/// parts of the URL.
pub open spec fn client_verdict(
    base_url: Seq<char>,
    parts: Option<(Option<Seq<char>>, Option<Seq<char>>, Option<Seq<char>>)>,
    token: Option<Seq<char>>,
) -> Result<(), Seq<char>> {
    match parts {
        None => Err("registry URL must be a valid HTTP(S) origin"@),
        Some(p) => if !(p.0 == Some("http"@) || p.0 == Some("https"@)) || !bare_origin(
            base_url,
            p,
        ) {
            Err(
                "registry URL must be a bare HTTP(S) origin without userinfo, path, query, or trailing slash"@,
            )
        } else if p.0 == Some("http"@) && token is Some {
            Err("refusing to send registry credentials over insecure HTTP"@)
        } else if token is Some && is_blank(token.unwrap()) {
            Err("registry bearer token must not be empty"@)
        } else {
            Ok(())
        },
    }
}

/// The text of an optional string slice.
pub open spec fn opt_str(o: Option<&str>) -> Option<Seq<char>> {
    match o {
        Some(s) => Some(s@),
        None => None,
    }
}

/// The registry API path of a package archive, or the identity diagnostics
/// joined by `; `.
pub open spec fn archive_path(name: Seq<char>, version: Seq<char>) -> Result<Seq<char>, Seq<char>> {
    let d = identity_diagnostics(name, version);
    if d.len() > 0 {
        Err(join_texts(d, "; "@))
    } else {
        Ok("/v1/packages/"@ + name + "/"@ + version + "/archive"@)
    }
}

/// The texts joined by `sep`.
pub fn join_strings(parts: &Vec<String>, sep: &str) -> (r: String)
    ensures
        r@ == join_texts(views(parts@), sep@),
{
    if parts.len() == 0 {
        return String::new();
    }
    let mut r = parts[0].clone();
    let mut k: usize = 1;
    proof {
        assert(views(parts@).take(1).drop_last() =~= Seq::<Seq<char>>::empty());
    }
    while k < parts.len()
        invariant
            1 <= k <= parts.len(),
            r@ == join_texts(views(parts@).take(k as int), sep@),
        decreases parts.len() - k,
    {
        r.append(sep);
        r.append(parts[k].as_str());
        proof {
            let vs = views(parts@);
            assert(vs.take(k + 1).drop_last() =~= vs.take(k as int));
            assert(vs.take(k + 1).last() == parts@[k as int]@);
        }
        k = k + 1;
    }
    assert(views(parts@).take(parts.len() as int) =~= views(parts@));
    r
}

/// The API path of a package archive: `/v1/packages/<name>/<version>/archive`,
/// after the identity is checked to be a pair of store path segments.
pub fn package_path(name: &str, version: &str) -> (r: Result<String, String>)
    ensures
        match (r, archive_path(name@, version@)) {
            (Ok(p), Ok(q)) => p@ == q,
            (Err(e), Err(m)) => e@ == m,
            _ => false,
        },
{
    match validate_store_identity(name, version) {
        Err(diagnostics) => Err(join_strings(&diagnostics, "; ")),
        Ok(()) => {
            let mut p = "/v1/packages/".to_owned();
            p.append(name);
            p.append("/");
            p.append(version);
            p.append("/archive");
            Ok(p)
        },
    }
}

/// The body of a registry response, refused when it is larger than
/// `MAX_RESPONSE_BYTES`.
pub fn accept_response(bytes: Vec<u8>, url: &str) -> (r: Result<Vec<u8>, String>)
    ensures
        bytes@.len() <= MAX_RESPONSE_BYTES ==> r == Ok::<Vec<u8>, String>(bytes),
        bytes@.len() > MAX_RESPONSE_BYTES ==> r is Err && r->Err_0@ == "registry response from "@
            + url@ + " exceeds "@ + decimal(MAX_RESPONSE_BYTES as nat) + " bytes"@,
{
    if bytes.len() as u64 > MAX_RESPONSE_BYTES {
        let mut m = "registry response from ".to_owned();
        m.append(url);
        m.append(" exceeds ");
        let limit = decimal_string(67108864usize);
        m.append(limit.as_str());
        m.append(" bytes");
        return Err(m);
    }
    Ok(bytes)
}

impl RegistryHttpClient {
    /// The configured origin.
    pub closed spec fn origin(&self) -> Seq<char> {
        self.base_url@
    }

    /// The configured bearer token.
    pub closed spec fn token(&self) -> Option<Seq<char>> {
        opt_text(self.bearer_token)
    }

    /// Construct a client for an HTTP(S) registry origin.
    ///
    /// Fails when the URL is not a bare HTTP(S) origin, when a token would be
    /// sent over plain HTTP, or when the token is blank.
    pub fn new(base_url: &str, bearer_token: Option<&str>) -> (r: Result<Self, String>)
        ensures
            match (r, client_verdict(base_url@, parsed_uri(base_url@), opt_str(bearer_token))) {
                (Ok(c), Ok(())) => c.origin() == base_url@ && c.token() == opt_str(bearer_token),
                (Err(e), Err(m)) => e@ == m,
                _ => false,
            },
    {
        Self::from_parts(base_url, parse_uri(base_url), bearer_token)
    }

    /// Construct a client from the URL and the parts it parsed into.
    pub fn from_parts(base_url: &str, parts: Option<UriParts>, bearer_token: Option<&str>) -> (r:
        Result<Self, String>)
        ensures
            match (r, client_verdict(base_url@, parts_view(parts), opt_str(bearer_token))) {
                (Ok(c), Ok(())) => c.origin() == base_url@ && c.token() == opt_str(bearer_token),
                (Err(e), Err(m)) => e@ == m,
                _ => false,
            },
    {
        let p = match parts {
            None => {
                return Err("registry URL must be a valid HTTP(S) origin".to_owned());
            },
            Some(p) => p,
        };
        let http = scheme_is(&p, "http");
        let https = scheme_is(&p, "https");
        if !(http || https) || !is_bare_origin(base_url, &p) {
            return Err(
                "registry URL must be a bare HTTP(S) origin without userinfo, path, query, or trailing slash".to_owned(),
            );
        }
        if http && bearer_token.is_some() {
            return Err("refusing to send registry credentials over insecure HTTP".to_owned());
        }
        let token = match bearer_token {
            Some(t) => {
                if blank(t) {
                    return Err("registry bearer token must not be empty".to_owned());
                }
                Some(t.to_owned())
            },
            None => None,
        };
        Ok(RegistryHttpClient { base_url: base_url.to_owned(), bearer_token: token })
    }

    /// Whether requests carry a bearer token.
    pub fn is_authenticated(&self) -> (b: bool)
        ensures
            b == (self.token() is Some),
    {
        self.bearer_token.is_some()
    }

    /// A short description that names the origin and whether a token is set,
    /// never the token itself.
    pub fn summary(&self) -> (s: String)
        ensures
            s@ == "RegistryHttpClient { base_url: \""@ + self.origin() + "\", authenticated: "@
                + (if self.token() is Some {
                "true"@
            } else {
                "false"@
            }) + ", .. }"@,
    {
        let mut s = "RegistryHttpClient { base_url: \"".to_owned();
        s.append(self.base_url.as_str());
        s.append("\", authenticated: ");
        if self.bearer_token.is_some() {
            s.append("true");
        } else {
            s.append("false");
        }
        s.append(", .. }");
        s
    }

    /// The request for `path` on this registry: the origin followed by the
    /// path, with a `Bearer` authorization when a token is configured.
    pub fn request(&self, method: Method, path: &str, body: Vec<u8>) -> (r: Request)
        ensures
            r.method == method,
            r.url@ == self.origin() + path@,
            opt_text(r.authorization) == match self.token() {
                Some(t) => Some("Bearer "@ + t),
                None => None,
            },
            r.body@ == body@,
    {
        let authorization = match &self.bearer_token {
            Some(t) => Some(concat("Bearer ", t.as_str())),
            None => None,
        };
        Request { method, url: concat(self.base_url.as_str(), path), authorization, body }
    }

    /// The request that fetches or publishes the archive of `name@version`.
    pub fn package_request(&self, method: Method, name: &str, version: &str, body: Vec<u8>) -> (r:
        Result<Request, String>)
        ensures
            match (r, archive_path(name@, version@)) {
                (Ok(q), Ok(p)) => q.method == method && q.url@ == self.origin() + p && opt_text(
                    q.authorization,
                ) == match self.token() {
                    Some(t) => Some("Bearer "@ + t),
                    None => None,
                } && q.body@ == body@,
                (Err(e), Err(m)) => e@ == m,
                _ => false,
            },
    {
        let path = package_path(name, version)?;
        Ok(self.request(method, path.as_str(), body))
    }

    /// Fetch an immutable package archive by exact package identity. An invalid
    /// identity fails before anything is sent; otherwise the transport's answer
    /// to the `GET` of `package_request` is returned.
    pub fn fetch_package<T: Transport>(&self, transport: &T, name: &str, version: &str) -> (r:
        Result<Vec<u8>, String>)
        ensures
            archive_path(name@, version@) is Err ==> r is Err && r->Err_0@ == archive_path(
                name@,
                version@,
            )->Err_0,
            archive_path(name@, version@) is Ok ==> exists|q: Request|
                archive_request(
                    *self,
                    Method::Get,
                    archive_path(name@, version@)->Ok_0,
                    Seq::empty(),
                    q,
                ) && #[trigger] transport.answers(q, r),
    {
        let request = self.package_request(Method::Get, name, version, Vec::new())?;
        let ghost q = request;
        let r = transport.execute(request);
        proof {
            assert(archive_request(*self, Method::Get, archive_path(name@, version@)->Ok_0, Seq::empty(), q));
        }
        r
    }

    /// Publish an immutable package archive by exact package identity. An
    /// invalid identity fails before anything is sent; otherwise the result is
    /// the transport's answer to the `PUT` of `package_request`.
    pub fn publish_package<T: Transport>(
        &self,
        transport: &T,
        name: &str,
        version: &str,
        archive: Vec<u8>,
    ) -> (r: Result<(), String>)
        ensures
            archive_path(name@, version@) is Err ==> r is Err && r->Err_0@ == archive_path(
                name@,
                version@,
            )->Err_0,
            archive_path(name@, version@) is Ok ==> exists|q: Request, a: Result<Vec<u8>, String>|
                archive_request(
                    *self,
                    Method::Put,
                    archive_path(name@, version@)->Ok_0,
                    archive@,
                    q,
                ) && #[trigger] transport.answers(q, a) && match a {
                    Ok(_) => r is Ok,
                    Err(e) => r is Err && r->Err_0 == e,
                },
    {
        let ghost body = archive@;
        let request = self.package_request(Method::Put, name, version, archive)?;
        let ghost q = request;
        let a = transport.execute(request);
        proof {
            assert(archive_request(*self, Method::Put, archive_path(name@, version@)->Ok_0, body, q));
        }
        match a {
            Ok(_) => Ok(()),
            Err(e) => Err(e),
        }
    }
}

/// A client is only ever configured with a bearer token for an HTTPS origin:
/// credentials are never sent over plain HTTP.
pub proof fn lemma_tokens_only_over_https(
    base_url: Seq<char>,
    parts: Option<(Option<Seq<char>>, Option<Seq<char>>, Option<Seq<char>>)>,
    token: Option<Seq<char>>,
)
    requires
        client_verdict(base_url, parts, token) is Ok,
        token is Some,
    ensures
        parts matches Some(p) && p.0 == Some("https"@),
{
}

/// An archive path that is handed out names exactly one package directory
/// and one version directory: neither part is empty, holds a `/`, or is `.` or
/// `..`.
pub proof fn lemma_archive_path_stays_in_api(name: Seq<char>, version: Seq<char>)
    requires
        archive_path(name, version) is Ok,
    ensures
        name.len() > 0,
        version.len() > 0,
        !has_char(name, '/'),
        !has_char(version, '/'),
        name != "."@ && name != ".."@,
        version != "."@ && version != ".."@,
{
    reveal_strlit(".");
    reveal_strlit("..");
    assert(identity_diagnostics(name, version).len() == 0);
    if name.len() == 0 || is_blank(name) {
        assert(non_empty_diagnostics("source.package"@, name).len() > 0);
    }
    if version.len() == 0 || is_blank(version) {
        assert(non_empty_diagnostics("source.version"@, version).len() > 0);
    }
    assert(segment_diagnostics("source.package"@, name, false).len() == 0);
    assert(segment_diagnostics("source.version"@, version, true).len() == 0);
}

} // verus!
