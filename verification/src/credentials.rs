//! Registry bearer credentials, one token per HTTPS origin.
//!
//! The credential file is modelled as its list of entries; reading and writing
//! the file itself is the caller's business.

use vstd::prelude::*;
use crate::paths::{join_path, path_join};
use crate::text::{blank, is_blank, opt_text, text_eq};
use crate::uri::{bare_origin, is_bare_origin, parse_uri, parsed_uri, parts_view, UriParts};

verus! {

/// One stored credential.
#[derive(Debug)]
pub struct Credential {
    pub origin: String,
    pub token: String,
}

/// The credential file: its entries in file order.
#[derive(Debug)]
pub struct CredentialFile {
    pub registry: Vec<Credential>,
}

impl Default for CredentialFile {
    fn default() -> (r: Self)
        ensures
            r.registry@.len() == 0,
    {
        CredentialFile { registry: Vec::new() }
    }
}

/// The verdict on an origin from its parsed parts.
pub open spec fn origin_verdict(
    origin: Seq<char>,
    parts: Option<(Option<Seq<char>>, Option<Seq<char>>, Option<Seq<char>>)>,
) -> Result<(), Seq<char>> {
    match parts {
        None => Err("registry credential origin must be a valid HTTPS origin"@),
        Some(p) => if p.0 == Some("https"@) && bare_origin(origin, p) {
            Ok(())
        } else {
            Err(
                "registry credential origin must be a bare HTTPS origin without userinfo, path, query, or trailing slash"@,
            )
        },
    }
}

/// The verdict on a credential origin.
pub open spec fn origin_check(origin: Seq<char>) -> Result<(), Seq<char>> {
    origin_verdict(origin, parsed_uri(origin))
}

/// The verdict on an origin and token pair.
pub open spec fn credential_check(origin: Seq<char>, token: Seq<char>) -> Result<(), Seq<char>> {
    match origin_check(origin) {
        Err(e) => Err(e),
        Ok(()) => if is_blank(token) {
            Err("registry bearer token must not be empty"@)
        } else {
            Ok(())
        },
    }
}

/// Judge an origin from the parts its text parsed into.
pub fn check_origin_parts(origin: &str, parts: Option<UriParts>) -> (r: Result<(), String>)
    ensures
        match (r, origin_verdict(origin@, parts_view(parts))) {
            (Ok(()), Ok(())) => true,
            (Err(e), Err(m)) => e@ == m,
            _ => false,
        },
{
    match parts {
        None => Err("registry credential origin must be a valid HTTPS origin".to_owned()),
        Some(p) => {
            let https = match &p.scheme {
                Some(s) => text_eq(s.as_str(), "https"),
                None => false,
            };
            proof {
                assert(https == (opt_text(p.scheme) == Some("https"@)));
            }
            if https && is_bare_origin(origin, &p) {
                Ok(())
            } else {
                Err(
                    "registry credential origin must be a bare HTTPS origin without userinfo, path, query, or trailing slash".to_owned(),
                )
            }
        },
    }
}

/// Accept only a bare HTTPS origin as a credential key.
pub fn validate_origin(origin: &str) -> (r: Result<(), String>)
    ensures
        match (r, origin_check(origin@)) {
            (Ok(()), Ok(())) => true,
            (Err(e), Err(m)) => e@ == m,
            _ => false,
        },
{
    check_origin_parts(origin, parse_uri(origin))
}

/// Accept an origin and a non-blank token.
pub fn validate(origin: &str, token: &str) -> (r: Result<(), String>)
    ensures
        match (r, credential_check(origin@, token@)) {
            (Ok(()), Ok(())) => true,
            (Err(e), Err(m)) => e@ == m,
            _ => false,
        },
{
    validate_origin(origin)?;
    if blank(token) {
        return Err("registry bearer token must not be empty".to_owned());
    }
    Ok(())
}

/// The entries whose origin is not `origin`, in order.
pub open spec fn without_origin(s: Seq<Credential>, origin: Seq<char>) -> Seq<Credential>
    decreases s.len(),
{
    if s.len() == 0 {
        s
    } else if s.last().origin@ == origin {
        without_origin(s.drop_last(), origin)
    } else {
        without_origin(s.drop_last(), origin).push(s.last())
    }
}

/// The token of the first entry for `origin`.
pub open spec fn lookup(s: Seq<Credential>, origin: Seq<char>) -> Option<Seq<char>>
    decreases s.len(),
{
    if s.len() == 0 {
        None
    } else {
        match lookup(s.drop_last(), origin) {
            Some(t) => Some(t),
            None => if s.last().origin@ == origin {
                Some(s.last().token@)
            } else {
                None
            },
        }
    }
}

/// Some entry is for `origin`.
pub open spec fn has_origin(s: Seq<Credential>, origin: Seq<char>) -> bool {
    exists|i: int| 0 <= i < s.len() && (#[trigger] s[i]).origin@ == origin
}

/// The entries after storing `token` for `origin`: earlier entries for that
/// origin are dropped and the new one is appended.
pub open spec fn stored(s: Seq<Credential>, origin: Seq<char>, token: Seq<char>) -> Seq<
    (Seq<char>, Seq<char>),
> {
    entries(without_origin(s, origin)).push((origin, token))
}

/// The (origin, token) texts of the entries.
pub open spec fn entries(s: Seq<Credential>) -> Seq<(Seq<char>, Seq<char>)> {
    s.map_values(|c: Credential| (c.origin@, c.token@))
}

/// The token of the first entry for `origin`, over entry texts.
pub open spec fn lookup_entries(s: Seq<(Seq<char>, Seq<char>)>, origin: Seq<char>) -> Option<
    Seq<char>,
>
    decreases s.len(),
{
    if s.len() == 0 {
        None
    } else {
        match lookup_entries(s.drop_last(), origin) {
            Some(t) => Some(t),
            None => if s.last().0 == origin {
                Some(s.last().1)
            } else {
                None
            },
        }
    }
}

fn without(list: &Vec<Credential>, origin: &str) -> (r: Vec<Credential>)
    ensures
        entries(r@) == entries(without_origin(list@, origin@)),
{
    let mut r: Vec<Credential> = Vec::new();
    let mut i: usize = 0;
    while i < list.len()
        invariant
            i <= list.len(),
            entries(r@) == entries(without_origin(list@.take(i as int), origin@)),
        decreases list.len() - i,
    {
        proof {
            assert(list@.take(i + 1).drop_last() =~= list@.take(i as int));
            assert(list@.take(i + 1).last() == list@[i as int]);
        }
        let e = &list[i];
        let ghost before = r@;
        if !text_eq(e.origin.as_str(), origin) {
            r.push(Credential { origin: e.origin.clone(), token: e.token.clone() });
            proof {
                assert(r@ == before.push(r@.last()));
                let w = without_origin(list@.take(i as int), origin@);
                assert(entries(r@) =~= entries(before).push((e.origin@, e.token@)));
                assert(entries(w.push(list@[i as int])) =~= entries(w).push(
                    (e.origin@, e.token@),
                ));
            }
        }
        i = i + 1;
    }
    assert(list@.take(list.len() as int) =~= list@);
    r
}

/// Store `token` for `origin`, replacing any earlier entry for that origin.
pub fn store(file: &mut CredentialFile, origin: &str, token: &str) -> (r: Result<(), String>)
    ensures
        match (r, credential_check(origin@, token@)) {
            (Ok(()), Ok(())) => entries(final(file).registry@) == stored(
                old(file).registry@,
                origin@,
                token@,
            ),
            (Err(e), Err(m)) => e@ == m && final(file).registry@ == old(file).registry@,
            _ => false,
        },
{
    validate(origin, token)?;
    let mut kept = without(&file.registry, origin);
    let ghost before = kept@;
    kept.push(Credential { origin: origin.to_owned(), token: token.to_owned() });
    proof {
        assert(kept@ == before.push(kept@.last()));
        assert(entries(kept@) =~= entries(before).push((origin@, token@)));
    }
    file.registry = kept;
    Ok(())
}

/// Remove the entries for `origin`; `Ok(true)` when there was one.
pub fn remove(file: &mut CredentialFile, origin: &str) -> (r: Result<bool, String>)
    ensures
        match (r, origin_check(origin@)) {
            (Ok(removed), Ok(())) => removed == has_origin(old(file).registry@, origin@)
                && entries(final(file).registry@) == entries(
                without_origin(old(file).registry@, origin@),
            ),
            (Err(e), Err(m)) => e@ == m && final(file).registry@ == old(file).registry@,
            _ => false,
        },
{
    validate_origin(origin)?;
    let kept = without(&file.registry, origin);
    proof {
        lemma_without_len(file.registry@, origin@);
        assert(entries(kept@).len() == kept@.len());
        assert(entries(without_origin(file.registry@, origin@)).len() == without_origin(
            file.registry@,
            origin@,
        ).len());
    }
    if kept.len() == file.registry.len() {
        proof {
            assert(entries(kept@).len() == kept@.len());
            assert(entries(without_origin(file.registry@, origin@)).len() == without_origin(
                file.registry@,
                origin@,
            ).len());
        }
        return Ok(false);
    }
    file.registry = kept;
    Ok(true)
}

proof fn lemma_without_len(s: Seq<Credential>, origin: Seq<char>)
    ensures
        without_origin(s, origin).len() <= s.len(),
        (without_origin(s, origin).len() == s.len()) == !has_origin(s, origin),
        !has_origin(s, origin) ==> without_origin(s, origin) == s,
    decreases s.len(),
{
    if s.len() > 0 {
        let t = s.drop_last();
        lemma_without_len(t, origin);
        assert(t.push(s.last()) =~= s);
        if has_origin(t, origin) {
            let i = choose|i: int| 0 <= i < t.len() && (#[trigger] t[i]).origin@ == origin;
            assert(s[i] == t[i]);
        }
        if has_origin(s, origin) {
            let i = choose|i: int| 0 <= i < s.len() && (#[trigger] s[i]).origin@ == origin;
            if i < t.len() {
                assert(t[i] == s[i]);
            }
        }
        if s.last().origin@ == origin {
            assert(s[s.len() - 1].origin@ == origin);
        }
    }
}

/// The stored token for `origin`, if any.
pub fn token(file: &CredentialFile, origin: &str) -> (r: Result<Option<String>, String>)
    ensures
        match (r, origin_check(origin@)) {
            (Ok(t), Ok(())) => opt_text(t) == lookup(file.registry@, origin@),
            (Err(e), Err(m)) => e@ == m,
            _ => false,
        },
{
    validate_origin(origin)?;
    let mut i: usize = 0;
    while i < file.registry.len()
        invariant
            i <= file.registry.len(),
            lookup(file.registry@.take(i as int), origin@) is None,
            origin_check(origin@) is Ok,
        decreases file.registry.len() - i,
    {
        proof {
            assert(file.registry@.take(i + 1).drop_last() =~= file.registry@.take(i as int));
            assert(file.registry@.take(i + 1).last() == file.registry@[i as int]);
        }
        if text_eq(file.registry[i].origin.as_str(), origin) {
            let t = file.registry[i].token.clone();
            proof {
                assert(file.registry@[i as int].origin@ == origin@);
                assert(lookup(file.registry@.take(i + 1), origin@) == Some(t@));
                lemma_lookup_prefix(file.registry@, origin@, i + 1);
            }
            return Ok(Some(t));
        }
        i = i + 1;
    }
    assert(file.registry@.take(file.registry.len() as int) =~= file.registry@);
    Ok(None)
}

proof fn lemma_lookup_prefix(s: Seq<Credential>, origin: Seq<char>, k: int)
    requires
        0 <= k <= s.len(),
        lookup(s.take(k), origin) is Some,
    ensures
        lookup(s, origin) == lookup(s.take(k), origin),
    decreases s.len() - k,
{
    if k < s.len() {
        assert(s.take(k + 1).drop_last() =~= s.take(k));
        lemma_lookup_prefix(s, origin, k + 1);
    } else {
        assert(s.take(k) =~= s);
    }
}

proof fn lemma_lookup_entries(s: Seq<Credential>, origin: Seq<char>)
    ensures
        lookup_entries(entries(s), origin) == lookup(s, origin),
    decreases s.len(),
{
    if s.len() > 0 {
        lemma_lookup_entries(s.drop_last(), origin);
        assert(entries(s).drop_last() =~= entries(s.drop_last()));
    }
}

proof fn lemma_without_lookup(s: Seq<Credential>, origin: Seq<char>, other: Seq<char>)
    ensures
        lookup(without_origin(s, origin), origin) is None,
        other != origin ==> lookup(without_origin(s, origin), other) == lookup(s, other),
    decreases s.len(),
{
    if s.len() > 0 {
        lemma_without_lookup(s.drop_last(), origin, other);
        let w = without_origin(s.drop_last(), origin);
        if s.last().origin@ != origin {
            assert(w.push(s.last()).drop_last() =~= w);
        }
    }
}

/// Storing then reading back: when `after` is what a successful `store` of
/// `token` for `origin` left of `before`, `token` finds that token for
/// `origin`, and every other origin keeps the token it had.
pub proof fn lemma_store_then_token(
    before: Seq<Credential>,
    after: Seq<Credential>,
    origin: Seq<char>,
    token: Seq<char>,
    other: Seq<char>,
)
    requires
        entries(after) == stored(before, origin, token),
    ensures
        lookup(after, origin) == Some(token),
        other != origin ==> lookup(after, other) == lookup(before, other),
{
    let w = without_origin(before, origin);
    lemma_without_lookup(before, origin, other);
    lemma_lookup_entries(w, origin);
    lemma_lookup_entries(w, other);
    lemma_lookup_entries(after, origin);
    lemma_lookup_entries(after, other);
    assert(stored(before, origin, token).drop_last() =~= entries(w));
}

/// Removing then reading back: when `after` is what a successful `remove` of
/// `origin` left of `before`, `token` finds nothing for `origin`, and every
/// other origin keeps the token it had.
pub proof fn lemma_remove_then_token(
    before: Seq<Credential>,
    after: Seq<Credential>,
    origin: Seq<char>,
    other: Seq<char>,
)
    requires
        entries(after) == entries(without_origin(before, origin)),
    ensures
        lookup(after, origin) is None,
        other != origin ==> lookup(after, other) == lookup(before, other),
{
    lemma_without_lookup(before, origin, other);
    lemma_lookup_entries(without_origin(before, origin), origin);
    lemma_lookup_entries(without_origin(before, origin), other);
    lemma_lookup_entries(after, origin);
    lemma_lookup_entries(after, other);
}

/// The credential file under a home directory: `~/.faber/credentials.toml`.
pub fn default_path(home: Option<&str>) -> (r: Result<String, String>)
    ensures
        match home {
            Some(h) => r is Ok && r->Ok_0@ == path_join(
                path_join(h@, ".faber"@),
                "credentials.toml"@,
            ),
            None => r is Err && r->Err_0@
                == "HOME is unavailable; cannot locate registry credentials"@,
        },
{
    match home {
        Some(h) => {
            let faber = join_path(h, ".faber");
            Ok(join_path(&faber, "credentials.toml"))
        },
        None => Err("HOME is unavailable; cannot locate registry credentials".to_owned()),
    }
}

} // verus!
