//! The key cache: the verifying keys of the token issuer, by key id, replaced
//! wholesale on each refresh.
use vstd::prelude::*;

use crate::decimal::{decimal_u64_of, parse_u64};
use crate::handshake::HandshakeError;

verus! {

/// Where the issuer publishes its keys.
pub const JWKS_URL: &'static str = "https://www.googleapis.com/oauth2/v3/certs";

/// The `User-Agent` sent with each fetch.
pub const USER_AGENT: &'static str = "stormgrok";

/// The pattern that finds the refresh interval in a `Cache-Control` header.
pub const MAX_AGE_PATTERN: &'static str = "max-age=(\\d*),";

/// Seconds to wait before the next fetch after a failed one.
pub const RETRY_DELAY_SECS: u64 = 3600;

#[verifier::external_type_specification]
#[verifier::external_body]
pub struct ExDecodingKey(jsonwebtoken::DecodingKey);

#[verifier::external_type_specification]
#[verifier::external_body]
pub struct ExRegexError(regex::Error);

pub assume_specification[ <jsonwebtoken::DecodingKey as Clone>::clone ](
    k: &jsonwebtoken::DecodingKey,
) -> (r: jsonwebtoken::DecodingKey)
    ensures
        r == *k,
;

/// Whether `DecodingKey::from_rsa_components` accepts a modulus and an exponent
/// (both must be unpadded URL-safe base64).
pub uninterp spec fn rsa_components_accepted(n: Seq<char>, e: Seq<char>) -> bool;

/// What `regex::Regex::new(pattern)` and then `captures(text)` give for the first
/// group: `None` where the pattern does not compile, `Some(None)` where nothing
/// matches or the group took no part in the match.
pub uninterp spec fn first_group_of(pattern: Seq<char>, text: Seq<char>) -> Option<Option<Seq<char>>>;

/// Relies on `jsonwebtoken::DecodingKey::from_rsa_components`, which decodes the
/// two components and keeps them.
#[verifier::external_body]
fn rsa_key(n: &str, e: &str) -> (r: Result<jsonwebtoken::DecodingKey, jsonwebtoken::errors::Error>)
    ensures
        r is Ok <==> rsa_components_accepted(n@, e@),
{
    jsonwebtoken::DecodingKey::from_rsa_components(n, e)
}

/// Relies on `regex::Regex::new` and `regex::Regex::captures`: the text of the
/// first group of the leftmost match.
#[verifier::external_body]
fn regex_first_group(pattern: &str, text: &str) -> (r: Result<Option<String>, regex::Error>)
    ensures
        r is Err ==> first_group_of(pattern@, text@) is None,
        r matches Ok(None) ==> first_group_of(pattern@, text@) == Some(None::<Seq<char>>),
        r matches Ok(Some(g)) ==> first_group_of(pattern@, text@) == Some(Some(g@)),
{
    let re = regex::Regex::new(pattern)?;
    Ok(re.captures(text).and_then(|c| c.get(1)).map(|m| m.as_str().to_string()))
}

/// Why a refresh of the key cache failed; the cache then keeps its keys.
#[derive(Clone, Copy, Debug, PartialEq, Eq, Structural)]
pub enum RefreshError {
    /// The fetch itself failed.
    Fetch,
    /// The response has no `Cache-Control` header, or one that is not text.
    NoCacheControl,
    /// The refresh pattern does not compile.
    BadPattern,
    /// The `Cache-Control` header holds no `max-age=<digits>,`.
    NoMaxAge,
    /// The `max-age` digits do not make a `u64`.
    BadMaxAge,
    /// The body is not a key set.
    BadBody,
    /// A key's modulus or exponent could not be decoded.
    BadKey,
}

/// A key as the issuer publishes it.
#[derive(Clone, Debug, PartialEq, Eq)]
pub struct Jwk {
    pub kid: String,
    pub n: String,
    pub e: String,
}

/// The refresh interval, given the first group that the pattern found.
pub open spec fn max_age_spec(group: Option<Option<Seq<char>>>) -> Result<u64, RefreshError> {
    match group {
        None => Err(RefreshError::BadPattern),
        Some(None) => Err(RefreshError::NoMaxAge),
        Some(Some(g)) => match decimal_u64_of(g) {
            Some(v) => Ok(v),
            None => Err(RefreshError::BadMaxAge),
        },
    }
}

/// The refresh interval in seconds, given the digits that the pattern captured
/// (`None` where it matched nothing).
pub fn max_age_from_capture(group: Option<&str>) -> (r: Result<u64, RefreshError>)
    ensures
        r == max_age_spec(
            match group {
                Some(g) => Some(Some(g@)),
                None => Some(None),
            },
        ),
{
    match group {
        None => Err(RefreshError::NoMaxAge),
        Some(g) => match parse_u64(g) {
            Some(v) => Ok(v),
            None => Err(RefreshError::BadMaxAge),
        },
    }
}

/// The refresh interval in seconds that a `Cache-Control` header gives.
pub fn parse_max_age(cache_control: &str) -> (r: Result<u64, RefreshError>)
    ensures
        r == max_age_spec(first_group_of(MAX_AGE_PATTERN@, cache_control@)),
{
    match regex_first_group(MAX_AGE_PATTERN, cache_control) {
        Err(_) => Err(RefreshError::BadPattern),
        Ok(None) => max_age_from_capture(None),
        Ok(Some(g)) => max_age_from_capture(Some(g.as_str())),
    }
}

/// The key that `entries` holds under `kid`, the first one if several do.
pub open spec fn lookup(entries: Seq<(String, jsonwebtoken::DecodingKey)>, kid: Seq<char>) -> Option<jsonwebtoken::DecodingKey>
    decreases entries.len(),
{
    if entries.len() == 0 {
        None
    } else if entries[0].0@ == kid {
        Some(entries[0].1)
    } else {
        lookup(entries.drop_first(), kid)
    }
}

/// No key id occurs twice.
pub open spec fn kids_distinct(entries: Seq<(String, jsonwebtoken::DecodingKey)>) -> bool {
    forall|i: int, j: int| 0 <= i < j < entries.len() ==> entries[i].0@ != entries[j].0@
}

/// `kid` is the key id of one of the published keys.
pub open spec fn published(upstream: Seq<Jwk>, kid: Seq<char>) -> bool {
    exists|i: int| 0 <= i < upstream.len() && #[trigger] upstream[i].kid@ == kid
}

/// Every published key decodes.
pub open spec fn all_accepted(upstream: Seq<Jwk>) -> bool {
    forall|i: int| 0 <= i < upstream.len() ==> rsa_components_accepted(#[trigger] upstream[i].n@, upstream[i].e@)
}

/// One consistent set of verifying keys, built from one response of the issuer.
pub struct KeySnapshot {
    entries: Vec<(String, jsonwebtoken::DecodingKey)>,
}

impl KeySnapshot {
    pub closed spec fn entries(&self) -> Seq<(String, jsonwebtoken::DecodingKey)> {
        self.entries@
    }

    pub open spec fn wf(&self) -> bool {
        kids_distinct(self.entries())
    }

    /// The key under `kid`, if any.
    pub open spec fn key(&self, kid: Seq<char>) -> Option<jsonwebtoken::DecodingKey> {
        lookup(self.entries(), kid)
    }

    /// A snapshot without keys.
    pub fn empty() -> (r: KeySnapshot)
        ensures
            r.wf(),
            forall|kid: Seq<char>| #[trigger] r.key(kid) is None,
    {
        KeySnapshot { entries: Vec::new() }
    }
}

proof fn lemma_lookup_found(e: Seq<(String, jsonwebtoken::DecodingKey)>, i: int)
    requires
        kids_distinct(e),
        0 <= i < e.len(),
    ensures
        lookup(e, e[i].0@) == Some(e[i].1),
    decreases e.len(),
{
    if i > 0 {
        let t = e.drop_first();
        assert(t[i - 1] == e[i]);
        assert(kids_distinct(t)) by {
            assert forall|a: int, b: int| 0 <= a < b < t.len() implies t[a].0@ != t[b].0@ by {
                assert(t[a] == e[a + 1] && t[b] == e[b + 1]);
            }
        }
        lemma_lookup_found(t, i - 1);
    }
}

proof fn lemma_lookup_absent(e: Seq<(String, jsonwebtoken::DecodingKey)>, kid: Seq<char>)
    requires
        forall|i: int| 0 <= i < e.len() ==> (#[trigger] e[i]).0@ != kid,
    ensures
        lookup(e, kid) is None,
    decreases e.len(),
{
    if e.len() > 0 {
        let t = e.drop_first();
        assert forall|i: int| 0 <= i < t.len() implies (#[trigger] t[i]).0@ != kid by {
            assert(t[i] == e[i + 1]);
        }
        lemma_lookup_absent(t, kid);
    }
}

/// The position of the entry under `kid`, if there is one.
fn find_kid(entries: &Vec<(String, jsonwebtoken::DecodingKey)>, kid: &String) -> (r: Option<usize>)
    ensures
        r matches Some(i) ==> i < entries@.len() && entries@[i as int].0@ == kid@,
        r is None ==> forall|i: int| 0 <= i < entries@.len() ==> (#[trigger] entries@[i]).0@ != kid@,
{
    let mut i: usize = 0;
    while i < entries.len()
        invariant
            i <= entries@.len(),
            forall|j: int| 0 <= j < i ==> (#[trigger] entries@[j]).0@ != kid@,
        decreases entries.len() - i,
    {
        if entries[i].0 == *kid {
            return Some(i);
        }
        i = i + 1;
    }
    None
}

/// Puts `key` under `kid`, replacing the key that was there.
fn put_key(entries: &mut Vec<(String, jsonwebtoken::DecodingKey)>, kid: String, key: jsonwebtoken::DecodingKey)
    requires
        kids_distinct(old(entries)@),
    ensures
        kids_distinct(final(entries)@),
        forall|k: Seq<char>| #[trigger] lookup(final(entries)@, k) == if k == kid@ {
            Some(key)
        } else {
            lookup(old(entries)@, k)
        },
{
    let ghost pre = entries@;
    let ghost kv = kid@;
    match find_kid(entries, &kid) {
        Some(i) => {
            entries.set(i, (kid, key));
            proof {
                let post = entries@;
                assert(kids_distinct(post)) by {
                    assert forall|a: int, b: int| 0 <= a < b < post.len() implies post[a].0@ != post[b].0@ by {
                        if a != i && b != i {
                            assert(post[a] == pre[a] && post[b] == pre[b]);
                        } else if a == i {
                            assert(post[b] == pre[b]);
                        } else {
                            assert(post[a] == pre[a]);
                        }
                    }
                }
                assert forall|k: Seq<char>| #[trigger] lookup(post, k) == if k == kv {
                    Some(key)
                } else {
                    lookup(pre, k)
                } by {
                    if k == kv {
                        lemma_lookup_found(post, i as int);
                    } else if exists|j: int| 0 <= j < pre.len() && (#[trigger] pre[j]).0@ == k {
                        let j = choose|j: int| 0 <= j < pre.len() && (#[trigger] pre[j]).0@ == k;
                        assert(j != i);
                        assert(post[j] == pre[j]);
                        lemma_lookup_found(pre, j);
                        lemma_lookup_found(post, j);
                    } else {
                        lemma_lookup_absent(pre, k);
                        assert forall|j: int| 0 <= j < post.len() implies (#[trigger] post[j]).0@ != k by {
                            if j != i {
                                assert(post[j] == pre[j]);
                            }
                        }
                        lemma_lookup_absent(post, k);
                    }
                }
            }
        },
        None => {
            entries.push((kid, key));
            proof {
                let post = entries@;
                let last = pre.len() as int;
                assert(kids_distinct(post)) by {
                    assert forall|a: int, b: int| 0 <= a < b < post.len() implies post[a].0@ != post[b].0@ by {
                        assert(post[a] == pre[a]);
                        if b < last {
                            assert(post[b] == pre[b]);
                        }
                    }
                }
                assert forall|k: Seq<char>| #[trigger] lookup(post, k) == if k == kv {
                    Some(key)
                } else {
                    lookup(pre, k)
                } by {
                    if k == kv {
                        lemma_lookup_found(post, last);
                    } else if exists|j: int| 0 <= j < pre.len() && (#[trigger] pre[j]).0@ == k {
                        let j = choose|j: int| 0 <= j < pre.len() && (#[trigger] pre[j]).0@ == k;
                        assert(post[j] == pre[j]);
                        lemma_lookup_found(pre, j);
                        lemma_lookup_found(post, j);
                    } else {
                        lemma_lookup_absent(pre, k);
                        assert forall|j: int| 0 <= j < post.len() implies (#[trigger] post[j]).0@ != k by {
                            if j < last {
                                assert(post[j] == pre[j]);
                            }
                        }
                        lemma_lookup_absent(post, k);
                    }
                }
            }
        },
    }
}

impl KeySnapshot {
    /// The key under `kid`, if any.
    pub fn get(&self, kid: &String) -> (r: Option<jsonwebtoken::DecodingKey>)
        requires
            self.wf(),
        ensures
            r == self.key(kid@),
    {
        match find_kid(&self.entries, kid) {
            Some(i) => {
                proof {
                    lemma_lookup_found(self.entries@, i as int);
                }
                Some(self.entries[i].1.clone())
            },
            None => {
                proof {
                    lemma_lookup_absent(self.entries@, kid@);
                }
                None
            },
        }
    }

    /// A snapshot of every published key, or nothing at all where one of them
    /// does not decode. A key id published twice keeps its last key.
    pub fn build(upstream: &Vec<Jwk>) -> (r: Result<KeySnapshot, RefreshError>)
        ensures
            r is Ok <==> all_accepted(upstream@),
            r is Err ==> r == Err::<KeySnapshot, RefreshError>(RefreshError::BadKey),
            r matches Ok(snap) ==> snap.wf() && forall|kid: Seq<char>|
                (#[trigger] snap.key(kid) is Some) <==> published(upstream@, kid),
    {
        let mut entries: Vec<(String, jsonwebtoken::DecodingKey)> = Vec::new();
        let mut i: usize = 0;
        while i < upstream.len()
            invariant
                i <= upstream@.len(),
                kids_distinct(entries@),
                forall|j: int| 0 <= j < i ==> rsa_components_accepted(#[trigger] upstream@[j].n@, upstream@[j].e@),
                forall|kid: Seq<char>| (#[trigger] lookup(entries@, kid) is Some) <==> exists|j: int|
                    0 <= j < i && #[trigger] upstream@[j].kid@ == kid,
            decreases upstream.len() - i,
        {
            let jwk = &upstream[i];
            match rsa_key(jwk.n.as_str(), jwk.e.as_str()) {
                Err(_) => {
                    return Err(RefreshError::BadKey);
                },
                Ok(key) => {
                    let ghost before = entries@;
                    put_key(&mut entries, jwk.kid.clone(), key);
                    proof {
                        assert forall|kid: Seq<char>| (#[trigger] lookup(entries@, kid) is Some) <==> exists|j: int|
                            0 <= j < i + 1 && #[trigger] upstream@[j].kid@ == kid by {
                            if kid == upstream@[i as int].kid@ {
                                assert(upstream@[i as int].kid@ == kid);
                            } else {
                                assert(lookup(entries@, kid) == lookup(before, kid));
                                if exists|j: int| 0 <= j < i + 1 && #[trigger] upstream@[j].kid@ == kid {
                                    let j = choose|j: int| 0 <= j < i + 1 && #[trigger] upstream@[j].kid@ == kid;
                                    assert(j < i);
                                }
                            }
                        }
                    }
                },
            }
            i = i + 1;
        }
        Ok(KeySnapshot { entries })
    }
}

/// Asks for the key under `kid`.
pub struct ResolveKey {
    pub kid: String,
}

/// Asks for a fresh fetch of the issuer's keys.
pub struct RefreshCache {}

/// What a key lookup during a handshake calls for next.
#[derive(Clone)]
pub enum KeyLookup {
    /// The key was found.
    Found(jsonwebtoken::DecodingKey),
    /// The key is unknown: refresh the cache once and ask again.
    RefreshAndRetry,
    /// The key is unknown even after a refresh.
    Missing(HandshakeError),
}

/// The key cache: the snapshot of the last successful fetch, or an empty one
/// before the first.
pub struct GoogleKeyStore {
    pub keys: KeySnapshot,
}

/// The outcome of one fetch, given its `Cache-Control` header and the keys that
/// its body held (`None` where either was missing or unreadable).
pub open spec fn refresh_spec(cache_control: Option<Seq<char>>, upstream: Option<Seq<Jwk>>) -> Result<u64, RefreshError> {
    match cache_control {
        None => Err(RefreshError::NoCacheControl),
        Some(cc) => match max_age_spec(first_group_of(MAX_AGE_PATTERN@, cc)) {
            Err(e) => Err(e),
            Ok(age) => match upstream {
                None => Err(RefreshError::BadBody),
                Some(u) => if all_accepted(u) {
                    Ok(age)
                } else {
                    Err(RefreshError::BadKey)
                },
            },
        },
    }
}

/// Builds the snapshot and refresh interval of one response of the issuer.
pub fn refresh_token(cache_control: Option<&str>, upstream: Option<&Vec<Jwk>>) -> (r: Result<(KeySnapshot, u64), RefreshError>)
    ensures
        match r {
            Ok((_, age)) => refresh_spec(
                match cache_control {
                    Some(c) => Some(c@),
                    None => None,
                },
                match upstream {
                    Some(u) => Some(u@),
                    None => None,
                },
            ) == Ok::<u64, RefreshError>(age),
            Err(e) => refresh_spec(
                match cache_control {
                    Some(c) => Some(c@),
                    None => None,
                },
                match upstream {
                    Some(u) => Some(u@),
                    None => None,
                },
            ) == Err::<u64, RefreshError>(e),
        },
        r matches Ok((snap, _)) ==> snap.wf() && upstream is Some && forall|kid: Seq<char>|
            (#[trigger] snap.key(kid) is Some) <==> published(upstream.unwrap()@, kid),
{
    let cc = match cache_control {
        None => {
            return Err(RefreshError::NoCacheControl);
        },
        Some(cc) => cc,
    };
    let age = match parse_max_age(cc) {
        Err(e) => {
            return Err(e);
        },
        Ok(age) => age,
    };
    let list = match upstream {
        None => {
            return Err(RefreshError::BadBody);
        },
        Some(list) => list,
    };
    match KeySnapshot::build(list) {
        Err(e) => Err(e),
        Ok(snap) => Ok((snap, age)),
    }
}

impl GoogleKeyStore {
    pub open spec fn wf(&self) -> bool {
        self.keys.wf()
    }

    /// A cache that holds no key yet.
    pub fn start() -> (r: GoogleKeyStore)
        ensures
            r.wf(),
            forall|kid: Seq<char>| #[trigger] r.keys.key(kid) is None,
    {
        GoogleKeyStore { keys: KeySnapshot::empty() }
    }

    /// The key under `msg.kid` in the current snapshot.
    pub fn handle_resolve(&self, msg: &ResolveKey) -> (r: Option<jsonwebtoken::DecodingKey>)
        requires
            self.wf(),
        ensures
            r == self.keys.key(msg.kid@),
    {
        self.keys.get(&msg.kid)
    }

    /// Takes in the outcome of a fetch: a new snapshot replaces the old one
    /// whole, a failure keeps it. Returns the seconds until the next fetch.
    ///
    /// A lookup after the call answers, for every key id, as the snapshot from
    /// before the call did, or, for every key id, as the fetched snapshot does:
    /// never a mix of the two.
    pub fn apply_refresh(&mut self, outcome: Result<(KeySnapshot, u64), RefreshError>) -> (r: u64)
        requires
            old(self).wf(),
            outcome matches Ok((snap, _)) ==> snap.wf(),
        ensures
            final(self).wf(),
            match outcome {
                Ok((snap, age)) => final(self).keys == snap && r == age,
                Err(_) => final(self).keys == old(self).keys && r == RETRY_DELAY_SECS,
            },
            (forall|kid: Seq<char>| #[trigger] final(self).keys.key(kid) == old(self).keys.key(kid)) || (
            outcome matches Ok((snap, _)) && forall|kid: Seq<char>|
                #[trigger] final(self).keys.key(kid) == snap.key(kid)),
    {
        match outcome {
            Ok((snap, age)) => {
                self.keys = snap;
                age
            },
            Err(_) => RETRY_DELAY_SECS,
        }
    }

    /// The next step of a key lookup for a handshake: the key if the snapshot
    /// holds it, else one refresh, and after that a failure.
    pub fn get_key_for_kid(&self, kid: &String, refreshed: bool) -> (r: KeyLookup)
        requires
            self.wf(),
        ensures
            match self.keys.key(kid@) {
                Some(k) => r == KeyLookup::Found(k),
                None => if refreshed {
                    r matches KeyLookup::Missing(HandshakeError::UnknownKid(s)) && s@ == kid@
                } else {
                    r is RefreshAndRetry
                },
            },
    {
        match self.keys.get(kid) {
            Some(k) => KeyLookup::Found(k),
            None => {
                if refreshed {
                    KeyLookup::Missing(HandshakeError::UnknownKid(kid.clone()))
                } else {
                    KeyLookup::RefreshAndRetry
                }
            },
        }
    }
}

} // verus!
