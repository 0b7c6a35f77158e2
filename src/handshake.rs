//! The agent handshake: the payload on the first stream, the token header,
//! and the authorization rules that decide whether an agent may connect.
use vstd::prelude::*;
use vstd::string::StringExecFns;

verus! {

/// The byte that selects TCP semantics (ASCII `t`).
pub const TCP_MODE_TAG: u8 = 0x74;

/// At most this many bytes are read from the first stream.
pub const MAX_HANDSHAKE_LEN: usize = 1000;

/// Application error code with which a failed handshake closes the connection.
pub const HANDSHAKE_FAILURE_CODE: u32 = 1;

/// What the agent asks its public side to carry.
#[derive(Clone, Copy, Debug, PartialEq, Eq, Structural)]
pub enum Mode {
    Http,
    Tcp,
}

pub open spec fn mode_of(tag: u8) -> Mode {
    if tag == TCP_MODE_TAG {
        Mode::Tcp
    } else {
        Mode::Http
    }
}

impl From<u8> for Mode {
    fn from(num: u8) -> (r: Mode) {
        if num == TCP_MODE_TAG {
            Mode::Tcp
        } else {
            Mode::Http
        }
    }
}

impl vstd::std_specs::convert::FromSpecImpl<u8> for Mode {
    open spec fn obeys_from_spec() -> bool {
        true
    }

    open spec fn from_spec(v: u8) -> Mode {
        mode_of(v)
    }
}

/// The tag `t` selects TCP; every other byte selects HTTP.
pub proof fn lemma_mode_tag(tag: u8)
    ensures
        (mode_of(tag) == Mode::Tcp) <==> tag == 0x74u8,
        (mode_of(tag) == Mode::Http) <==> tag != 0x74u8,
{
}

/// Why a handshake was refused.
#[derive(Clone, Debug, PartialEq, Eq)]
pub enum HandshakeError {
    /// The first stream carried no bytes.
    EmptyPayload,
    /// The token's header could not be decoded.
    MalformedToken,
    /// The token's header names no key.
    MissingKid,
    /// No verifying key is known under this key id, even after a refresh.
    UnknownKid(String),
    /// The token failed verification.
    InvalidToken,
    /// The token's claims satisfy neither allow-list.
    NotAuthorized,
    /// Every loopback port of the scanned range is taken.
    NoPortsAvailable,
    /// Binding a loopback port failed for another reason than the port being
    /// taken; the agent is told, as for an exhausted range, that no port was found.
    PortSetup,
    /// Reading from or writing to the agent's stream failed.
    Stream,
}

pub open spec fn reason_text(e: HandshakeError) -> Seq<char> {
    match e {
        HandshakeError::EmptyPayload => "empty handshake"@,
        HandshakeError::MalformedToken => "could not decode token header"@,
        HandshakeError::MissingKid => "No kid found in token header"@,
        HandshakeError::UnknownKid(kid) => "no decoding key for kid="@ + kid@,
        HandshakeError::InvalidToken => "token failed verification"@,
        HandshakeError::NotAuthorized => "This token is not authorized!"@,
        HandshakeError::NoPortsAvailable => "internal server error, could not find free port for you"@,
        HandshakeError::PortSetup => "internal server error, could not find free port for you"@,
        HandshakeError::Stream => "handshake stream failed"@,
    }
}

impl HandshakeError {
    /// The reason string sent with the connection close.
    pub fn reason(&self) -> (r: String)
        ensures
            r@ == reason_text(*self),
    {
        match self {
            HandshakeError::EmptyPayload => String::from_str("empty handshake"),
            HandshakeError::MalformedToken => String::from_str("could not decode token header"),
            HandshakeError::MissingKid => String::from_str("No kid found in token header"),
            HandshakeError::UnknownKid(kid) => {
                let mut r = String::from_str("no decoding key for kid=");
                r.append(kid.as_str());
                r
            },
            HandshakeError::InvalidToken => String::from_str("token failed verification"),
            HandshakeError::NotAuthorized => String::from_str("This token is not authorized!"),
            HandshakeError::NoPortsAvailable => String::from_str(
                "internal server error, could not find free port for you",
            ),
            HandshakeError::PortSetup => String::from_str(
                "internal server error, could not find free port for you",
            ),
            HandshakeError::Stream => String::from_str("handshake stream failed"),
        }
    }
}

/// The claims of an agent token that the authorization rules read.
#[derive(Clone, Debug, PartialEq, Eq)]
pub struct Claims {
    pub hd: Option<String>,
    pub email: String,
    pub email_verified: bool,
}

/// The allow-lists fixed at startup.
#[derive(Clone, Debug, PartialEq, Eq)]
pub struct AuthRules {
    pub users: Vec<String>,
    pub host_domains: Vec<String>,
}

/// `s` is one of the strings in `list`.
pub open spec fn listed(list: Seq<String>, s: Seq<char>) -> bool {
    exists|i: int| 0 <= i < list.len() && #[trigger] list[i]@ == s
}

/// A verified email on the user list, or a hosted domain on the domain list.
pub open spec fn authorized(c: Claims, a: AuthRules) -> bool {
    (c.email_verified && listed(a.users@, c.email@)) || (match c.hd {
        Some(hd) => listed(a.host_domains@, hd@),
        None => false,
    })
}

/// Whether `s` is one of the strings in `list`.
pub fn is_listed(list: &Vec<String>, s: &String) -> (r: bool)
    ensures
        r == listed(list@, s@),
{
    let mut i: usize = 0;
    while i < list.len()
        invariant
            i <= list@.len(),
            forall|j: int| 0 <= j < i ==> #[trigger] list@[j]@ != s@,
        decreases list.len() - i,
    {
        if list[i] == *s {
            return true;
        }
        i = i + 1;
    }
    false
}

/// Admits the claims if the email is verified and on the user list, or the
/// hosted domain is on the domain list.
pub fn validate_claims(claims: &Claims, auth: &AuthRules) -> (r: Result<(), HandshakeError>)
    ensures
        r is Ok <==> authorized(*claims, *auth),
        r is Err ==> r == Err::<(), HandshakeError>(HandshakeError::NotAuthorized),
{
    if claims.email_verified && is_listed(&auth.users, &claims.email) {
        return Ok(());
    }
    if let Some(host_domain) = &claims.hd {
        if is_listed(&auth.host_domains, host_domain) {
            return Ok(());
        }
    }
    Err(HandshakeError::NotAuthorized)
}

/// What the first stream of an agent asked for.
#[derive(Clone, Debug, PartialEq, Eq)]
pub struct HandshakeRequest {
    pub mode: Mode,
    pub token: String,
    pub kid: String,
}

/// The text of a byte string, with each invalid UTF-8 sequence replaced by U+FFFD.
pub uninterp spec fn utf8_lossy_of(b: Seq<u8>) -> Seq<char>;

/// The key id that `jsonwebtoken::decode_header` reads from a token: `None` where
/// the header does not decode, `Some(None)` where it names no key.
pub uninterp spec fn header_kid_of(token: Seq<char>) -> Option<Option<Seq<char>>>;

#[verifier::external_type_specification]
#[verifier::external_body]
pub struct ExJwtError(jsonwebtoken::errors::Error);

/// Relies on `String::from_utf8_lossy`: the text depends on the bytes alone.
#[verifier::external_body]
fn lossy_text(b: &[u8]) -> (r: String)
    ensures
        r@ == utf8_lossy_of(b@),
{
    String::from_utf8_lossy(b).into_owned()
}

/// Relies on `jsonwebtoken::decode_header`: decodes the header segment of a
/// token and hands back its `kid` field.
#[verifier::external_body]
fn decode_header_kid(token: &str) -> (r: Result<Option<String>, jsonwebtoken::errors::Error>)
    ensures
        r is Err ==> header_kid_of(token@) is None,
        r is Ok ==> header_kid_of(token@) == Some(
            match r {
                Ok(Some(k)) => Some(k@),
                _ => None::<Seq<char>>,
            },
        ),
{
    jsonwebtoken::decode_header(token).map(|h| h.kid)
}

pub open spec fn request_from_spec(mode: Mode, token: Seq<char>, header: Option<Option<Seq<char>>>) -> Result<(Mode, Seq<char>, Seq<char>), HandshakeError> {
    match header {
        None => Err(HandshakeError::MalformedToken),
        Some(None) => Err(HandshakeError::MissingKid),
        Some(Some(kid)) => Ok((mode, token, kid)),
    }
}

pub open spec fn request_view(r: Result<HandshakeRequest, HandshakeError>) -> Result<(Mode, Seq<char>, Seq<char>), HandshakeError> {
    match r {
        Ok(q) => Ok((q.mode, q.token@, q.kid@)),
        Err(e) => Err(e),
    }
}

/// The request of an agent, given its mode, its token and the key id that the
/// token's header gave (`None` where the header did not decode).
pub fn request_from_header(mode: Mode, token: String, header: Option<Option<String>>) -> (r: Result<HandshakeRequest, HandshakeError>)
    ensures
        request_view(r) == request_from_spec(
            mode,
            token@,
            match header {
                None => None,
                Some(None) => Some(None),
                Some(Some(k)) => Some(Some(k@)),
            },
        ),
{
    match header {
        None => Err(HandshakeError::MalformedToken),
        Some(None) => Err(HandshakeError::MissingKid),
        Some(Some(kid)) => Ok(HandshakeRequest { mode, token, kid }),
    }
}

/// What the first stream's bytes ask for: the mode tag, then the token.
pub open spec fn handshake_spec(bytes: Seq<u8>) -> Result<(Mode, Seq<char>, Seq<char>), HandshakeError> {
    if bytes.len() == 0 {
        Err(HandshakeError::EmptyPayload)
    } else {
        let token = utf8_lossy_of(bytes.drop_first());
        request_from_spec(mode_of(bytes[0]), token, header_kid_of(token))
    }
}

/// Reads the first stream of an agent: one mode byte, then a token whose header
/// must name a key.
pub fn read_handshake(bytes: &[u8]) -> (r: Result<HandshakeRequest, HandshakeError>)
    ensures
        request_view(r) == handshake_spec(bytes@),
{
    if bytes.len() == 0 {
        return Err(HandshakeError::EmptyPayload);
    }
    let mode = Mode::from(bytes[0]);
    let rest = vstd::slice::slice_subrange(bytes, 1, bytes.len());
    assert(rest@ =~= bytes@.drop_first());
    let token = lossy_text(rest);
    let header = match decode_header_kid(token.as_str()) {
        Ok(kid) => Some(kid),
        Err(_) => None,
    };
    request_from_header(mode, token, header)
}

} // verus!
