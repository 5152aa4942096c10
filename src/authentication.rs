use vstd::prelude::*;
use vstd::utf8::{decode_utf8, valid_utf8};

use base64::Engine;

use crate::http::{is_redirect_to, see_other, Reply};

verus! {

#[verifier::external_type_specification]
#[verifier::external_body]
pub struct ExDecodeError(base64::DecodeError);

#[verifier::external_type_specification]
#[verifier::external_body]
pub struct ExFromUtf8Error(std::string::FromUtf8Error);

/// The bytes that standard, padded base64 text decodes to, if it is valid.
pub uninterp spec fn base64_decoded(text: Seq<char>) -> Option<Seq<u8>>;

/// Relies on base64's `Engine::decode` with the standard alphabet and
/// padding: the outcome depends on the text alone.
#[verifier::external_body]
fn decode_base64(text: &str) -> (r: Result<Vec<u8>, base64::DecodeError>)
    ensures
        r is Ok <==> base64_decoded(text@) is Some,
        r matches Ok(v) ==> v@ == base64_decoded(text@)->0,
{
    base64::engine::general_purpose::STANDARD.decode(text)
}

/// Relies on `String::from_utf8`: it accepts exactly the valid UTF-8 byte
/// sequences and keeps the characters they encode.
#[verifier::external_body]
fn utf8_string(bytes: Vec<u8>) -> (r: Result<String, std::string::FromUtf8Error>)
    ensures
        r is Ok <==> valid_utf8(bytes@),
        r matches Ok(s) ==> s@ == decode_utf8(bytes@),
{
    String::from_utf8(bytes)
}

/// A username and password presented by a client.
pub struct Credentials {
    pub username: String,
    pub password: String,
}

/// Why a request was not let through.
#[derive(PartialEq, Eq, Structural, Clone, Copy, Debug)]
pub enum AuthError {
    /// No session identifies an administrator.
    Unauthenticated,
    /// The presented credentials are malformed or do not match; which part
    /// was wrong is not told.
    InvalidCredentials,
}

/// Position of the first `c` in `s` at or after `from`, or `s.len()`.
pub open spec fn first_index_of(s: Seq<char>, c: char, from: int) -> int
    decreases s.len() - from,
{
    if from >= s.len() || from < 0 {
        s.len() as int
    } else if s[from] == c {
        from
    } else {
        first_index_of(s, c, from + 1)
    }
}

/// The text after the `Basic ` scheme name of an `Authorization` header.
pub open spec fn basic_payload(header: Seq<char>) -> Option<Seq<char>> {
    if header.len() >= 6 && header.subrange(0, 6) == "Basic "@ {
        Some(header.subrange(6, header.len() as int))
    } else {
        None
    }
}

/// Username and password carried by a Basic `Authorization` header: the
/// decoded text split at its first colon.
pub open spec fn basic_credentials_of(header: Seq<char>) -> Option<(Seq<char>, Seq<char>)> {
    match basic_payload(header) {
        None => None,
        Some(p) => match base64_decoded(p) {
            None => None,
            Some(b) => if !valid_utf8(b) {
                None
            } else {
                credentials_in(decode_utf8(b))
            },
        },
    }
}

/// Username and password in `text`: the parts before and after its first
/// colon.
pub open spec fn credentials_in(text: Seq<char>) -> Option<(Seq<char>, Seq<char>)> {
    let i = first_index_of(text, ':', 0);
    if i >= text.len() {
        None
    } else {
        Some((text.subrange(0, i), text.subrange(i + 1, text.len() as int)))
    }
}

/// Splits decoded `username:password` text at its first colon.
pub fn credentials_from_text(t: &str) -> (r: Result<Credentials, AuthError>)
    ensures
        match credentials_in(t@) {
            None => r == Err::<Credentials, AuthError>(AuthError::InvalidCredentials),
            Some((u, p)) => r matches Ok(c) && c.username@ == u && c.password@ == p,
        },
{
    let len = t.unicode_len();
    let mut i: usize = 0;
    while i < len && t.get_char(i) != ':'
        invariant
            len == t@.len(),
            i <= len,
            first_index_of(t@, ':', 0) == first_index_of(t@, ':', i as int),
        decreases len - i,
    {
        i = i + 1;
    }
    assert(first_index_of(t@, ':', i as int) == i);
    if i >= len {
        return Err(AuthError::InvalidCredentials);
    }
    Ok(
        Credentials {
            username: String::from_str(t.substring_char(0, i)),
            password: String::from_str(t.substring_char(i + 1, len)),
        },
    )
}

/// Reads the credentials of a Basic `Authorization` header.
pub fn basic_authentication(header: &str) -> (r: Result<Credentials, AuthError>)
    ensures
        match basic_credentials_of(header@) {
            None => r == Err::<Credentials, AuthError>(AuthError::InvalidCredentials),
            Some((u, p)) => r matches Ok(c) && c.username@ == u && c.password@ == p,
        },
{
    proof {
        reveal_strlit("Basic ");
    }
    let n = header.unicode_len();
    if n < 6 {
        return Err(AuthError::InvalidCredentials);
    }
    if !crate::domain::str_eq(header.substring_char(0, 6), "Basic ") {
        return Err(AuthError::InvalidCredentials);
    }
    let payload = header.substring_char(6, n);
    let bytes = match decode_base64(payload) {
        Ok(b) => b,
        Err(_) => {
            return Err(AuthError::InvalidCredentials);
        },
    };
    let text = match utf8_string(bytes) {
        Ok(t) => t,
        Err(_) => {
            return Err(AuthError::InvalidCredentials);
        },
    };
    credentials_from_text(text.as_str())
}

/// An administrator account: its identifier, username and password hash.
pub struct StoredCredentials {
    pub user_id: u64,
    pub username: String,
    pub password_hash: String,
}

/// The account a password is checked against, and the hash to check it with.
/// An unknown username yields no account and the placeholder hash, so that a
/// hash comparison is made in either case and takes comparable time.
pub fn credential_candidate(
    users: &Vec<StoredCredentials>,
    username: &str,
    placeholder_hash: &str,
) -> (r: (Option<u64>, String))
    ensures
        r.0 is None <==> forall|i: int| 0 <= i < users@.len() ==> #[trigger] users@[i].username@
            != username@,
        r.0 is None ==> r.1@ == placeholder_hash@,
        r.0 is Some ==> exists|i: int|
            0 <= i < users@.len() && #[trigger] users@[i].username@ == username@
                && users@[i].user_id == r.0->0 && users@[i].password_hash@ == r.1@ && forall|
                j: int,
            |
                0 <= j < i ==> #[trigger] users@[j].username@ != username@,
{
    let mut i: usize = 0;
    while i < users.len()
        invariant
            i <= users@.len(),
            forall|j: int| 0 <= j < i ==> #[trigger] users@[j].username@ != username@,
        decreases users@.len() - i,
    {
        if crate::domain::str_eq(users[i].username.as_str(), username) {
            return (Some(users[i].user_id), users[i].password_hash.clone());
        }
        i = i + 1;
    }
    (None, String::from_str(placeholder_hash))
}

/// The outcome of a credential check: the account, if the username was known
/// and the password matched its hash.
pub open spec fn auth_outcome(candidate: Option<u64>, password_matches: bool) -> Result<
    u64,
    AuthError,
> {
    match candidate {
        Some(id) => if password_matches {
            Ok(id)
        } else {
            Err(AuthError::InvalidCredentials)
        },
        None => Err(AuthError::InvalidCredentials),
    }
}

/// Concludes a credential check.
pub fn authentication_outcome(candidate: Option<u64>, password_matches: bool) -> (r: Result<
    u64,
    AuthError,
>)
    ensures
        r == auth_outcome(candidate, password_matches),
{
    match candidate {
        Some(id) => if password_matches {
            Ok(id)
        } else {
            Err(AuthError::InvalidCredentials)
        },
        None => Err(AuthError::InvalidCredentials),
    }
}

/// The reply to a refused request: a redirect to the login page for a
/// browser without a session, a Basic challenge for bad credentials.
pub open spec fn is_auth_error_reply(e: AuthError, reply: Reply) -> bool {
    match e {
        AuthError::Unauthenticated => is_redirect_to(reply, "/login"@) && reply.flash is None,
        AuthError::InvalidCredentials => {
            &&& reply.status == 401
            &&& reply.www_authenticate matches Some(h) && h@ == "Basic realm=\"publish\""@
            &&& reply.location is None
            &&& reply.flash is None
        },
    }
}

/// The reply to a refused request.
pub fn auth_error_reply(e: AuthError) -> (r: Reply)
    ensures
        is_auth_error_reply(e, r),
{
    match e {
        AuthError::Unauthenticated => see_other("/login"),
        AuthError::InvalidCredentials => Reply {
            status: 401,
            location: None,
            www_authenticate: Some(String::from_str("Basic realm=\"publish\"")),
            flash: None,
        },
    }
}

/// Lets a browser request through when its session names an administrator.
pub fn session_gate(session_user: Option<u64>) -> (r: Result<u64, AuthError>)
    ensures
        match session_user {
            Some(id) => r == Ok::<u64, AuthError>(id),
            None => r == Err::<u64, AuthError>(AuthError::Unauthenticated),
        },
{
    match session_user {
        Some(id) => Ok(id),
        None => Err(AuthError::Unauthenticated),
    }
}

/// A Basic-authenticated request with an unknown username or a wrong password
/// is answered with 401 and the `Basic realm="publish"` challenge, the same
/// reply in both cases.
pub proof fn failed_credentials_get_challenge(
    candidate: Option<u64>,
    password_matches: bool,
    reply: Reply,
)
    requires
        candidate is None || !password_matches,
        auth_outcome(candidate, password_matches) matches Err(e) && is_auth_error_reply(e, reply),
    ensures
        auth_outcome(candidate, password_matches) == Err::<u64, AuthError>(
            AuthError::InvalidCredentials,
        ),
        reply.status == 401,
        reply.www_authenticate matches Some(h) && h@ == "Basic realm=\"publish\""@,
{
}

} // verus!
