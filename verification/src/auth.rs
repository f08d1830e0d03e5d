//! Authentication in front of the WebDAV handler: HTTP Basic credentials
//! are taken from the request, checked against the configured users, and
//! the request is delegated or rejected.

use vstd::prelude::*;
use vstd::slice::slice_subrange;
use vstd::utf8::{valid_utf8, decode_utf8};
use base64::Engine;
use crate::text::{chars_of, same_chars, string_of, str_eq, find_char, first_index, string_from_utf8};
use crate::users::{UserTable, UserSpec, grants, has_permission};

verus! {

/// The WebDAV part of the configuration.
pub struct WebDavConfig {
    pub enabled: bool,
    pub users: UserTable,
}

/// Why a request is turned away.
#[derive(Clone, Copy, Debug, PartialEq, Eq, Structural)]
pub enum Rejection {
    /// The WebDAV service is switched off.
    Disabled,
    /// The request carries no `Authorization` header.
    MissingCredentials,
    /// The header is not of the Basic scheme, or its payload is not Base64,
    /// not UTF-8, or holds no colon.
    Malformed,
    /// No user of that name is configured.
    UnknownUser,
    /// The password differs from the configured one.
    WrongPassword,
    /// The method changes the tree and the user lacks `w`.
    WriteDenied,
    /// The user lacks `r`.
    ReadDenied,
}

/// What is decided for one request.
#[derive(Clone, Copy, Debug, PartialEq, Eq, Structural)]
pub enum AuthDecision {
    /// The request is answered at once, without the handler.
    Reject(Rejection),
    /// The request goes on to the WebDAV handler; the request body is
    /// streamed along for `PUT` only.
    Delegate { forward_body: bool },
}

/// The challenge sent with a `401` that asks for credentials.
pub const CHALLENGE: &'static str = "Basic realm=\"WebDAV Server\"";

impl Rejection {
    /// The HTTP status of this rejection.
    pub open spec fn status_spec(self) -> u16 {
        match self {
            Rejection::Disabled => 404,
            Rejection::MissingCredentials => 401,
            Rejection::Malformed => 401,
            Rejection::UnknownUser => 401,
            Rejection::WrongPassword => 401,
            Rejection::WriteDenied => 403,
            Rejection::ReadDenied => 403,
        }
    }

    /// Whether the response carries the `WWW-Authenticate` challenge.
    pub open spec fn challenges_spec(self) -> bool {
        self == Rejection::MissingCredentials || self == Rejection::UnknownUser || self
            == Rejection::WrongPassword
    }

    /// The HTTP status of this rejection.
    pub fn status(self) -> (code: u16)
        ensures
            code == self.status_spec(),
    {
        match self {
            Rejection::Disabled => 404,
            Rejection::MissingCredentials | Rejection::Malformed | Rejection::UnknownUser
            | Rejection::WrongPassword => 401,
            Rejection::WriteDenied | Rejection::ReadDenied => 403,
        }
    }

    /// Whether the response carries the `WWW-Authenticate` challenge.
    pub fn challenges(self) -> (yes: bool)
        ensures
            yes == self.challenges_spec(),
    {
        match self {
            Rejection::MissingCredentials | Rejection::UnknownUser | Rejection::WrongPassword => true,
            _ => false,
        }
    }

    /// The body of the response. A malformed header gets the same word
    /// whatever was wrong with it.
    pub fn body(self) -> (text: &'static str)
        ensures
            text@ == match self {
                Rejection::Disabled => "WebDAV service is disabled"@,
                Rejection::MissingCredentials => ""@,
                Rejection::Malformed => "Unauthorized"@,
                Rejection::UnknownUser => "Invalid username"@,
                Rejection::WrongPassword => "Invalid password"@,
                Rejection::WriteDenied => "Write permission required"@,
                Rejection::ReadDenied => "Read permission required"@,
            },
    {
        match self {
            Rejection::Disabled => "WebDAV service is disabled",
            Rejection::MissingCredentials => "",
            Rejection::Malformed => "Unauthorized",
            Rejection::UnknownUser => "Invalid username",
            Rejection::WrongPassword => "Invalid password",
            Rejection::WriteDenied => "Write permission required",
            Rejection::ReadDenied => "Read permission required",
        }
    }
}

/// The methods that change the tree.
pub open spec fn is_write_method(method: Seq<char>) -> bool {
    method == "PUT"@ || method == "DELETE"@ || method == "MKCOL"@ || method == "COPY"@ || method
        == "MOVE"@
}

/// Whether `method` changes the tree and so needs the `w` capability.
pub fn requires_write(method: &str) -> (write: bool)
    ensures
        write == is_write_method(method@),
{
    str_eq(method, "PUT") || str_eq(method, "DELETE") || str_eq(method, "MKCOL") || str_eq(
        method,
        "COPY",
    ) || str_eq(method, "MOVE")
}

/// The decision for an authenticated user with the permission string
/// `perms`: a write method needs `w`, and every method needs `r`.
pub open spec fn permission_decision(perms: Seq<char>, method: Seq<char>) -> AuthDecision {
    if is_write_method(method) && !grants(perms, 'w') {
        AuthDecision::Reject(Rejection::WriteDenied)
    } else if !grants(perms, 'r') {
        AuthDecision::Reject(Rejection::ReadDenied)
    } else {
        AuthDecision::Delegate { forward_body: method == "PUT"@ }
    }
}

/// The decision for a decoded credential text: it is cut at its first
/// colon into name and password, the user is looked up, the password is
/// compared as it stands, and the permissions are checked.
pub open spec fn credential_decision(
    users: Map<Seq<char>, UserSpec>,
    method: Seq<char>,
    text: Seq<char>,
) -> AuthDecision {
    match first_index(text, ':') {
        None => AuthDecision::Reject(Rejection::Malformed),
        Some(i) => {
            let name = text.take(i);
            let password = text.skip(i + 1);
            if !users.contains_key(name) {
                AuthDecision::Reject(Rejection::UnknownUser)
            } else if users[name].password != password {
                AuthDecision::Reject(Rejection::WrongPassword)
            } else {
                permission_decision(users[name].permissions, method)
            }
        },
    }
}

/// The decision for the bytes that the Base64 payload decoded to.
pub open spec fn payload_decision(
    users: Map<Seq<char>, UserSpec>,
    method: Seq<char>,
    payload: Seq<u8>,
) -> AuthDecision {
    if valid_utf8(payload) {
        credential_decision(users, method, decode_utf8(payload))
    } else {
        AuthDecision::Reject(Rejection::Malformed)
    }
}

/// The bytes of `Basic ` with its blank, which open a header of the Basic
/// scheme.
pub open spec fn basic_prefix() -> Seq<u8> {
    seq![66u8, 97u8, 115u8, 105u8, 99u8, 32u8]
}

/// Whether a header value is of the Basic scheme.
pub open spec fn has_basic_scheme(header: Seq<u8>) -> bool {
    header.len() >= 6 && header.take(6) == basic_prefix()
}

/// What the standard Base64 alphabet with canonical padding decodes `input`
/// to, or `None` where `input` is no such encoding.
pub uninterp spec fn base64_decoded(input: Seq<u8>) -> Option<Seq<u8>>;

/// The decision for a request, from the configuration, the
/// method and the value of the `Authorization` header if there is one.
pub open spec fn auth_decision(
    enabled: bool,
    users: Map<Seq<char>, UserSpec>,
    method: Seq<char>,
    header: Option<Seq<u8>>,
) -> AuthDecision {
    if !enabled {
        AuthDecision::Reject(Rejection::Disabled)
    } else {
        match header {
            None => AuthDecision::Reject(Rejection::MissingCredentials),
            Some(value) => {
                if !has_basic_scheme(value) {
                    AuthDecision::Reject(Rejection::Malformed)
                } else {
                    match base64_decoded(value.skip(6)) {
                        None => AuthDecision::Reject(Rejection::Malformed),
                        Some(payload) => payload_decision(users, method, payload),
                    }
                }
            },
        }
    }
}

/// `Engine::decode` of the `base64` crate on its `STANDARD` engine: the
/// outcome depends on the input bytes alone. It is known here only by the
/// name `base64_decoded`; a decoding error becomes `None`.
#[verifier::external_body]
fn decode_base64(input: &[u8]) -> (out: Option<Vec<u8>>)
    ensures
        match out {
            Some(bytes) => base64_decoded(input@) == Some(bytes@),
            None => base64_decoded(input@) is None,
        },
{
    base64::engine::general_purpose::STANDARD.decode(input).ok()
}

/// Checks the capabilities of an authenticated user for `method`.
pub fn check_permissions(perms: &str, method: &str) -> (decision: AuthDecision)
    ensures
        decision == permission_decision(perms@, method@),
{
    if requires_write(method) && !has_permission(perms, 'w') {
        AuthDecision::Reject(Rejection::WriteDenied)
    } else if !has_permission(perms, 'r') {
        AuthDecision::Reject(Rejection::ReadDenied)
    } else {
        AuthDecision::Delegate { forward_body: str_eq(method, "PUT") }
    }
}

/// Checks a decoded credential text of the form `name:password` against
/// the users.
pub fn check_credentials(users: &UserTable, method: &str, text: &str) -> (decision: AuthDecision)
    ensures
        decision == credential_decision(users@, method@, text@),
{
    let chars = chars_of(text);
    match find_char(chars.as_slice(), ':') {
        None => AuthDecision::Reject(Rejection::Malformed),
        Some(i) => {
            let name = string_of(slice_subrange(chars.as_slice(), 0, i));
            let password = slice_subrange(chars.as_slice(), i + 1, chars.len());
            assert(name@ == text@.take(i as int));
            assert(password@ == text@.skip(i + 1));
            match users.get(name.as_str()) {
                None => AuthDecision::Reject(Rejection::UnknownUser),
                Some(user) => {
                    let stored = chars_of(user.password.as_str());
                    if !same_chars(stored.as_slice(), password) {
                        AuthDecision::Reject(Rejection::WrongPassword)
                    } else {
                        check_permissions(user.permissions.as_str(), method)
                    }
                },
            }
        },
    }
}

/// Checks the bytes that a Base64 payload decoded to: they must be UTF-8,
/// and the text is then checked as credentials.
pub fn check_payload(users: &UserTable, method: &str, payload: Vec<u8>) -> (decision: AuthDecision)
    ensures
        decision == payload_decision(users@, method@, payload@),
{
    match string_from_utf8(payload) {
        None => AuthDecision::Reject(Rejection::Malformed),
        Some(text) => check_credentials(users, method, text.as_str()),
    }
}

/// Whether a header value opens with `Basic ` and its blank.
pub fn is_basic_scheme(header: &[u8]) -> (basic: bool)
    ensures
        basic == has_basic_scheme(header@),
{
    if header.len() < 6 {
        return false;
    }
    let basic = header[0] == 66 && header[1] == 97 && header[2] == 115 && header[3] == 105
        && header[4] == 99 && header[5] == 32;
    proof {
        let head = header@.take(6);
        if basic {
            assert(head =~= basic_prefix());
        } else {
            assert(head[0] == header@[0] && head[1] == header@[1] && head[2] == header@[2]
                && head[3] == header@[3] && head[4] == header@[4] && head[5] == header@[5]);
        }
    }
    basic
}

/// Decides what happens to a request for the WebDAV tree. Nothing here
/// touches the file system.
pub fn authorize(config: &WebDavConfig, method: &str, authorization: Option<&[u8]>) -> (decision:
    AuthDecision)
    ensures
        decision == auth_decision(
            config.enabled,
            config.users@,
            method@,
            match authorization {
                Some(value) => Some(value@),
                None => None,
            },
        ),
{
    if !config.enabled {
        return AuthDecision::Reject(Rejection::Disabled);
    }
    match authorization {
        None => AuthDecision::Reject(Rejection::MissingCredentials),
        Some(value) => {
            if !is_basic_scheme(value) {
                return AuthDecision::Reject(Rejection::Malformed);
            }
            let encoded = slice_subrange(value, 6, value.len());
            assert(encoded@ == value@.skip(6));
            match decode_base64(encoded) {
                None => AuthDecision::Reject(Rejection::Malformed),
                Some(payload) => check_payload(&config.users, method, payload),
            }
        },
    }
}

/// A request with the permission string `perms` passes the permission
/// check exactly when `r` is granted and, for a write method, `w` as well.
pub proof fn lemma_permission_check(perms: Seq<char>, method: Seq<char>)
    ensures
        permission_decision(perms, method) is Delegate <==> grants(perms, 'r') && (is_write_method(
            method,
        ) ==> grants(perms, 'w')),
        is_write_method(method) ==> (permission_decision(perms, method) is Delegate ==> grants(
            perms,
            'w',
        )),
        !grants(perms, 'r') ==> permission_decision(perms, method) is Reject,
{
}

/// A request is let through only when the service is on, a header
/// of the Basic scheme is present, its payload decodes to the name of a
/// configured user and that user's password, and the permissions suffice.
pub proof fn lemma_delegation_needs_credentials(
    enabled: bool,
    users: Map<Seq<char>, UserSpec>,
    method: Seq<char>,
    header: Option<Seq<u8>>,
)
    requires
        auth_decision(enabled, users, method, header) is Delegate,
    ensures
        enabled,
        match header {
            None => false,
            Some(value) => has_basic_scheme(value) && match base64_decoded(value.skip(6)) {
                None => false,
                Some(payload) => valid_utf8(payload) && match first_index(
                    decode_utf8(payload),
                    ':',
                ) {
                    None => false,
                    Some(i) => {
                        let text = decode_utf8(payload);
                        let name = text.take(i);
                        &&& users.contains_key(name)
                        &&& users[name].password == text.skip(i + 1)
                        &&& grants(users[name].permissions, 'r')
                        &&& is_write_method(method) ==> grants(users[name].permissions, 'w')
                    },
                },
            },
        },
{
}

} // verus!
