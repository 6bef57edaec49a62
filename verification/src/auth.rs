//! Bearer-token authentication of the WebSocket handshake.
use vstd::prelude::*;
use vstd::string::StringExecFns;
use vstd::utf8::encode_utf8;

use crate::text::{chars_of, lower_text, optional_text, same, string_of, to_lower, trim, trimmed};

verus! {

/// The header that names the role of the connecting side.
pub const ROLE_HEADER: &'static str = "x-agent-role";

/// The header that carries the bearer token.
pub const AUTHORIZATION: &'static str = "authorization";

/// The role of the connecting side.
#[derive(Clone, Copy, Debug, PartialEq, Eq, Structural)]
pub enum AuthRole {
    Worker,
    Client,
}

impl AuthRole {
    /// The name of the role.
    pub open spec fn name(self) -> Seq<char> {
        match self {
            AuthRole::Worker => "worker"@,
            AuthRole::Client => "client"@,
        }
    }

    /// The name of the role.
    pub fn as_str(self) -> (s: &'static str)
        ensures
            s@ == self.name(),
    {
        match self {
            AuthRole::Worker => "worker",
            AuthRole::Client => "client",
        }
    }
}

/// Why a handshake is refused.
#[derive(Clone, Copy, Debug, PartialEq, Eq, Structural)]
pub enum AuthFailure {
    MissingRole,
    InvalidRole,
    MissingAuthorization,
    InvalidAuthorization,
    RoleDisabled,
    InvalidToken,
}

/// The tokens that the two roles must show.
#[derive(Clone, Debug)]
pub struct AuthConfig {
    worker_token: Option<String>,
    client_token: Option<String>,
}

impl Default for AuthConfig {
    fn default() -> (r: Self)
        ensures
            r.token(AuthRole::Worker) is None,
            r.token(AuthRole::Client) is None,
    {
        AuthConfig { worker_token: None, client_token: None }
    }
}

/// A token file: its path, and its contents where it could be read.
#[derive(Clone, Debug)]
pub struct TokenFile {
    pub path: String,
    pub contents: Option<String>,
}

/// Why a token file gives no token.
#[derive(Debug)]
pub enum TokenError {
    Unreadable(String),
    Empty(String),
}

impl TokenFile {
    /// Whether the file gives a token: it could be read, and holds more than white space.
    pub open spec fn has_token(self) -> bool {
        self.contents matches Some(c) && trimmed(c@).len() > 0
    }

    /// The token of the file: its contents without the white space at both ends.
    pub open spec fn token(self) -> Seq<char> {
        trimmed(self.contents->0@)
    }
}

impl TokenError {
    /// Whether this error is the one that `file` gives.
    pub open spec fn is_of(self, file: TokenFile) -> bool {
        match self {
            TokenError::Unreadable(path) => file.contents is None && path@ == file.path@,
            TokenError::Empty(path) => file.contents is Some && !file.has_token() && path@
                == file.path@,
        }
    }

    /// The message of this error.
    pub open spec fn text(self) -> Seq<char> {
        match self {
            TokenError::Unreadable(path) => "failed to read token file "@ + path@,
            TokenError::Empty(path) => "token file "@ + path@ + " is empty"@,
        }
    }

    /// The message of this error.
    pub fn message(&self) -> (s: String)
        ensures
            s@ == self.text(),
    {
        match self {
            TokenError::Unreadable(path) => {
                let mut s = "failed to read token file ".to_owned();
                s.append(path.as_str());
                s
            },
            TokenError::Empty(path) => {
                let mut s = "token file ".to_owned();
                s.append(path.as_str());
                s.append(" is empty");
                s
            },
        }
    }
}

/// The token of an optional file.
pub open spec fn optional_token(file: Option<&TokenFile>) -> Option<Seq<char>> {
    match file {
        Some(f) => Some(f.token()),
        None => None,
    }
}

/// Whether an optional file is absent or gives a token.
pub open spec fn usable(file: Option<&TokenFile>) -> bool {
    file matches Some(f) ==> f.has_token()
}

/// The first of the two that is there.
pub open spec fn first_of<T>(a: Option<T>, b: Option<T>) -> Option<T> {
    if a is Some {
        a
    } else {
        b
    }
}

/// The token of a token file.
pub fn read_token_file(file: &TokenFile) -> (r: Result<String, TokenError>)
    ensures
        match r {
            Ok(token) => file.has_token() && token@ == file.token(),
            Err(e) => !file.has_token() && e.is_of(*file),
        },
{
    match &file.contents {
        Some(contents) => {
            let token = trim(contents.as_str());
            if token.as_str().is_empty() {
                Err(TokenError::Empty(file.path.clone()))
            } else {
                Ok(token)
            }
        },
        None => Err(TokenError::Unreadable(file.path.clone())),
    }
}

/// The token of a token file that may be absent.
pub fn read_optional_token(file: Option<&TokenFile>) -> (r: Result<Option<String>, TokenError>)
    ensures
        match r {
            Ok(token) => usable(file) && optional_text(token) == optional_token(file),
            Err(e) => file matches Some(f) && !f.has_token() && e.is_of(*f),
        },
{
    match file {
        Some(f) => match read_token_file(f) {
            Ok(token) => Ok(Some(token)),
            Err(e) => Err(e),
        },
        None => Ok(None),
    }
}

impl AuthConfig {
    /// The token that the role must show, where the role may connect at all.
    pub closed spec fn token(self, role: AuthRole) -> Option<Seq<char>> {
        match role {
            AuthRole::Worker => optional_text(self.worker_token),
            AuthRole::Client => optional_text(self.client_token),
        }
    }

    /// The tokens of the given files: each role has its own file's token, or else the shared one.
    /// The first file that gives no token decides the error.
    pub fn from_files(
        shared_token_file: Option<&TokenFile>,
        worker_token_file: Option<&TokenFile>,
        client_token_file: Option<&TokenFile>,
    ) -> (r: Result<Self, TokenError>)
        ensures
            r is Ok <==> usable(shared_token_file) && usable(worker_token_file) && usable(
                client_token_file,
            ),
            r matches Ok(c) ==> {
                &&& c.token(AuthRole::Worker) == first_of(
                    optional_token(worker_token_file),
                    optional_token(shared_token_file),
                )
                &&& c.token(AuthRole::Client) == first_of(
                    optional_token(client_token_file),
                    optional_token(shared_token_file),
                )
            },
            r matches Err(e) ==> if !usable(shared_token_file) {
                e.is_of(*shared_token_file->0)
            } else if !usable(worker_token_file) {
                e.is_of(*worker_token_file->0)
            } else {
                e.is_of(*client_token_file->0)
            },
    {
        let shared = match read_optional_token(shared_token_file) {
            Ok(t) => t,
            Err(e) => {
                return Err(e);
            },
        };
        let worker_token = match read_optional_token(worker_token_file) {
            Ok(Some(t)) => Some(t),
            Ok(None) => shared.clone(),
            Err(e) => {
                return Err(e);
            },
        };
        let client_token = match read_optional_token(client_token_file) {
            Ok(Some(t)) => Some(t),
            Ok(None) => shared,
            Err(e) => {
                return Err(e);
            },
        };
        Ok(AuthConfig { worker_token, client_token })
    }

    /// Whether any role has a token, so that handshakes are checked at all.
    pub open spec fn is_enabled(self) -> bool {
        self.token(AuthRole::Worker) is Some || self.token(AuthRole::Client) is Some
    }

    /// Whether any role has a token, so that handshakes are checked at all.
    pub fn enabled(&self) -> (r: bool)
        ensures
            r == self.is_enabled(),
    {
        self.worker_token.is_some() || self.client_token.is_some()
    }

    /// The token that the role must show.
    pub fn token_for_role(&self, role: AuthRole) -> (r: Option<&str>)
        ensures
            match r {
                Some(t) => self.token(role) == Some(t@),
                None => self.token(role) is None,
            },
    {
        let token = match role {
            AuthRole::Worker => &self.worker_token,
            AuthRole::Client => &self.client_token,
        };
        match token {
            Some(t) => Some(t.as_str()),
            None => None,
        }
    }
}

/// Whether a byte of a header value is readable text: a printable ASCII character or a tab.
pub open spec fn is_text_byte(b: u8) -> bool {
    (32 <= b && b < 127) || b == 9
}

/// Whether a byte may stand in a header value.
pub open spec fn is_value_byte(b: u8) -> bool {
    (32 <= b && b != 127) || b == 9
}

/// The ASCII characters of the bytes.
pub open spec fn ascii_text(bytes: Seq<u8>) -> Seq<char> {
    bytes.map_values(|b: u8| b as char)
}

/// The text of a header value, where all of its bytes are readable.
pub open spec fn header_text(bytes: Seq<u8>) -> Option<Seq<char>> {
    if forall|i: int| 0 <= i < bytes.len() ==> is_text_byte(#[trigger] bytes[i]) {
        Some(ascii_text(bytes))
    } else {
        None
    }
}

/// The role that a header value names.
pub open spec fn named_role(bytes: Seq<u8>) -> Option<AuthRole> {
    match header_text(bytes) {
        Some(t) => if t == "worker"@ {
            Some(AuthRole::Worker)
        } else if t == "client"@ {
            Some(AuthRole::Client)
        } else {
            None
        },
        None => None,
    }
}

/// The token of a bearer authorization: what follows the first space, where the word before it
/// is "bearer" in any case and the token is not blank.
pub open spec fn bearer_token(text: Seq<char>) -> Option<Seq<char>> {
    let at = text.index_of_first(' ');
    match at {
        Some(i) => if lower_text(text.take(i)) == "bearer"@ && trimmed(text.skip(i + 1)).len() > 0 {
            Some(text.skip(i + 1))
        } else {
            None
        },
        None => None,
    }
}

/// The token that an authorization header carries.
pub open spec fn carried_token(bytes: Seq<u8>) -> Option<Seq<char>> {
    match header_text(bytes) {
        Some(t) => bearer_token(t),
        None => None,
    }
}

/// What a handshake with these headers comes to.
pub open spec fn authenticated(
    role: Option<Seq<u8>>,
    authorization: Option<Seq<u8>>,
    auth: AuthConfig,
) -> Result<AuthRole, AuthFailure> {
    match role {
        None => Err(AuthFailure::MissingRole),
        Some(role) => match named_role(role) {
            None => Err(AuthFailure::InvalidRole),
            Some(role) => match authorization {
                None => Err(AuthFailure::MissingAuthorization),
                Some(value) => match carried_token(value) {
                    None => Err(AuthFailure::InvalidAuthorization),
                    Some(token) => match auth.token(role) {
                        None => Err(AuthFailure::RoleDisabled),
                        Some(expected) => if token == expected {
                            Ok(role)
                        } else {
                            Err(AuthFailure::InvalidToken)
                        },
                    },
                },
            },
        },
    }
}

/// The text of a header value, where all of its bytes are readable.
fn read_text(bytes: &[u8]) -> (r: Option<String>)
    ensures
        optional_text(r) == header_text(bytes@),
{
    let mut s = String::new();
    for i in 0..bytes.len()
        invariant
            s@ == ascii_text(bytes@.take(i as int)),
            forall|k: int| 0 <= k < i ==> is_text_byte(#[trigger] bytes@[k]),
    {
        let b = bytes[i];
        if !((32 <= b && b < 127) || b == 9) {
            proof {
                assert(!is_text_byte(bytes@[i as int]));
            }
            return None;
        }
        s.push(b as char);
        proof {
            assert(ascii_text(bytes@.take(i + 1)) =~= ascii_text(bytes@.take(i as int)).push(
                bytes@[i as int] as char,
            ));
        }
    }
    proof {
        assert(bytes@.take(bytes.len() as int) =~= bytes@);
    }
    Some(s)
}

/// The role that a header value names.
pub fn parse_role(value: &[u8]) -> (r: Result<AuthRole, AuthFailure>)
    ensures
        match r {
            Ok(role) => named_role(value@) == Some(role),
            Err(e) => named_role(value@) is None && e == AuthFailure::InvalidRole,
        },
{
    match read_text(value) {
        Some(t) => if same(t.as_str(), "worker") {
            Ok(AuthRole::Worker)
        } else if same(t.as_str(), "client") {
            Ok(AuthRole::Client)
        } else {
            Err(AuthFailure::InvalidRole)
        },
        None => Err(AuthFailure::InvalidRole),
    }
}

/// The token of an authorization header.
pub fn parse_bearer_token(value: &[u8]) -> (r: Result<String, AuthFailure>)
    ensures
        match r {
            Ok(token) => carried_token(value@) == Some(token@),
            Err(e) => carried_token(value@) is None && e == AuthFailure::InvalidAuthorization,
        },
{
    let text = match read_text(value) {
        Some(t) => t,
        None => {
            return Err(AuthFailure::InvalidAuthorization);
        },
    };
    let chars = chars_of(text.as_str());
    let mut at: usize = 0;
    while at < chars.len() && chars[at] != ' '
        invariant
            at <= chars.len(),
            forall|k: int| 0 <= k < at ==> chars@[k] != ' ',
        decreases chars.len() - at,
    {
        at += 1;
    }
    proof {
        chars@.index_of_first_ensures(' ');
    }
    if at == chars.len() {
        return Err(AuthFailure::InvalidAuthorization);
    }
    let scheme = string_of(&chars, 0, at);
    let token = string_of(&chars, at + 1, chars.len());
    proof {
        assert(chars@.contains(' ')) by {
            assert(chars@[at as int] == ' ');
        }
        assert(chars@.index_of_first(' ') == Some(at as int));
        assert(scheme@ =~= chars@.take(at as int));
        assert(token@ =~= chars@.skip(at + 1));
    }
    if !same(to_lower(scheme.as_str()).as_str(), "bearer") || trim(
        token.as_str(),
    ).as_str().is_empty() {
        return Err(AuthFailure::InvalidAuthorization);
    }
    Ok(token)
}

/// Two texts with the same UTF-8 bytes are the same.
proof fn lemma_same_bytes(a: Seq<char>, b: Seq<char>)
    ensures
        (encode_utf8(a) == encode_utf8(b)) == (a == b),
{
    vstd::utf8::encode_utf8_decode_utf8(a);
    vstd::utf8::encode_utf8_decode_utf8(b);
}

/// Whether both tokens are the same. All bytes are compared, wherever the first difference is.
pub fn token_matches(provided: &str, expected: &str) -> (r: bool)
    ensures
        r == (provided@ == expected@),
{
    let left = provided.as_bytes();
    let right = expected.as_bytes();
    let longest: usize = if left.len() > right.len() {
        left.len()
    } else {
        right.len()
    };
    let mut diff: usize = left.len() ^ right.len();
    proof {
        let (m, n) = (left.len(), right.len());
        assert((m ^ n == 0) == (m == n)) by (bit_vector);
    }
    let ghost same_len = left@.len() == right@.len();
    for index in 0..longest
        invariant
            longest >= left.len(),
            longest >= right.len(),
            same_len == (left@.len() == right@.len()),
            diff == 0 <==> same_len && (forall|k: int|
                0 <= k < index && k < left@.len() && k < right@.len() ==> left@[k] == right@[k]),
    {
        let l: u8 = if index < left.len() {
            left[index]
        } else {
            0
        };
        let r: u8 = if index < right.len() {
            right[index]
        } else {
            0
        };
        let step: usize = (l ^ r) as usize;
        proof {
            assert((l ^ r == 0) == (l == r)) by (bit_vector);
            assert((diff | step == 0) == (diff == 0 && step == 0)) by (bit_vector);
        }
        diff = diff | step;
    }
    proof {
        lemma_same_bytes(provided@, expected@);
        if diff == 0 {
            assert(left@ =~= right@);
        }
    }
    diff == 0
}

/// What a handshake with these header values comes to.
pub fn authenticate_headers(
    role: Option<&[u8]>,
    authorization: Option<&[u8]>,
    auth: &AuthConfig,
) -> (r: Result<AuthRole, AuthFailure>)
    ensures
        r == authenticated(optional_bytes(role), optional_bytes(authorization), *auth),
{
    let role = match role {
        Some(value) => match parse_role(value) {
            Ok(role) => role,
            Err(e) => {
                return Err(e);
            },
        },
        None => {
            return Err(AuthFailure::MissingRole);
        },
    };
    let token = match authorization {
        Some(value) => match parse_bearer_token(value) {
            Ok(token) => token,
            Err(e) => {
                return Err(e);
            },
        },
        None => {
            return Err(AuthFailure::MissingAuthorization);
        },
    };
    match auth.token_for_role(role) {
        Some(expected) => if token_matches(token.as_str(), expected) {
            Ok(role)
        } else {
            Err(AuthFailure::InvalidToken)
        },
        None => Err(AuthFailure::RoleDisabled),
    }
}

/// The bytes of an optional header value.
pub open spec fn optional_bytes(value: Option<&[u8]>) -> Option<Seq<u8>> {
    match value {
        Some(b) => Some(b@),
        None => None,
    }
}

/// Whether bytes spell an ASCII text.
pub open spec fn spells(bytes: Seq<u8>, text: Seq<char>) -> bool {
    &&& bytes.len() == text.len()
    &&& forall|i: int| 0 <= i < bytes.len() ==> #[trigger] bytes[i] as int == text[i] as int
}

/// Whoever is accepted has named one of the two roles, letter by letter, and has shown, after the
/// word `bearer` in whatever case and a blank, the token of that role, character by character.
pub proof fn law_accepted_has_named_role_and_token(
    role: Option<Seq<u8>>,
    authorization: Option<Seq<u8>>,
    auth: AuthConfig,
)
    ensures
        authenticated(role, authorization, auth) matches Ok(accepted) ==> {
            &&& role is Some && authorization is Some
            &&& accepted == AuthRole::Worker ==> spells(role->0, "worker"@)
            &&& accepted == AuthRole::Client ==> spells(role->0, "client"@)
            &&& exists|scheme: Seq<char>, token: Seq<char>|
                {
                    &&& spells(authorization->0, #[trigger] (scheme + seq![' '] + token))
                    &&& lower_text(scheme) == "bearer"@
                    &&& auth.token(accepted) == Some(token)
                    &&& trimmed(token).len() > 0
                }
        },
{
    if authenticated(role, authorization, auth) is Ok {
        let named = role->0;
        let text = ascii_text(named);
        assert forall|i: int| 0 <= i < named.len() implies #[trigger] named[i] as int
            == text[i] as int by {
            assert(is_text_byte(named[i]));
        }
        let value = authorization->0;
        let shown = ascii_text(value);
        shown.index_of_first_ensures(' ');
        let at = shown.index_of_first(' ')->0;
        let scheme = shown.take(at);
        let token = shown.skip(at + 1);
        assert(shown =~= scheme + seq![' '] + token);
        assert forall|i: int| 0 <= i < value.len() implies #[trigger] value[i] as int == (scheme
            + seq![' '] + token)[i] as int by {
            assert(is_text_byte(value[i]));
            assert(shown[i] == value[i] as char);
        }
        assert(spells(value, scheme + seq![' '] + token));
    }
}

/// Each failure of a handshake comes for its reason: no role, another role than the two, no
/// authorization, no bearer token in it, a role without a token, another token.
pub proof fn law_handshake_fails_for_its_reason(
    role: Option<Seq<u8>>,
    authorization: Option<Seq<u8>>,
    auth: AuthConfig,
)
    ensures
        role is None ==> authenticated(role, authorization, auth) == Err::<AuthRole, AuthFailure>(
            AuthFailure::MissingRole,
        ),
        role is Some && !spells(role->0, "worker"@) && !spells(role->0, "client"@)
            ==> authenticated(role, authorization, auth) == Err::<AuthRole, AuthFailure>(
            AuthFailure::InvalidRole,
        ),
        role is Some && (spells(role->0, "worker"@) || spells(role->0, "client"@))
            && authorization is None ==> authenticated(role, authorization, auth) == Err::<
            AuthRole,
            AuthFailure,
        >(AuthFailure::MissingAuthorization),
        role is Some && spells(role->0, "worker"@) && authorization is Some && carried_token(
            authorization->0,
        ) is Some && auth.token(AuthRole::Worker) is None ==> authenticated(
            role,
            authorization,
            auth,
        ) == Err::<AuthRole, AuthFailure>(AuthFailure::RoleDisabled),
        role is Some && spells(role->0, "client"@) && authorization is Some && carried_token(
            authorization->0,
        ) is Some && auth.token(AuthRole::Client) is None ==> authenticated(
            role,
            authorization,
            auth,
        ) == Err::<AuthRole, AuthFailure>(AuthFailure::RoleDisabled),
{
    reveal_strlit("worker");
    reveal_strlit("client");
    assert("worker"@[0] != "client"@[0]);
    if role is Some {
        let bytes = role->0;
        if spells(bytes, "worker"@) {
            lemma_spelled_text(bytes, "worker"@);
        }
        if spells(bytes, "client"@) {
            lemma_spelled_text(bytes, "client"@);
        }
        if named_role(bytes) is Some {
            let text = ascii_text(bytes);
            assert forall|i: int| 0 <= i < bytes.len() implies #[trigger] bytes[i] as int
                == text[i] as int by {
                assert(is_text_byte(bytes[i]));
            }
        }
    }
}

/// Bytes that spell a printable ASCII text are read as that text.
proof fn lemma_spelled_text(bytes: Seq<u8>, text: Seq<char>)
    requires
        spells(bytes, text),
        forall|i: int| 0 <= i < text.len() ==> ' ' <= #[trigger] text[i] && text[i] <= '~',
    ensures
        header_text(bytes) == Some(text),
{
    assert forall|i: int| 0 <= i < bytes.len() implies is_text_byte(#[trigger] bytes[i]) by {
        assert(text[i] <= '~');
    }
    assert(ascii_text(bytes) =~= text);
}

/// An authorization is read as a token exactly if it is readable text whose first blank comes
/// after the word `bearer`, in whatever case, and something else than blanks comes after it.
pub proof fn law_bearer_token_is_what_follows(scheme: Seq<char>, token: Seq<char>)
    requires
        forall|i: int| 0 <= i < scheme.len() ==> #[trigger] scheme[i] != ' ',
    ensures
        bearer_token(scheme + seq![' '] + token) == (if lower_text(scheme) == "bearer"@ && trimmed(
            token,
        ).len() > 0 {
            Some(token)
        } else {
            None
        }),
        bearer_token(scheme) is None,
{
    let text = scheme + seq![' '] + token;
    text.index_of_first_ensures(' ');
    assert(text[scheme.len() as int] == ' ');
    assert(text.contains(' '));
    let at = text.index_of_first(' ')->0;
    assert(at == scheme.len()) by {
        if at < scheme.len() {
            assert(text[at] == scheme[at]);
        }
    }
    assert(text.take(at) =~= scheme);
    assert(text.skip(at + 1) =~= token);
    scheme.index_of_first_ensures(' ');
}

/// The two roles go by their names.
pub proof fn law_roles_have_their_names(role: AuthRole)
    ensures
        role == AuthRole::Worker ==> role.name() == "worker"@,
        role == AuthRole::Client ==> role.name() == "client"@,
{
}

/// A token file that could be read and is not blank gives its contents without the white space
/// around them; any other gives none. A role's own token goes before the shared one.
pub proof fn law_token_of_a_file(file: TokenFile, shared: Option<Seq<char>>)
    ensures
        file.has_token() <==> file.contents is Some && trimmed(file.contents->0@).len() > 0,
        file.has_token() ==> optional_token(Some(&file)) == Some(trimmed(file.contents->0@)),
        usable(Some(&file)) <==> file.has_token(),
        usable(None),
        optional_token(None) is None,
        first_of(optional_token(Some(&file)), shared) == optional_token(Some(&file)),
        first_of(None, shared) == shared,
{
}

/// A failure to read a token names the file, and says whether it could not be read or is blank.
pub proof fn law_token_error_names_the_file(error: TokenError, file: TokenFile)
    requires
        error.is_of(file),
    ensures
        file.contents is None ==> error.text() == "failed to read token file "@ + file.path@,
        file.contents is Some ==> trimmed(file.contents->0@).len() == 0 && error.text()
            == "token file "@ + file.path@ + " is empty"@,
{
}

/// Whoever names a role and shows a token after the word `bearer`, in whatever case, and a blank
/// is accepted exactly if the token is the role's. A role without a token is not open, and any
/// other token is wrong.
pub proof fn law_shown_token_decides(
    named: Seq<u8>,
    value: Seq<u8>,
    role: AuthRole,
    scheme: Seq<char>,
    token: Seq<char>,
    auth: AuthConfig,
)
    requires
        role == AuthRole::Worker ==> spells(named, "worker"@),
        role == AuthRole::Client ==> spells(named, "client"@),
        spells(value, scheme + seq![' '] + token),
        forall|i: int|
            0 <= i < value.len() ==> 32 <= #[trigger] value[i] && value[i] < 127 || value[i] == 9,
        forall|i: int| 0 <= i < scheme.len() ==> #[trigger] scheme[i] != ' ',
        lower_text(scheme) == "bearer"@,
        trimmed(token).len() > 0,
    ensures
        auth.token(role) == Some(token) ==> authenticated(Some(named), Some(value), auth) == Ok::<
            AuthRole,
            AuthFailure,
        >(role),
        auth.token(role) is None ==> authenticated(Some(named), Some(value), auth) == Err::<
            AuthRole,
            AuthFailure,
        >(AuthFailure::RoleDisabled),
        auth.token(role) is Some && auth.token(role) != Some(token) ==> authenticated(
            Some(named),
            Some(value),
            auth,
        ) == Err::<AuthRole, AuthFailure>(AuthFailure::InvalidToken),
{
    reveal_strlit("worker");
    reveal_strlit("client");
    assert("worker"@[0] != "client"@[0]);
    if role == AuthRole::Worker {
        lemma_spelled_text(named, "worker"@);
    } else {
        lemma_spelled_text(named, "client"@);
    }
    assert(named_role(named) == Some(role));
    assert forall|i: int| 0 <= i < value.len() implies is_text_byte(#[trigger] value[i]) by {}
    assert(ascii_text(value) =~= scheme + seq![' '] + token);
    law_bearer_token_is_what_follows(scheme, token);
    assert(carried_token(value) == Some(token));
}

/// A role's name with an authorization that holds a byte that is no readable text, that has no
/// blank, whose first word is not `bearer`, or that has nothing but white space after it, is
/// refused for the authorization.
pub proof fn law_authorization_without_a_token_is_refused(
    named: Seq<u8>,
    value: Seq<u8>,
    scheme: Seq<char>,
    rest: Seq<char>,
    auth: AuthConfig,
)
    requires
        spells(named, "worker"@) || spells(named, "client"@),
        forall|i: int| 0 <= i < scheme.len() ==> #[trigger] scheme[i] != ' ',
        spells(value, scheme) || (spells(value, scheme + seq![' '] + rest) && (lower_text(scheme)
            != "bearer"@ || trimmed(rest).len() == 0)) || exists|i: int|
            0 <= i < value.len() && (#[trigger] value[i] < 32 && value[i] != 9 || value[i] >= 127),
    ensures
        authenticated(Some(named), Some(value), auth) == Err::<AuthRole, AuthFailure>(
            AuthFailure::InvalidAuthorization,
        ),
{
    reveal_strlit("worker");
    reveal_strlit("client");
    assert("worker"@[0] != "client"@[0]);
    if spells(named, "worker"@) {
        lemma_spelled_text(named, "worker"@);
    } else {
        lemma_spelled_text(named, "client"@);
    }
    assert(named_role(named) is Some);
    law_bearer_token_is_what_follows(scheme, rest);
    if header_text(value) is Some {
        assert forall|i: int| 0 <= i < value.len() implies 32 <= #[trigger] value[i] && value[i]
            < 127 || value[i] == 9 by {
            assert(is_text_byte(value[i]));
        }
        if spells(value, scheme) {
            assert(ascii_text(value) =~= scheme);
        } else {
            assert(ascii_text(value) =~= scheme + seq![' '] + rest);
        }
    }
    assert(carried_token(value) is None);
}

/// Handshakes are checked exactly if some role has a token; nobody is accepted by a check where
/// no role has one.
pub proof fn law_checks_are_made_where_there_is_a_token(
    auth: AuthConfig,
    role: Option<Seq<u8>>,
    authorization: Option<Seq<u8>>,
)
    ensures
        auth.token(AuthRole::Worker) is Some ==> auth.is_enabled(),
        auth.token(AuthRole::Client) is Some ==> auth.is_enabled(),
        auth.token(AuthRole::Worker) is None && auth.token(AuthRole::Client) is None
            ==> !auth.is_enabled(),
        authenticated(role, authorization, auth) is Ok ==> auth.is_enabled(),
{
}

/// Bytes are read as text exactly if each is a printable ASCII character or a tab, and then they
/// spell the text.
pub proof fn law_header_bytes_are_read_as_text(bytes: Seq<u8>)
    ensures
        header_text(bytes) is Some <==> forall|i: int|
            0 <= i < bytes.len() ==> (32 <= #[trigger] bytes[i] && bytes[i] <= 126) || bytes[i]
                == 9,
        header_text(bytes) is Some ==> spells(bytes, header_text(bytes)->0),
{
    if header_text(bytes) is Some {
        assert forall|i: int| 0 <= i < bytes.len() implies (32 <= #[trigger] bytes[i] && bytes[i]
            <= 126) || bytes[i] == 9 by {
            assert(is_text_byte(bytes[i]));
        }
    }
}

} // verus!
