//! The HTTP side of the WebSocket handshake: the request that a client sends, what the
//! coordinator makes of it, and the answer to a request that is refused.
use tokio_tungstenite::tungstenite::http::{Request, Response};
use vstd::prelude::*;
use vstd::string::StringExecFns;
use vstd::utf8::{encode_utf8, is_ascii_chars};

use crate::auth::{
    ascii_text, authenticate_headers, authenticated, carried_token, header_text, is_value_byte,
    named_role, optional_bytes, AuthConfig, AuthFailure, AuthRole, AUTHORIZATION, ROLE_HEADER,
};
use crate::text::{lower_char, lower_text, trimmed};

verus! {

/// `http::Request`.
#[verifier::external_type_specification]
#[verifier::external_body]
#[verifier::reject_recursive_types(T)]
pub struct ExRequest<T>(tokio_tungstenite::tungstenite::http::Request<T>);

/// `http::Response`.
#[verifier::external_type_specification]
#[verifier::external_body]
#[verifier::reject_recursive_types(T)]
pub struct ExResponse<T>(tokio_tungstenite::tungstenite::http::Response<T>);

/// `tungstenite::Error`.
#[verifier::external_type_specification]
#[verifier::external_body]
pub struct ExHandshakeError(tokio_tungstenite::tungstenite::Error);

/// The header values of a request by lower-case header name, in the order in which they came.
pub uninterp spec fn request_headers(
    request: tokio_tungstenite::tungstenite::http::Request<()>,
) -> Map<Seq<char>, Seq<Seq<u8>>>;

/// The text of the URI that `http::Request::uri` gives.
pub uninterp spec fn request_uri(
    request: tokio_tungstenite::tungstenite::http::Request<()>,
) -> Seq<char>;

/// The text of the URI and the value of the `Host` header of the request that
/// `IntoClientRequest::into_client_request` makes of the URL, where it makes one.
pub uninterp spec fn upgrade_target(url: Seq<char>) -> Option<(Seq<char>, Seq<u8>)>;

/// Whether a request can be made of the URL.
pub open spec fn is_request_url(url: Seq<char>) -> bool {
    upgrade_target(url) is Some
}

/// The text of the URI of the requests that are made of the URL, if any can be.
pub open spec fn parsed_uri(url: Seq<char>) -> Seq<char> {
    match upgrade_target(url) {
        Some((uri, _)) => uri,
        None => Seq::empty(),
    }
}

/// The value of the `Host` header of the requests that are made of the URL, if any can be.
pub open spec fn url_host(url: Seq<char>) -> Seq<u8> {
    match upgrade_target(url) {
        Some((_, host)) => host,
        None => Seq::empty(),
    }
}

/// The number of the status code that `http::Response::status` gives.
pub uninterp spec fn response_status(
    response: tokio_tungstenite::tungstenite::http::Response<Option<String>>,
) -> u16;

/// The text of the body that `http::Response::body` gives.
pub uninterp spec fn response_body(
    response: tokio_tungstenite::tungstenite::http::Response<Option<String>>,
) -> Option<Seq<char>>;

/// The header values of a response by lower-case header name, in the order in which they came.
pub uninterp spec fn response_headers(
    response: tokio_tungstenite::tungstenite::http::Response<Option<String>>,
) -> Map<Seq<char>, Seq<Seq<u8>>>;

/// No headers.
pub open spec fn no_headers() -> Map<Seq<char>, Seq<Seq<u8>>> {
    Map::empty()
}

/// The first value of a header, where the request has it.
pub open spec fn first_value(
    headers: Map<Seq<char>, Seq<Seq<u8>>>,
    name: Seq<char>,
) -> Option<Seq<u8>> {
    if headers.contains_key(name) {
        Some(headers[name][0])
    } else {
        None
    }
}

/// Calls `http::HeaderMap::get` on the headers of the request: the first value of the header
/// with this name, as bytes, where there is one.
#[verifier::external_body]
fn get_header<'a>(request: &'a Request<()>, name: &str) -> (r: Option<&'a [u8]>)
    requires
        name@ == ROLE_HEADER@ || name@ == AUTHORIZATION@,
    ensures
        optional_bytes(r) == first_value(request_headers(*request), name@),
{
    request.headers().get(name).map(|value| value.as_bytes())
}

/// Calls `http::HeaderMap::insert` on the headers of the request: the value takes the place of
/// all values that the header had, and the URI stays. The number of headers stays far below what
/// the map can hold.
#[verifier::external_body]
fn set_header(request: &mut Request<()>, name: &'static str, value: &[u8])
    requires
        name@ == ROLE_HEADER@ || name@ == AUTHORIZATION@,
        forall|i: int| 0 <= i < value@.len() ==> is_value_byte(#[trigger] value@[i]),
        request_headers(*old(request)).dom().finite(),
        request_headers(*old(request)).dom().len() <= 100,
    ensures
        request_headers(*final(request)) == request_headers(*old(request)).insert(
            name@,
            seq![value@],
        ),
        request_uri(*final(request)) == request_uri(*old(request)),
{
    let value = tokio_tungstenite::tungstenite::http::HeaderValue::from_bytes(value).expect("valid");
    request.headers_mut().insert(name, value);
}

/// Calls `IntoClientRequest::into_client_request` on the URL.
///
/// Whether there is a request, its URI and its host depend on the URL alone. The request has
/// exactly the five headers of a WebSocket upgrade; the key among them is random, and of it no
/// more is said than that there is one. Where the system gives no random numbers, the call panics.
#[verifier::external_body]
fn upgrade_request(url: &str) -> (r: Result<
    Request<()>,
    tokio_tungstenite::tungstenite::Error,
>)
    ensures
        match r {
            Ok(q) => upgrade_target(url@) matches Some((uri, host)) && request_uri(q) == uri
                && are_upgrade_headers(request_headers(q), host),
            Err(_) => upgrade_target(url@) is None,
        },
{
    tokio_tungstenite::tungstenite::client::IntoClientRequest::into_client_request(url)
}

/// Calls `http::response::Builder::status` and `http::response::Builder::body`: a response with
/// this status code, this body and no headers. A status code has three digits.
#[verifier::external_body]
fn build_response(status: u16, body: String) -> (r: Response<Option<String>>)
    requires
        100 <= status <= 999,
    ensures
        response_status(r) == status,
        response_body(r) == Some(body@),
        response_headers(r) == no_headers(),
{
    Response::builder().status(status).body(Some(body)).expect("a valid status code")
}

/// The names of the headers of a WebSocket upgrade.
pub open spec fn upgrade_header_names() -> Set<Seq<char>> {
    set![
        "host"@,
        "connection"@,
        "upgrade"@,
        "sec-websocket-version"@,
        "sec-websocket-key"@,
    ]
}

/// Whether headers are those of a WebSocket upgrade on a host, each with one value.
pub open spec fn are_upgrade_headers(headers: Map<Seq<char>, Seq<Seq<u8>>>, host: Seq<u8>) -> bool {
    &&& headers.dom() == upgrade_header_names()
    &&& headers["host"@] == seq![host]
    &&& headers["connection"@] == seq![encode_utf8("Upgrade"@)]
    &&& headers["upgrade"@] == seq![encode_utf8("websocket"@)]
    &&& headers["sec-websocket-version"@] == seq![encode_utf8("13"@)]
    &&& headers["sec-websocket-key"@].len() == 1
}

/// Why a client has no request to send.
#[derive(Debug)]
pub enum RequestError {
    /// The URL of the coordinator makes no request.
    Url(tokio_tungstenite::tungstenite::Error),
    /// The token contains characters that are invalid in an HTTP header.
    Token,
}

/// Whether a text may stand in a header value.
pub open spec fn is_header_value(text: Seq<char>) -> bool {
    forall|i: int| 0 <= i < encode_utf8(text).len() ==> is_value_byte(#[trigger] encode_utf8(text)[i])
}

/// Whether the bytes may stand in a header value.
fn valid_value(bytes: &[u8]) -> (r: bool)
    ensures
        r == (forall|i: int| 0 <= i < bytes@.len() ==> is_value_byte(#[trigger] bytes@[i])),
{
    for i in 0..bytes.len()
        invariant
            forall|k: int| 0 <= k < i ==> is_value_byte(#[trigger] bytes@[k]),
    {
        let b = bytes[i];
        if !((32 <= b && b != 127) || b == 9) {
            proof {
                assert(!is_value_byte(bytes@[i as int]));
            }
            return false;
        }
    }
    true
}

/// The authorization text of a token.
pub open spec fn bearer_text(token: Seq<char>) -> Seq<char> {
    "Bearer "@ + token
}

/// The characters of an optional token.
pub open spec fn shown(token: Option<&str>) -> Option<Seq<char>> {
    match token {
        Some(t) => Some(t@),
        None => None,
    }
}

/// The headers of an upgrade with a role and, where there is one, a token.
pub open spec fn with_credentials(
    headers: Map<Seq<char>, Seq<Seq<u8>>>,
    role: AuthRole,
    token: Option<Seq<char>>,
) -> Map<Seq<char>, Seq<Seq<u8>>> {
    let named = headers.insert(ROLE_HEADER@, seq![encode_utf8(role.name())]);
    match token {
        Some(t) => named.insert(AUTHORIZATION@, seq![encode_utf8(bearer_text(t))]),
        None => named,
    }
}

/// The request with which `role` connects to the coordinator: an upgrade at the coordinator's
/// URL that shows the role and, where there is one, the token.
pub fn websocket_request(coordinator: &str, role: AuthRole, token: Option<&str>) -> (r: Result<
    Request<()>,
    RequestError,
>)
    ensures
        match r {
            Ok(request) => {
                &&& is_request_url(coordinator@)
                &&& request_uri(request) == parsed_uri(coordinator@)
                &&& token matches Some(t) ==> is_header_value(bearer_text(t@))
                &&& exists|headers: Map<Seq<char>, Seq<Seq<u8>>>|
                    {
                        &&& are_upgrade_headers(headers, url_host(coordinator@))
                        &&& request_headers(request) == #[trigger] with_credentials(
                            headers,
                            role,
                            shown(token),
                        )
                    }
            },
            Err(RequestError::Url(_)) => !is_request_url(coordinator@),
            Err(RequestError::Token) => is_request_url(coordinator@) && (token matches Some(t)
                && !is_header_value(bearer_text(t@))),
        },
{
    let mut request = match upgrade_request(coordinator) {
        Ok(request) => request,
        Err(e) => {
            return Err(RequestError::Url(e));
        },
    };
    let ghost base = request_headers(request);
    proof {
        lemma_role_is_value(role);
        lemma_few_headers();
    }
    set_header(&mut request, ROLE_HEADER, role.as_str().as_bytes());
    if let Some(token) = token {
        let mut text = "Bearer ".to_owned();
        text.append(token);
        let value = text.as_str().as_bytes();
        if !valid_value(value) {
            return Err(RequestError::Token);
        }
        set_header(&mut request, AUTHORIZATION, value);
        proof {
            assert(request_headers(request) == with_credentials(base, role, shown(Some(token))));
        }
    } else {
        proof {
            assert(request_headers(request) == with_credentials(base, role, shown(None)));
        }
    }
    Ok(request)
}

/// The name of a role may stand in a header value.
proof fn lemma_role_is_value(role: AuthRole)
    ensures
        is_header_value(role.name()),
        is_ascii_chars(role.name()),
{
    reveal_strlit("worker");
    reveal_strlit("client");
    vstd::utf8::is_ascii_chars_encode_utf8(role.name());
}

/// The headers of an upgrade are few, also with one more.
proof fn lemma_few_headers()
    ensures
        upgrade_header_names().finite(),
        upgrade_header_names().len() <= 5,
        forall|name: Seq<char>|
            (#[trigger] upgrade_header_names().insert(name)).finite()
                && upgrade_header_names().insert(name).len() <= 6,
{
    let empty = Set::<Seq<char>>::empty();
    let one = empty.insert("host"@);
    let two = one.insert("connection"@);
    let three = two.insert("upgrade"@);
    let four = three.insert("sec-websocket-version"@);
    let five = four.insert("sec-websocket-key"@);
    assert(upgrade_header_names() =~= five);
}

/// What the coordinator makes of a handshake request.
pub fn authenticate_request(request: &Request<()>, auth: &AuthConfig) -> (r: Result<
    AuthRole,
    AuthFailure,
>)
    ensures
        r == authenticated(
            first_value(request_headers(*request), ROLE_HEADER@),
            first_value(request_headers(*request), AUTHORIZATION@),
            *auth,
        ),
{
    authenticate_headers(
        get_header(request, ROLE_HEADER),
        get_header(request, AUTHORIZATION),
        auth,
    )
}

/// Takes a handshake request in: the role that it is authenticated for, or none where
/// authentication is off.
pub fn accept_request(request: &Request<()>, auth: &AuthConfig) -> (r: Result<
    Option<AuthRole>,
    AuthFailure,
>)
    ensures
        r == (if auth.is_enabled() {
            match authenticated(
                first_value(request_headers(*request), ROLE_HEADER@),
                first_value(request_headers(*request), AUTHORIZATION@),
                *auth,
            ) {
                Ok(role) => Ok(Some(role)),
                Err(failure) => Err(failure),
            }
        } else {
            Ok(None)
        }),
{
    if !auth.enabled() {
        return Ok(None);
    }
    match authenticate_request(request, auth) {
        Ok(role) => Ok(Some(role)),
        Err(failure) => Err(failure),
    }
}

/// The answer to a refused handshake: 401, no headers, and no word on why.
pub fn unauthorized_response(_failure: AuthFailure) -> (r: Response<Option<String>>)
    ensures
        response_status(r) == 401,
        response_body(r) == Some("unauthorized\n"@),
        response_headers(r) == no_headers(),
{
    build_response(401, "unauthorized\n".to_owned())
}

/// Whether a character is a printable ASCII character or a tab.
pub open spec fn is_text_char(c: char) -> bool {
    (' ' <= c && c <= '~') || c == '\t'
}

/// Whether a token is readable on the coordinator's side: printable ASCII characters and tabs,
/// not all of them blank.
pub open spec fn is_readable_token(token: Seq<char>) -> bool {
    &&& forall|i: int| 0 <= i < token.len() ==> is_text_char(#[trigger] token[i])
    &&& trimmed(token).len() > 0
}

/// A client that shows a readable token under its role is read as showing that role and that
/// token.
proof fn lemma_credentials_read(
    headers: Map<Seq<char>, Seq<Seq<u8>>>,
    role: AuthRole,
    token: Seq<char>,
)
    requires
        is_readable_token(token),
    ensures
        ({
            let sent = with_credentials(headers, role, Some(token));
            &&& first_value(sent, ROLE_HEADER@) is Some
            &&& named_role(first_value(sent, ROLE_HEADER@)->0) == Some(role)
            &&& first_value(sent, AUTHORIZATION@) is Some
            &&& carried_token(first_value(sent, AUTHORIZATION@)->0) == Some(token)
        }),
{
    reveal_strlit("x-agent-role");
    reveal_strlit("authorization");
    reveal_strlit("worker");
    reveal_strlit("client");
    reveal_strlit("Bearer ");
    reveal_strlit("bearer");
    assert(ROLE_HEADER@.len() != AUTHORIZATION@.len());
    let sent = with_credentials(headers, role, Some(token));
    assert(sent[ROLE_HEADER@] == seq![encode_utf8(role.name())]);
    lemma_role_is_value(role);
    lemma_ascii_header(role.name());
    assert("worker"@[0] != "client"@[0]);
    let text = bearer_text(token);
    assert forall|i: int| 0 <= i < text.len() implies is_text_char(#[trigger] text[i]) by {
        if i < 7 {
            assert(text[i] == "Bearer "@[i]);
        } else {
            assert(text[i] == token[i - 7]);
        }
    }
    assert(is_ascii_chars(text));
    lemma_ascii_header(text);
    text.index_of_first_ensures(' ');
    assert(text[6] == ' ');
    assert(text.contains(' '));
    assert(text.index_of_first(' ') == Some(6int));
    assert(text.skip(7) =~= token);
    assert(lower_text(text.take(6)) =~= "bearer"@) by {
        assert(lower_char('B') == 'b');
    }
}

/// An ASCII text of printable characters and tabs is read back from its bytes.
proof fn lemma_ascii_header(text: Seq<char>)
    requires
        is_ascii_chars(text),
        forall|i: int| 0 <= i < text.len() ==> is_text_char(#[trigger] text[i]),
    ensures
        header_text(encode_utf8(text)) == Some(text),
{
    vstd::utf8::is_ascii_chars_encode_utf8(text);
    let bytes = encode_utf8(text);
    assert(ascii_text(bytes) =~= text);
}

/// A request that carries the token of its role is accepted with that role.
pub proof fn law_right_token_is_accepted(
    headers: Map<Seq<char>, Seq<Seq<u8>>>,
    role: AuthRole,
    token: Seq<char>,
    auth: AuthConfig,
)
    requires
        is_readable_token(token),
        auth.token(role) == Some(token),
    ensures
        ({
            let sent = with_credentials(headers, role, Some(token));
            authenticated(
                first_value(sent, ROLE_HEADER@),
                first_value(sent, AUTHORIZATION@),
                auth,
            ) == Ok::<AuthRole, AuthFailure>(role)
        }),
{
    lemma_credentials_read(headers, role, token);
}

/// A request that carries another token than that of its role is refused.
pub proof fn law_wrong_token_is_refused(
    headers: Map<Seq<char>, Seq<Seq<u8>>>,
    role: AuthRole,
    token: Seq<char>,
    auth: AuthConfig,
)
    requires
        is_readable_token(token),
        auth.token(role) != Some(token),
    ensures
        ({
            let sent = with_credentials(headers, role, Some(token));
            authenticated(
                first_value(sent, ROLE_HEADER@),
                first_value(sent, AUTHORIZATION@),
                auth,
            ) == Err::<AuthRole, AuthFailure>(
                if auth.token(role) is None {
                    AuthFailure::RoleDisabled
                } else {
                    AuthFailure::InvalidToken
                },
            )
        }),
{
    lemma_credentials_read(headers, role, token);
}

/// A request without a token is refused.
pub proof fn law_missing_token_is_refused(
    headers: Map<Seq<char>, Seq<Seq<u8>>>,
    role: AuthRole,
    auth: AuthConfig,
)
    requires
        headers.dom() == upgrade_header_names(),
    ensures
        ({
            let sent = with_credentials(headers, role, None);
            authenticated(
                first_value(sent, ROLE_HEADER@),
                first_value(sent, AUTHORIZATION@),
                auth,
            ) == Err::<AuthRole, AuthFailure>(AuthFailure::MissingAuthorization)
        }),
{
    reveal_strlit("x-agent-role");
    reveal_strlit("authorization");
    reveal_strlit("host");
    reveal_strlit("connection");
    reveal_strlit("upgrade");
    reveal_strlit("sec-websocket-version");
    reveal_strlit("sec-websocket-key");
    reveal_strlit("worker");
    reveal_strlit("client");
    let sent = with_credentials(headers, role, None);
    assert(sent[ROLE_HEADER@] == seq![encode_utf8(role.name())]);
    lemma_role_is_value(role);
    lemma_ascii_header(role.name());
    assert("worker"@[0] != "client"@[0]);
    let name = AUTHORIZATION@;
    assert(name.len() == 13);
    assert(ROLE_HEADER@.len() == 12);
    assert("host"@.len() == 4 && "connection"@.len() == 10 && "upgrade"@.len() == 7);
    assert("sec-websocket-version"@.len() == 21 && "sec-websocket-key"@.len() == 17);
    assert(!upgrade_header_names().contains(name));
}

/// Whoever is accepted has shown the token of the role it is accepted with.
pub proof fn law_accepted_has_token(
    role: Option<Seq<u8>>,
    authorization: Option<Seq<u8>>,
    auth: AuthConfig,
)
    ensures
        authenticated(role, authorization, auth) matches Ok(accepted) ==> {
            &&& role is Some && named_role(role->0) == Some(accepted)
            &&& authorization is Some && carried_token(authorization->0) is Some
            &&& auth.token(accepted) == carried_token(authorization->0)
        },
{
}

/// A request of a role shows the role by its name, and its token after the word `Bearer` and a
/// blank, each once; without a token the headers for it stay, and so do all others.
pub proof fn law_request_shows_role_and_token(
    headers: Map<Seq<char>, Seq<Seq<u8>>>,
    role: AuthRole,
    token: Option<Seq<char>>,
    other: Seq<char>,
)
    ensures
        ({
            let sent = with_credentials(headers, role, token);
            &&& sent.contains_key("x-agent-role"@)
            &&& role == AuthRole::Worker ==> sent["x-agent-role"@] == seq![encode_utf8("worker"@)]
            &&& role == AuthRole::Client ==> sent["x-agent-role"@] == seq![encode_utf8("client"@)]
            &&& token matches Some(t) ==> sent.contains_key("authorization"@)
                && sent["authorization"@] == seq![encode_utf8("Bearer "@ + t)]
            &&& token is None ==> sent.contains_key("authorization"@) == headers.contains_key(
                "authorization"@,
            ) && sent["authorization"@] == headers["authorization"@]
            &&& other != "x-agent-role"@ && other != "authorization"@ ==> sent.contains_key(other)
                == headers.contains_key(other) && sent[other] == headers[other]
        }),
{
    reveal_strlit("x-agent-role");
    reveal_strlit("authorization");
    assert("x-agent-role"@.len() != "authorization"@.len());
}

/// What is read of a header is the first of its values, where it has one.
pub proof fn law_first_value_of_a_header(headers: Map<Seq<char>, Seq<Seq<u8>>>, name: Seq<char>)
    ensures
        headers.contains_key(name) ==> first_value(headers, name) == Some(headers[name][0]),
        !headers.contains_key(name) ==> first_value(headers, name) is None,
{
}

/// The headers of an upgrade are these five, with these values but for the key.
pub proof fn law_upgrade_headers(
    headers: Map<Seq<char>, Seq<Seq<u8>>>,
    host: Seq<u8>,
    name: Seq<char>,
)
    requires
        are_upgrade_headers(headers, host),
    ensures
        headers.contains_key(name) <==> name == "host"@ || name == "connection"@ || name
            == "upgrade"@ || name == "sec-websocket-version"@ || name == "sec-websocket-key"@,
        headers["host"@] == seq![host],
        headers["connection"@] == seq![encode_utf8("Upgrade"@)],
        headers["upgrade"@] == seq![encode_utf8("websocket"@)],
        headers["sec-websocket-version"@] == seq![encode_utf8("13"@)],
        headers["sec-websocket-key"@].len() == 1,
{
    assert(headers.dom().contains(name) == upgrade_header_names().contains(name));
}

/// A header value may hold no control character but the tab.
pub proof fn law_header_value_has_no_control_characters(text: Seq<char>, i: int)
    requires
        is_header_value(text),
        0 <= i < encode_utf8(text).len(),
    ensures
        encode_utf8(text)[i] == 9 || (encode_utf8(text)[i] >= 32 && encode_utf8(text)[i] != 127),
{
}

/// A request can be made of a URL exactly if there is a target to send it to.
pub proof fn law_request_has_a_target(url: Seq<char>)
    ensures
        is_request_url(url) <==> upgrade_target(url) is Some,
        upgrade_target(url) matches Some(target) ==> parsed_uri(url) == target.0 && url_host(url)
            == target.1,
{
}

} // verus!
