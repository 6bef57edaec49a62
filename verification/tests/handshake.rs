use multinode_controller::auth::{
    authenticate_headers, parse_bearer_token, parse_role, read_optional_token, read_token_file,
    token_matches, AuthConfig, AuthFailure, AuthRole, TokenError, TokenFile,
};
use multinode_controller::handshake::{
    accept_request, authenticate_request, unauthorized_response, websocket_request, RequestError,
};

fn file(path: &str, contents: &str) -> TokenFile {
    TokenFile { path: path.to_owned(), contents: Some(contents.to_owned()) }
}

fn separate_tokens() -> AuthConfig {
    AuthConfig::from_files(
        None,
        Some(&file("worker.token", "worker-secret\n")),
        Some(&file("client.token", "client-secret\n")),
    )
    .unwrap()
}

#[test]
fn token_files_are_trimmed() {
    assert_eq!(read_token_file(&file("t", " secret \n")).unwrap(), "secret");
    assert_eq!(read_optional_token(None).unwrap(), None);
    assert_eq!(read_optional_token(Some(&file("t", "x"))).unwrap(), Some("x".to_owned()));
}

#[test]
fn token_files_that_give_no_token_are_errors() {
    let empty = read_token_file(&file("a.token", " \n")).unwrap_err();
    assert!(matches!(&empty, TokenError::Empty(path) if path == "a.token"));
    assert_eq!(empty.message(), "token file a.token is empty");
    let missing = TokenFile { path: "b.token".to_owned(), contents: None };
    let unreadable = read_token_file(&missing).unwrap_err();
    assert!(matches!(&unreadable, TokenError::Unreadable(path) if path == "b.token"));
    assert_eq!(unreadable.message(), "failed to read token file b.token");
    assert!(AuthConfig::from_files(Some(&missing), None, None).is_err());
}

#[test]
fn own_token_overrides_shared_token() {
    let config = AuthConfig::from_files(
        Some(&file("shared", "shared-secret")),
        Some(&file("worker", "worker-secret")),
        None,
    )
    .unwrap();
    assert_eq!(config.token_for_role(AuthRole::Worker), Some("worker-secret"));
    assert_eq!(config.token_for_role(AuthRole::Client), Some("shared-secret"));
    assert!(config.enabled());
    let open = AuthConfig::from_files(None, None, None).unwrap();
    assert!(!open.enabled());
    assert_eq!(open.token_for_role(AuthRole::Worker), None);
}

#[test]
fn roles_and_tokens_are_read_from_headers() {
    assert_eq!(parse_role(b"worker"), Ok(AuthRole::Worker));
    assert_eq!(parse_role(b"client"), Ok(AuthRole::Client));
    assert_eq!(parse_role(b"Worker"), Err(AuthFailure::InvalidRole));
    assert_eq!(parse_role(b"wor\xffker"), Err(AuthFailure::InvalidRole));
    assert_eq!(parse_bearer_token(b"Bearer abc").unwrap(), "abc");
    assert_eq!(parse_bearer_token(b"bEARER a b").unwrap(), "a b");
    assert_eq!(parse_bearer_token(b"Bearer  abc").unwrap(), " abc");
    for bad in [&b"Bearer"[..], b"Bearer ", b"Bearer   ", b"Basic abc", b"", b"Bearer \x80"] {
        assert_eq!(parse_bearer_token(bad), Err(AuthFailure::InvalidAuthorization));
    }
}

#[test]
fn tokens_match_only_themselves() {
    assert!(token_matches("secret", "secret"));
    assert!(token_matches("", ""));
    assert!(!token_matches("secret", "secreT"));
    assert!(!token_matches("secret", "secret2"));
    assert!(!token_matches("", "x"));
    assert!(!token_matches("a\0", "a"));
    assert!(!token_matches("ä", "a"));
}

#[test]
fn each_failure_of_a_handshake_has_its_input() {
    let auth = separate_tokens();
    let worker_only =
        AuthConfig::from_files(None, Some(&file("w", "worker-secret")), None).unwrap();
    let token = Some(&b"Bearer client-secret"[..]);
    let cases = [
        (None, token, &auth, Err(AuthFailure::MissingRole)),
        (Some(&b"admin"[..]), token, &auth, Err(AuthFailure::InvalidRole)),
        (Some(&b"client"[..]), None, &auth, Err(AuthFailure::MissingAuthorization)),
        (Some(&b"client"[..]), Some(&b"client-secret"[..]), &auth, Err(AuthFailure::InvalidAuthorization)),
        (Some(&b"client"[..]), token, &worker_only, Err(AuthFailure::RoleDisabled)),
        (Some(&b"worker"[..]), token, &auth, Err(AuthFailure::InvalidToken)),
        (Some(&b"client"[..]), token, &auth, Ok(AuthRole::Client)),
    ];
    for (role, authorization, config, expected) in cases {
        assert_eq!(authenticate_headers(role, authorization, config), expected);
    }
}

#[test]
fn requests_carry_role_and_token() {
    let request = websocket_request("ws://127.0.0.1:8765", AuthRole::Worker, Some("s3cret")).unwrap();
    assert_eq!(request.headers().get("x-agent-role").unwrap(), "worker");
    assert_eq!(request.headers().get("authorization").unwrap(), "Bearer s3cret");
    assert_eq!(request.headers().get("upgrade").unwrap(), "websocket");
    assert_eq!(request.headers().keys_len(), 7);
    let open = websocket_request("ws://127.0.0.1:8765", AuthRole::Client, None).unwrap();
    assert_eq!(open.headers().get("x-agent-role").unwrap(), "client");
    assert!(open.headers().get("authorization").is_none());
    assert_eq!(open.headers().keys_len(), 6);
}

#[test]
fn requests_that_cannot_be_sent_are_errors() {
    assert!(matches!(
        websocket_request("not a url", AuthRole::Client, None),
        Err(RequestError::Url(_))
    ));
    assert!(matches!(
        websocket_request("ws://127.0.0.1:8765", AuthRole::Client, Some("a\nb")),
        Err(RequestError::Token)
    ));
}

#[test]
fn right_tokens_are_accepted_and_all_else_is_refused() {
    let auth = separate_tokens();
    let url = "ws://127.0.0.1:8765";
    let client = websocket_request(url, AuthRole::Client, Some("client-secret")).unwrap();
    assert_eq!(authenticate_request(&client, &auth), Ok(AuthRole::Client));
    let worker = websocket_request(url, AuthRole::Worker, Some("worker-secret")).unwrap();
    assert_eq!(authenticate_request(&worker, &auth), Ok(AuthRole::Worker));
    let wrong = websocket_request(url, AuthRole::Client, Some("worker-secret")).unwrap();
    assert_eq!(authenticate_request(&wrong, &auth), Err(AuthFailure::InvalidToken));
    let missing = websocket_request(url, AuthRole::Client, None).unwrap();
    assert_eq!(authenticate_request(&missing, &auth), Err(AuthFailure::MissingAuthorization));
    let answer = unauthorized_response(AuthFailure::InvalidToken);
    assert_eq!(answer.status().as_u16(), 401);
    assert_eq!(answer.body().as_deref(), Some("unauthorized\n"));
    assert!(answer.headers().is_empty());
}

#[test]
fn request_goes_to_the_coordinator() {
    let request = websocket_request("ws://user@node-a:8765/path?x=1", AuthRole::Worker, Some("t")).unwrap();
    assert_eq!(request.uri().to_string(), "ws://user@node-a:8765/path?x=1");
    let header = |name: &str| request.headers().get(name).unwrap().to_str().unwrap();
    assert_eq!(header("host"), "node-a:8765");
    assert_eq!(header("connection"), "Upgrade");
    assert_eq!(header("upgrade"), "websocket");
    assert_eq!(header("sec-websocket-version"), "13");
    assert_eq!(header("x-agent-role"), "worker");
    assert_eq!(header("authorization"), "Bearer t");
    assert_eq!(request.headers().len(), 7);
    let other = websocket_request("ws://node-b:9", AuthRole::Client, None).unwrap();
    assert_eq!(other.uri().to_string(), "ws://node-b:9/");
    assert_eq!(other.headers().get("host").unwrap().to_str().unwrap(), "node-b:9");
    assert_eq!(other.headers().len(), 6);
}

#[test]
fn refusals_look_alike() {
    for failure in [AuthFailure::MissingRole, AuthFailure::RoleDisabled, AuthFailure::InvalidToken] {
        let answer = unauthorized_response(failure);
        assert_eq!(answer.status().as_u16(), 401);
        assert_eq!(answer.body().as_deref(), Some("unauthorized\n"));
        assert!(answer.headers().is_empty());
    }
}

#[test]
fn any_peer_is_accepted_where_authentication_is_off() {
    let open = AuthConfig::default();
    assert!(!open.enabled());
    let plain = websocket_request("ws://127.0.0.1:1", AuthRole::Client, None).unwrap();
    assert_eq!(accept_request(&plain, &open), Ok(None));
    let auth = separate_tokens();
    assert_eq!(accept_request(&plain, &auth), Err(AuthFailure::MissingAuthorization));
    let shown = websocket_request("ws://127.0.0.1:1", AuthRole::Client, Some("client-secret")).unwrap();
    assert_eq!(accept_request(&shown, &auth), Ok(Some(AuthRole::Client)));
}
