use newsletter::authentication::{
    auth_error_reply, authentication_outcome, credentials_from_text, basic_authentication, credential_candidate, AuthError,
    StoredCredentials,
};

fn users() -> Vec<StoredCredentials> {
    vec![StoredCredentials { user_id: 42, username: "admin".to_string(), password_hash: "$hash$admin".to_string() }]
}

#[test]
fn basic_header_is_decoded() {
    let c = basic_authentication("Basic dXNlcjpwYXNz").unwrap();
    assert_eq!(c.username, "user");
    assert_eq!(c.password, "pass");
    let c = basic_authentication("Basic YWRtaW46cDpx").unwrap();
    assert_eq!(c.username, "admin");
    assert_eq!(c.password, "p:q");
}

#[test]
fn malformed_basic_headers_are_invalid_credentials() {
    for h in ["Bearer dXNlcjpwYXNz", "Basic", "Basic !!!", "Basic dXNlcnBhc3M=", "Basic /w=="] {
        assert!(matches!(basic_authentication(h), Err(AuthError::InvalidCredentials)), "{}", h);
    }
}

#[test]
fn unknown_user_is_checked_against_the_placeholder() {
    let (id, hash) = credential_candidate(&users(), "nobody", "$placeholder$");
    assert_eq!(id, None);
    assert_eq!(hash, "$placeholder$");
    let (id, hash) = credential_candidate(&users(), "admin", "$placeholder$");
    assert_eq!(id, Some(42));
    assert_eq!(hash, "$hash$admin");
}

#[test]
fn failed_credentials_get_the_basic_challenge() {
    for (candidate, matches) in [(None, true), (None, false), (Some(42), false)] {
        let e = authentication_outcome(candidate, matches).unwrap_err();
        assert_eq!(e, AuthError::InvalidCredentials);
        let reply = auth_error_reply(e);
        assert_eq!(reply.status, 401);
        assert_eq!(reply.www_authenticate.as_deref(), Some("Basic realm=\"publish\""));
    }
    assert_eq!(authentication_outcome(Some(42), true), Ok(42));
}

#[test]
fn text_is_split_at_its_first_colon() {
    let c = credentials_from_text("alice:s3cr:et").unwrap();
    assert_eq!(c.username, "alice");
    assert_eq!(c.password, "s3cr:et");
    let c = credentials_from_text(":").unwrap();
    assert_eq!(c.username, "");
    assert_eq!(c.password, "");
    assert!(matches!(credentials_from_text("no colon"), Err(AuthError::InvalidCredentials)));
    assert!(matches!(credentials_from_text(""), Err(AuthError::InvalidCredentials)));
}
