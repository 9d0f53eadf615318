use bp_record::api::login;
use bp_record::config::Config;
use bp_record::db::Store;
use bp_record::error::api::ApiError;
use bp_record::error::auth::AuthError;
use bp_record::model::auth::{AuthBody, WxUser};
use bp_record::util::jwt::{authenticate, issue, verify, Claims};

const NOW: i64 = 1_705_276_800;

fn test_config() -> Config {
    Config::new(2, 2, 3600, b"test-signing-secret".to_vec())
}

fn wx(openid: &str) -> WxUser {
    WxUser {
        openid: openid.to_owned(),
        session_key: "sk-1".to_owned(),
    }
}

#[test]
fn issue_then_verify_returns_the_subject() {
    let cfg = test_config();
    let (token, exp) = issue(42, &cfg, NOW);
    assert_eq!(exp, NOW + 3600);
    assert_eq!(verify(&token, &cfg.jwt_secret, NOW), Ok(42));
    assert_eq!(verify(&token, &cfg.jwt_secret, NOW + 3599), Ok(42));
}

#[test]
fn verify_after_expiry_is_expired() {
    let cfg = test_config();
    let (token, exp) = issue(42, &cfg, NOW);
    assert_eq!(verify(&token, &cfg.jwt_secret, exp), Err(AuthError::Expired));
    assert_eq!(
        verify(&token, &cfg.jwt_secret, exp + 1000),
        Err(AuthError::Expired)
    );
}

#[test]
fn tampered_or_malformed_tokens_are_invalid() {
    let cfg = test_config();
    let (token, _) = issue(42, &cfg, NOW);

    // flip a character of the signature part
    let mut tampered = token.clone();
    let last = tampered.pop().unwrap();
    tampered.push(if last == 'A' { 'B' } else { 'A' });
    assert_eq!(
        verify(&tampered, &cfg.jwt_secret, NOW),
        Err(AuthError::InvalidToken)
    );

    // a different signing secret must not verify
    assert_eq!(
        verify(&token, b"other-secret", NOW),
        Err(AuthError::InvalidToken)
    );

    assert_eq!(
        verify("not-a-token", &cfg.jwt_secret, NOW),
        Err(AuthError::InvalidToken)
    );
}

#[test]
fn authenticate_checks_header_shape_then_token() {
    let cfg = test_config();
    let (token, _) = issue(7, &cfg, NOW);

    assert_eq!(
        authenticate(None, &cfg, NOW),
        Err(AuthError::MissingCredentials)
    );
    assert_eq!(
        authenticate(Some("Token abc"), &cfg, NOW),
        Err(AuthError::WrongCredentials)
    );
    assert_eq!(
        authenticate(Some("Bear"), &cfg, NOW),
        Err(AuthError::WrongCredentials)
    );
    let header = format!("Bearer {}", token);
    assert_eq!(authenticate(Some(&header), &cfg, NOW), Ok(7));
    assert_eq!(
        authenticate(Some(&header), &cfg, NOW + 4000),
        Err(AuthError::Expired)
    );
    assert_eq!(
        authenticate(Some("Bearer garbage"), &cfg, NOW),
        Err(AuthError::InvalidToken)
    );
}

#[test]
fn login_refuses_missing_and_empty_identities() {
    let cfg = test_config();
    let mut s = Store::empty();
    let r = login(&mut s, &cfg, None, NOW);
    assert!(matches!(
        r,
        Err(ApiError::Auth(AuthError::WrongCredentials))
    ));
    let r = login(&mut s, &cfg, Some(wx("")), NOW);
    assert!(matches!(
        r,
        Err(ApiError::Auth(AuthError::WrongCredentials))
    ));
    assert!(s.users.is_empty());
}

#[test]
fn login_upserts_the_user_and_issues_a_working_token() {
    let cfg = test_config();
    let mut s = Store::empty();

    let body = login(&mut s, &cfg, Some(wx("openid-1")), NOW).unwrap();
    assert_eq!(body.token_type, "Bearer");
    assert_eq!(body.expires_in, NOW + 3600);
    assert_eq!(s.users.len(), 1);
    let uid = s.users[0].id;
    assert_eq!(s.users[0].openid, "openid-1");
    assert_eq!(s.users[0].session_key, "sk-1");
    assert_eq!(verify(&body.access_token, &cfg.jwt_secret, NOW), Ok(uid));

    // a second login for the same identity refreshes, it does not duplicate
    let again = login(
        &mut s,
        &cfg,
        Some(WxUser {
            openid: "openid-1".to_owned(),
            session_key: "sk-2".to_owned(),
        }),
        NOW + 5,
    )
    .unwrap();
    assert_eq!(s.users.len(), 1);
    assert_eq!(s.users[0].id, uid);
    assert_eq!(s.users[0].session_key, "sk-2");
    assert_eq!(s.users[0].updated_at, NOW + 5);
    assert_eq!(
        verify(&again.access_token, &cfg.jwt_secret, NOW + 5),
        Ok(uid)
    );

    // a different identity gets its own row
    login(&mut s, &cfg, Some(wx("openid-2")), NOW + 6).unwrap();
    assert_eq!(s.users.len(), 2);
}

#[test]
fn auth_body_and_claims_shapes() {
    let body = AuthBody::new("tok".to_owned(), 99);
    assert_eq!(body.access_token, "tok");
    assert_eq!(body.token_type, "Bearer");
    assert_eq!(body.expires_in, 99);

    let c = Claims::new(5, 100);
    assert_eq!(c.sub, 5);
    assert_eq!(c.exp, 100);
}

#[test]
fn error_messages() {
    assert_eq!(AuthError::WrongCredentials.message(), "Wrong credentials");
    assert_eq!(
        AuthError::MissingCredentials.message(),
        "Missing credentials"
    );
    assert_eq!(AuthError::TokenCreation.message(), "Token creation error");
    assert_eq!(AuthError::InvalidToken.message(), "Invalid token");
    assert_eq!(AuthError::Expired.message(), "Token expired");
}
