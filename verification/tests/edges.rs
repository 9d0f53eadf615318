use bp_record::api::member::add_member;
use bp_record::api::record::edit_record;
use bp_record::api::validate_login_code;
use bp_record::config::Config;
use bp_record::db::member::{Members, NewMember};
use bp_record::db::record::{NewRecord, Records};
use bp_record::db::user::{NewUser, Users};
use bp_record::db::Store;
use bp_record::error::api::ApiError;
use bp_record::error::auth::AuthError;
use bp_record::util::jwt::{authenticate, issue, verify};

const NOW: i64 = 1_705_276_800;

fn test_config() -> Config {
    Config::new(2, 2, 3600, b"test-signing-secret".to_vec())
}

#[test]
fn empty_store_shape() {
    let s = Store::empty();
    assert!(s.users.is_empty());
    assert!(s.members.is_empty());
    assert!(s.links.is_empty());
    assert!(s.records.is_empty());
    assert_eq!(s.next_id, 0);
}

#[test]
fn record_insert_without_member_is_internal() {
    let mut s = Store::empty();
    let r = Records::insert(
        &mut s,
        7,
        NewRecord {
            systolic: 120,
            diastolic: 80,
            bmp: 70,
            record_at: NOW,
        },
        NOW,
    );
    assert!(matches!(r, Err(ApiError::Internal(_))));
    assert!(s.records.is_empty());
}

#[test]
fn member_update_without_row_is_not_found() {
    let mut s = Store::empty();
    let r = Members::update(
        &mut s,
        3,
        NewMember {
            name: "x".to_owned(),
            memo: None,
        },
        NOW,
    );
    assert!(matches!(r, Err(ApiError::NotFound)));
}

#[test]
fn edit_record_requires_ownership_of_target_member() {
    let cfg = test_config();
    let mut s = Store::empty();
    let u1 = Users::insert(
        &mut s,
        NewUser {
            openid: "u1".to_owned(),
            session_key: "k".to_owned(),
        },
        NOW,
    )
    .unwrap()
    .id;
    let m1 = add_member(
        &mut s,
        &cfg,
        u1,
        NewMember {
            name: "Alice".to_owned(),
            memo: None,
        },
        NOW,
    )
    .unwrap()
    .id;
    let rec = bp_record::api::record::add_record(
        &mut s,
        u1,
        m1,
        NewRecord {
            systolic: 120,
            diastolic: 80,
            bmp: 70,
            record_at: NOW,
        },
        NOW,
    )
    .unwrap();

    let foreign = edit_record(
        &mut s,
        u1 + 99,
        m1,
        rec.id,
        NewRecord {
            systolic: 1,
            diastolic: 1,
            bmp: 1,
            record_at: NOW,
        },
        NOW,
    );
    assert!(matches!(foreign, Err(ApiError::BadRequest(_))));
    // the record is untouched
    assert_eq!(s.records[0].systolic, 120);
}

#[test]
fn zero_lifetime_tokens_expire_immediately() {
    let cfg = Config::new(2, 2, 0, b"test-signing-secret".to_vec());
    let (token, exp) = issue(9, &cfg, NOW);
    assert_eq!(exp, NOW);
    assert_eq!(verify(&token, &cfg.jwt_secret, NOW), Err(AuthError::Expired));
    // an instant before the expiry the token still verifies
    assert_eq!(verify(&token, &cfg.jwt_secret, NOW - 1), Ok(9));
}

#[test]
fn bearer_header_with_empty_token_is_invalid() {
    let cfg = test_config();
    assert_eq!(
        authenticate(Some("Bearer "), &cfg, NOW),
        Err(AuthError::InvalidToken)
    );
}

#[test]
fn login_code_validation() {
    assert_eq!(validate_login_code(""), Err(AuthError::MissingCredentials));
    assert_eq!(validate_login_code("abc"), Ok(()));
}
