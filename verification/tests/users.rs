use bp_record::api::member::add_member;
use bp_record::api::{routes as login_routes};
use bp_record::api::member::routes as member_routes;
use bp_record::api::record::routes as record_routes;
use bp_record::api::user::{detail as user_detail, routes as user_routes};
use bp_record::config::Config;
use bp_record::db::member::NewMember;
use bp_record::db::user::{NewUser, UserQuery, Users};
use bp_record::db::Store;
use bp_record::error::api::ApiError;

fn test_config() -> Config {
    Config::new(2, 2, 3600, b"test-signing-secret".to_vec())
}

fn nu(openid: &str, sk: &str) -> NewUser {
    NewUser {
        openid: openid.to_owned(),
        session_key: sk.to_owned(),
    }
}

#[test]
fn user_insert_update_detail() {
    let mut s = Store::empty();
    let u = Users::insert(&mut s, nu("o1", "k1"), 5).unwrap();
    assert_eq!(u.openid, "o1");
    assert_eq!(u.session_key, "k1");
    assert_eq!(u.created_at, 5);
    assert_eq!(u.updated_at, 5);

    let updated = Users::update(&mut s, u.id, nu("o1", "k2"), 9).unwrap();
    assert_eq!(updated.id, u.id);
    assert_eq!(updated.session_key, "k2");
    assert_eq!(updated.created_at, 5);
    assert_eq!(updated.updated_at, 9);

    let fetched = user_detail(&s, u.id).unwrap();
    assert_eq!(fetched.session_key, "k2");

    assert!(matches!(user_detail(&s, 999), Err(ApiError::NotFound)));
    assert!(matches!(
        Users::update(&mut s, 999, nu("x", "y"), 10),
        Err(ApiError::NotFound)
    ));
}

#[test]
fn user_select_filters() {
    let mut s = Store::empty();
    Users::insert(&mut s, nu("o1", "k1"), 5).unwrap();
    Users::insert(&mut s, nu("o2", "k1"), 6).unwrap();

    let by_openid = Users::select(
        &s,
        Some(UserQuery {
            openid: Some("o1".to_owned()),
            session_key: None,
        }),
    )
    .unwrap();
    assert_eq!(by_openid.len(), 1);
    assert_eq!(by_openid[0].openid, "o1");

    let by_key = Users::select(
        &s,
        Some(UserQuery {
            openid: None,
            session_key: Some("k1".to_owned()),
        }),
    )
    .unwrap();
    assert_eq!(by_key.len(), 2);

    let none = Users::select(
        &s,
        Some(UserQuery {
            openid: Some("missing".to_owned()),
            session_key: None,
        }),
    )
    .unwrap();
    assert!(none.is_empty());

    let all = Users::select(&s, None).unwrap();
    assert_eq!(all.len(), 2);
}

#[test]
fn user_delete_refuses_while_links_remain() {
    let cfg = test_config();
    let mut s = Store::empty();
    let u = Users::insert(&mut s, nu("o1", "k1"), 5).unwrap();
    add_member(
        &mut s,
        &cfg,
        u.id,
        NewMember {
            name: "Alice".to_owned(),
            memo: None,
        },
        6,
    )
    .unwrap();

    let refused = Users::delete(&mut s, u.id);
    assert!(matches!(refused, Err(ApiError::Internal(_))));
    assert_eq!(s.users.len(), 1);

    let mid = s.members[0].id;
    bp_record::api::member::delete_member(&mut s, u.id, mid).unwrap();
    assert_eq!(Users::delete(&mut s, u.id).unwrap(), 1);
    assert!(s.users.is_empty());
    assert_eq!(Users::delete(&mut s, u.id).unwrap(), 0);
}

#[test]
fn route_tables() {
    assert_eq!(login_routes(), vec!["POST /login".to_owned()]);
    assert_eq!(user_routes(), vec!["GET /".to_owned()]);
    assert_eq!(
        member_routes(),
        vec![
            "GET /all".to_owned(),
            "POST /".to_owned(),
            "PUT /<member_id>".to_owned(),
            "DELETE /<member_id>".to_owned(),
            "GET /<member_id>".to_owned(),
        ]
    );
    assert_eq!(
        record_routes(),
        vec![
            "GET /<member_id>".to_owned(),
            "POST /<member_id>".to_owned(),
            "PUT /<member_id>/<record_id>".to_owned(),
            "DELETE /<member_id>/<record_id>".to_owned(),
            "GET /<member_id>/<record_id>".to_owned(),
        ]
    );
}
