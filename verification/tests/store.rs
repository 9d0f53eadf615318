use bp_record::api::member::{add_member, delete_member, detail as member_detail, edit_member, members};
use bp_record::config::Config;
use bp_record::db::member::{Members, NewMember};
use bp_record::db::user::{NewUser, Users};
use bp_record::db::Store;
use bp_record::error::api::ApiError;

fn test_config() -> Config {
    Config::new(2, 2, 3600, b"test-signing-secret".to_vec())
}

fn new_user(s: &mut Store, openid: &str, now: i64) -> u64 {
    Users::insert(
        s,
        NewUser {
            openid: openid.to_owned(),
            session_key: "sk".to_owned(),
        },
        now,
    )
    .unwrap()
    .id
}

fn named(name: &str) -> NewMember {
    NewMember {
        name: name.to_owned(),
        memo: None,
    }
}

#[test]
fn quota_scenario_two_members_then_refusal() {
    let cfg = test_config();
    let mut s = Store::empty();
    let u1 = new_user(&mut s, "u1", 10);

    let m1 = add_member(&mut s, &cfg, u1, named("Alice"), 11).unwrap();
    assert_eq!(m1.name, "Alice");
    assert_eq!(m1.memo, None);
    assert_eq!(s.links.len(), 1);

    let m2 = add_member(&mut s, &cfg, u1, named("Bob"), 12).unwrap();
    assert_eq!(m2.name, "Bob");
    assert_eq!(s.links.len(), 2);

    let refused = add_member(&mut s, &cfg, u1, named("Carol"), 13);
    assert!(matches!(refused, Err(ApiError::QuotaExceeded)));
    assert_eq!(s.links.len(), 2);
    assert_eq!(s.members.len(), 2);

    let listed = members(&s, u1).unwrap();
    assert_eq!(listed.len(), 2);
}

#[test]
fn quota_is_per_user() {
    let cfg = test_config();
    let mut s = Store::empty();
    let u1 = new_user(&mut s, "u1", 10);
    let u2 = new_user(&mut s, "u2", 10);
    add_member(&mut s, &cfg, u1, named("Alice"), 11).unwrap();
    add_member(&mut s, &cfg, u1, named("Bob"), 12).unwrap();
    // a different user still has a full quota
    let m = add_member(&mut s, &cfg, u2, named("Carol"), 13);
    assert!(m.is_ok());
}

#[test]
fn member_insert_without_user_is_internal() {
    let cfg = test_config();
    let mut s = Store::empty();
    let refused = add_member(&mut s, &cfg, 42, named("Alice"), 11);
    assert!(matches!(refused, Err(ApiError::Internal(_))));
    assert_eq!(s.members.len(), 0);
    assert_eq!(s.links.len(), 0);
}

#[test]
fn ownership_gate_collapses_all_failures() {
    let cfg = test_config();
    let mut s = Store::empty();
    let u1 = new_user(&mut s, "u1", 10);
    let u2 = new_user(&mut s, "u2", 10);
    let m1 = add_member(&mut s, &cfg, u1, named("Alice"), 11).unwrap();

    // unknown member id and someone else's member answer identically
    let unknown = Members::check_user(&s, u1, 9999);
    let foreign = Members::check_user(&s, u2, m1.id);
    match (unknown, foreign) {
        (Err(ApiError::BadRequest(a)), Err(ApiError::BadRequest(b))) => {
            assert_eq!(a, "member does not belong to this user");
            assert_eq!(a, b);
        }
        other => panic!("expected two BadRequest answers, got {:?}", other),
    }

    let ok = Members::check_user(&s, u1, m1.id).unwrap();
    assert_eq!(ok.user_id, u1);
    assert_eq!(ok.member_id, m1.id);
    assert!(!ok.is_default);
}

#[test]
fn edit_member_updates_name_memo_and_bumps_updated_at() {
    let cfg = test_config();
    let mut s = Store::empty();
    let u1 = new_user(&mut s, "u1", 10);
    let m1 = add_member(&mut s, &cfg, u1, named("Alice"), 11).unwrap();

    let edited = edit_member(
        &mut s,
        u1,
        m1.id,
        NewMember {
            name: "Alicia".to_owned(),
            memo: Some("sister".to_owned()),
        },
        20,
    )
    .unwrap();
    assert_eq!(edited.name, "Alicia");
    assert_eq!(edited.memo.as_deref(), Some("sister"));
    assert_eq!(edited.updated_at, 20);
    assert_eq!(edited.created_at, 11);

    let detail = member_detail(&s, u1, m1.id).unwrap();
    assert_eq!(detail.name, "Alicia");
    assert_eq!(detail.updated_at, 20);
}

#[test]
fn member_detail_not_found() {
    let mut s = Store::empty();
    let _ = new_user(&mut s, "u1", 10);
    let r = Members::detail(&s, 777);
    assert!(matches!(r, Err(ApiError::NotFound)));
}

#[test]
fn members_listed_most_recently_updated_first() {
    let cfg = test_config();
    let mut s = Store::empty();
    let u1 = new_user(&mut s, "u1", 10);
    let m1 = add_member(&mut s, &cfg, u1, named("Alice"), 11).unwrap();
    let m2 = add_member(&mut s, &cfg, u1, named("Bob"), 12).unwrap();

    // bump Alice so she becomes the most recently updated
    edit_member(&mut s, u1, m1.id, named("Alice"), 30).unwrap();

    let listed = members(&s, u1).unwrap();
    assert_eq!(listed.len(), 2);
    assert_eq!(listed[0].id, m1.id);
    assert_eq!(listed[1].id, m2.id);
    assert!(listed[0].updated_at >= listed[1].updated_at);
}

#[test]
fn delete_member_cascades_and_unlinks() {
    let cfg = test_config();
    let mut s = Store::empty();
    let u1 = new_user(&mut s, "u1", 10);
    let m1 = add_member(&mut s, &cfg, u1, named("Alice"), 11).unwrap();
    let m2 = add_member(&mut s, &cfg, u1, named("Bob"), 12).unwrap();
    bp_record::api::record::add_record(
        &mut s,
        u1,
        m1.id,
        bp_record::db::record::NewRecord {
            systolic: 120,
            diastolic: 80,
            bmp: 70,
            record_at: 13,
        },
        13,
    )
    .unwrap();

    delete_member(&mut s, u1, m1.id).unwrap();

    // the ownership check now denies the pair
    assert!(matches!(
        Members::check_user(&s, u1, m1.id),
        Err(ApiError::BadRequest(_))
    ));
    // no record row referencing the member remains
    assert!(s.records.iter().all(|r| r.member_id != m1.id));
    // the other member is untouched
    assert!(Members::check_user(&s, u1, m2.id).is_ok());
    assert_eq!(s.members.len(), 1);
    // the freed quota slot can be used again
    assert!(add_member(&mut s, &cfg, u1, named("Carol"), 14).is_ok());
}

#[test]
fn delete_absent_member_is_refused_by_gate() {
    let cfg = test_config();
    let mut s = Store::empty();
    let u1 = new_user(&mut s, "u1", 10);
    let _ = add_member(&mut s, &cfg, u1, named("Alice"), 11).unwrap();
    let r = delete_member(&mut s, u1, 555);
    assert!(matches!(r, Err(ApiError::BadRequest(_))));
}

#[test]
fn member_select_filters_by_name_and_memo_substring() {
    let cfg = test_config();
    let mut s = Store::empty();
    let u1 = new_user(&mut s, "u1", 10);
    add_member(
        &mut s,
        &cfg,
        u1,
        NewMember {
            name: "Alice".to_owned(),
            memo: Some("loves hiking".to_owned()),
        },
        11,
    )
    .unwrap();
    add_member(
        &mut s,
        &cfg,
        u1,
        NewMember {
            name: "Bob".to_owned(),
            memo: Some("hates hiking".to_owned()),
        },
        12,
    )
    .unwrap();

    let by_name = Members::select(
        &s,
        Some(bp_record::db::member::MemberQuery {
            name: Some("Alice".to_owned()),
            memo: None,
        }),
    )
    .unwrap();
    assert_eq!(by_name.len(), 1);
    assert_eq!(by_name[0].name, "Alice");

    let by_memo = Members::select(
        &s,
        Some(bp_record::db::member::MemberQuery {
            name: None,
            memo: Some("hiking".to_owned()),
        }),
    )
    .unwrap();
    assert_eq!(by_memo.len(), 2);

    let by_memo_exact = Members::select(
        &s,
        Some(bp_record::db::member::MemberQuery {
            name: None,
            memo: Some("loves".to_owned()),
        }),
    )
    .unwrap();
    assert_eq!(by_memo_exact.len(), 1);
    assert_eq!(by_memo_exact[0].name, "Alice");

    let all = Members::select(&s, None).unwrap();
    assert_eq!(all.len(), 2);
}
