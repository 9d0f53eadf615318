use bp_record::api::member::add_member;
use bp_record::api::record::{add_record, delete_record, detail as record_detail, edit_record, records};
use bp_record::config::Config;
use bp_record::db::member::NewMember;
use bp_record::db::record::{NewRecord, Records};
use bp_record::db::user::{NewUser, Users};
use bp_record::db::Store;
use bp_record::error::api::ApiError;

// a fixed, realistic clock reading (2024-01-15 00:00:00 UTC)
const NOW: i64 = 1_705_276_800;
const DAY: i64 = 86_400;

fn test_config() -> Config {
    Config::new(2, 2, 3600, b"test-signing-secret".to_vec())
}

fn setup() -> (Store, Config, u64, u64) {
    let cfg = test_config();
    let mut s = Store::empty();
    let uid = Users::insert(
        &mut s,
        NewUser {
            openid: "u1".to_owned(),
            session_key: "sk".to_owned(),
        },
        NOW - 10 * DAY,
    )
    .unwrap()
    .id;
    let mid = add_member(
        &mut s,
        &cfg,
        uid,
        NewMember {
            name: "Alice".to_owned(),
            memo: None,
        },
        NOW - 10 * DAY,
    )
    .unwrap()
    .id;
    (s, cfg, uid, mid)
}

fn reading(record_at: i64) -> NewRecord {
    NewRecord {
        systolic: 120,
        diastolic: 80,
        bmp: 70,
        record_at,
    }
}

#[test]
fn add_record_touches_member_and_lists_exactly_it() {
    let (mut s, cfg, uid, mid) = setup();
    let before = s.members[0].updated_at;

    let rec = add_record(&mut s, uid, mid, reading(NOW - DAY), NOW).unwrap();
    assert_eq!(rec.member_id, mid);
    assert_eq!(rec.systolic, 120);
    assert_eq!(rec.diastolic, 80);
    assert_eq!(rec.bmp, 70);
    assert_eq!(rec.record_at, NOW - DAY);

    // the parent member's liveness signal moved strictly forward
    assert!(s.members[0].updated_at > before);
    assert_eq!(s.members[0].updated_at, NOW);

    let listed = records(&s, &cfg, uid, mid, NOW).unwrap();
    assert_eq!(listed.len(), 1);
    assert_eq!(listed[0].id, rec.id);
}

#[test]
fn listing_is_windowed_and_sorted() {
    let (mut s, cfg, uid, mid) = setup();
    // far outside a two month window
    add_record(&mut s, uid, mid, reading(NOW - 100 * DAY), NOW - 100 * DAY).unwrap();
    // inside the window, various measurement times
    let r_old = add_record(&mut s, uid, mid, reading(NOW - 30 * DAY), NOW - 30 * DAY).unwrap();
    let r_new = add_record(&mut s, uid, mid, reading(NOW - DAY), NOW - DAY).unwrap();
    // same measurement time as r_old but modified later: the tie-break
    let r_tie = add_record(&mut s, uid, mid, reading(NOW - 30 * DAY), NOW - 2 * DAY).unwrap();

    let listed = records(&s, &cfg, uid, mid, NOW).unwrap();
    assert_eq!(listed.len(), 3, "the 100-day-old reading must fall outside the window");
    assert_eq!(listed[0].id, r_new.id);
    assert_eq!(listed[1].id, r_tie.id);
    assert_eq!(listed[2].id, r_old.id);
    for w in listed.windows(2) {
        assert!(
            w[0].record_at > w[1].record_at
                || (w[0].record_at == w[1].record_at && w[0].updated_at >= w[1].updated_at)
        );
    }
}

#[test]
fn listing_requires_ownership() {
    let (mut s, cfg, uid, mid) = setup();
    add_record(&mut s, uid, mid, reading(NOW - DAY), NOW).unwrap();
    let foreign = records(&s, &cfg, uid + 1000, mid, NOW);
    assert!(matches!(foreign, Err(ApiError::BadRequest(_))));
}

#[test]
fn edit_record_rewrites_fields_and_touches() {
    let (mut s, cfg, uid, mid) = setup();
    let rec = add_record(&mut s, uid, mid, reading(NOW - DAY), NOW - DAY).unwrap();

    let edited = edit_record(
        &mut s,
        uid,
        mid,
        rec.id,
        NewRecord {
            systolic: 130,
            diastolic: 85,
            bmp: 75,
            record_at: NOW - 2 * DAY,
        },
        NOW,
    )
    .unwrap();
    assert_eq!(edited.id, rec.id);
    assert_eq!(edited.systolic, 130);
    assert_eq!(edited.record_at, NOW - 2 * DAY);
    assert_eq!(edited.created_at, rec.created_at);
    assert_eq!(edited.updated_at, NOW);
    assert_eq!(s.members[0].updated_at, NOW);

    let fetched = record_detail(&s, uid, mid, rec.id).unwrap();
    assert_eq!(fetched.systolic, 130);

    let missing = edit_record(&mut s, uid, mid, 9999, reading(NOW), NOW);
    assert!(matches!(missing, Err(ApiError::NotFound)));
    let _ = cfg;
}

#[test]
fn record_can_be_reparented_to_another_owned_member() {
    let (mut s, cfg, uid, mid) = setup();
    let other = add_member(
        &mut s,
        &cfg,
        uid,
        NewMember {
            name: "Bob".to_owned(),
            memo: None,
        },
        NOW - 9 * DAY,
    )
    .unwrap()
    .id;
    let rec = add_record(&mut s, uid, mid, reading(NOW - DAY), NOW - DAY).unwrap();

    let moved = edit_record(&mut s, uid, other, rec.id, reading(NOW - DAY), NOW).unwrap();
    assert_eq!(moved.member_id, other);

    let old_list = records(&s, &cfg, uid, mid, NOW).unwrap();
    assert!(old_list.is_empty());
    let new_list = records(&s, &cfg, uid, other, NOW).unwrap();
    assert_eq!(new_list.len(), 1);
}

#[test]
fn delete_record_touches_member_and_reports_absence_as_zero() {
    let (mut s, cfg, uid, mid) = setup();
    let rec = add_record(&mut s, uid, mid, reading(NOW - DAY), NOW - DAY).unwrap();
    let before = s.members[0].updated_at;

    let direct = Records::delete(&mut s, rec.id, NOW).unwrap();
    assert_eq!(direct, 1);
    assert!(s.records.is_empty());
    assert!(s.members[0].updated_at > before);
    assert_eq!(s.members[0].updated_at, NOW);

    // deleting a nonexistent id is zero rows affected, not an error
    let absent = Records::delete(&mut s, rec.id, NOW).unwrap();
    assert_eq!(absent, 0);

    // through the gated endpoint
    let r2 = add_record(&mut s, uid, mid, reading(NOW - DAY), NOW).unwrap();
    delete_record(&mut s, uid, mid, r2.id, NOW).unwrap();
    assert!(s.records.is_empty());
    let _ = cfg;
}

#[test]
fn record_detail_not_found() {
    let (s, _cfg, uid, mid) = setup();
    let r = record_detail(&s, uid, mid, 12345);
    assert!(matches!(r, Err(ApiError::NotFound)));
}

#[test]
fn window_boundary_follows_calendar_months() {
    // NOW is 2024-01-15 00:00:00 UTC; two calendar months before is
    // 2023-11-15 00:00:00 UTC, i.e. 1_700_006_400.
    let boundary: i64 = 1_700_006_400;
    let (mut s, cfg, uid, mid) = setup();
    let at_boundary = add_record(&mut s, uid, mid, reading(boundary), NOW).unwrap();
    add_record(&mut s, uid, mid, reading(boundary - 1), NOW).unwrap();

    let listed = records(&s, &cfg, uid, mid, NOW).unwrap();
    assert_eq!(listed.len(), 1);
    assert_eq!(listed[0].id, at_boundary.id);
}

#[test]
fn deleted_member_lists_empty_afterwards() {
    let (mut s, cfg, uid, mid) = setup();
    add_record(&mut s, uid, mid, reading(NOW - DAY), NOW - DAY).unwrap();
    bp_record::api::member::delete_member(&mut s, uid, mid).unwrap();
    // the member is gone, so the listing (reached directly, as the gateway
    // would already have refused) is empty
    let listed = Records::get_member_record(&s, &cfg, mid, NOW).unwrap();
    assert!(listed.is_empty());
}
