use std::collections::HashMap;

use blacklist_core::db::{
    count_black_times, count_total_by_status, do_op, do_op_at, get_last_reason, get_user_by_id,
    Database,
};
use blacklist_core::status::Status;

#[test]
fn unknown_user_is_normal_without_reason() {
    let db = Database::new();
    let u = get_user_by_id(&db, 7);
    assert_eq!(u.uid, 7);
    assert_eq!(u.status, Status::Normal);
    assert_eq!(u.last_reason, None);
    assert!(get_last_reason(&db, 7).is_none());
    assert_eq!(count_black_times(&db, 7), 0);
}

#[test]
fn deny_then_allow_sequence() {
    let mut db = Database::new();
    do_op(&mut db, 42, &Status::Black, "admin", "spam");
    do_op(&mut db, 42, &Status::White, "admin", "appeal");
    let u = get_user_by_id(&db, 42);
    assert_eq!(u.status, Status::White);
    assert_eq!(u.last_reason, Some("appeal".to_string()));
    let r = get_last_reason(&db, 42).unwrap();
    assert_eq!(r.reason, "appeal");
    assert_eq!(r.op, Status::White);
    assert_eq!(r.op_role, "admin");
    assert_eq!(count_black_times(&db, 42), 1);
}

#[test]
fn clearing_to_normal_is_recorded() {
    let mut db = Database::new();
    do_op_at(&mut db, 5, &Status::Black, "mod", "flood", 1000);
    do_op_at(&mut db, 5, &Status::Normal, "mod", "forgiven", 2000);
    let u = get_user_by_id(&db, 5);
    assert_eq!(u.status, Status::Normal);
    assert_eq!(u.last_reason, Some("forgiven".to_string()));
    let r = get_last_reason(&db, 5).unwrap();
    assert_eq!(r.op, Status::Normal);
    assert_eq!(r.op_time, 2000);
    assert_eq!(r.uid, 5);
}

#[test]
fn latest_reason_by_insertion_not_time() {
    let mut db = Database::new();
    do_op_at(&mut db, 9, &Status::Black, "a", "first", 5000);
    do_op_at(&mut db, 9, &Status::White, "b", "second", 10);
    let r = get_last_reason(&db, 9).unwrap();
    assert_eq!(r.reason, "second");
    assert_eq!(r.op_role, "b");
    assert_eq!(r.op_time, 10);
}

#[test]
fn black_times_count_per_user() {
    let mut db = Database::new();
    do_op_at(&mut db, 1, &Status::Black, "a", "x", 1);
    do_op_at(&mut db, 2, &Status::Black, "a", "x", 2);
    do_op_at(&mut db, 1, &Status::Normal, "a", "x", 3);
    do_op_at(&mut db, 1, &Status::Black, "a", "x", 4);
    do_op_at(&mut db, 1, &Status::White, "a", "x", 5);
    assert_eq!(count_black_times(&db, 1), 2);
    assert_eq!(count_black_times(&db, 2), 1);
    assert_eq!(count_black_times(&db, 3), 0);
}

#[test]
fn do_op_stamps_current_time() {
    let mut db = Database::new();
    do_op(&mut db, 11, &Status::Black, "a", "now");
    let r = get_last_reason(&db, 11).unwrap();
    assert!(r.op_time > 1_600_000_000_000);
}

#[test]
fn status_counts_match_reference_over_log() {
    let mut db = Database::new();
    let ops: Vec<(i64, Status)> = vec![
        (1, Status::Black),
        (2, Status::Black),
        (3, Status::White),
        (1, Status::White),
        (4, Status::Black),
        (2, Status::Normal),
        (5, Status::Black),
        (4, Status::Black),
        (6, Status::White),
        (5, Status::Black),
    ];
    let mut latest: HashMap<i64, Status> = HashMap::new();
    for (t, (uid, op)) in ops.iter().enumerate() {
        do_op_at(&mut db, *uid, op, "admin", "r", t as i64);
        latest.insert(*uid, *op);
    }
    for st in [Status::Black, Status::White, Status::Normal] {
        let reference = latest.values().filter(|s| **s == st).count() as u64;
        assert_eq!(count_total_by_status(&db, &st), reference);
    }
    assert_eq!(count_total_by_status(&db, &Status::Black), 2);
    assert_eq!(count_total_by_status(&db, &Status::White), 3);
    assert_eq!(count_total_by_status(&db, &Status::Normal), 1);
}

#[test]
fn status_counts_of_empty_store() {
    let db = Database::new();
    assert_eq!(count_total_by_status(&db, &Status::Black), 0);
    assert_eq!(count_total_by_status(&db, &Status::White), 0);
}
