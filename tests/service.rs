use blacklist_core::db::{
    check_admin_key, count_black_times, gen_key, get_user_by_id, prepare, Database,
};
use blacklist_core::service::{
    key_gen, key_revoke_by_key, key_revoke_by_role, last_reason, make_op, statistics,
    ServiceError,
};
use blacklist_core::status::Status;

fn setup() -> (Database, String, String) {
    let mut db = Database::new();
    let root = prepare(&mut db).unwrap();
    let low = gen_key(&mut db, 1, "helper").unwrap();
    (db, root, low)
}

#[test]
fn make_op_records_role_of_key() {
    let (mut db, _root, low) = setup();
    assert_eq!(make_op(&mut db, 42, &low, Status::Black, "spam"), Ok(()));
    let r = last_reason(&db, &low, 42).unwrap().unwrap();
    assert_eq!(r.op_role, "helper");
    assert_eq!(r.reason, "spam");
    assert_eq!(get_user_by_id(&db, 42).status, Status::Black);
}

#[test]
fn make_op_with_unknown_key_is_invalid() {
    let (mut db, _root, _low) = setup();
    assert_eq!(make_op(&mut db, 42, "bogus", Status::Black, "spam"), Err(ServiceError::InvalidParam));
    assert_eq!(get_user_by_id(&db, 42).status, Status::Normal);
    assert_eq!(count_black_times(&db, 42), 0);
}

#[test]
fn key_gen_needs_root_level() {
    let (mut db, root, low) = setup();
    assert_eq!(key_gen(&mut db, &low, "x", 5), Err(ServiceError::InvalidParam));
    assert_eq!(key_gen(&mut db, "bogus", "x", 5), Err(ServiceError::InvalidParam));
    assert_eq!(key_gen(&mut db, &root, "x", -1), Err(ServiceError::InvalidParam));
    let k = key_gen(&mut db, &root, "x", 5).unwrap();
    assert_eq!(k.len(), 32);
    assert!(check_admin_key(&db, &k));
}

#[test]
fn key_revoke_needs_root_level() {
    let (mut db, root, low) = setup();
    assert_eq!(key_revoke_by_key(&mut db, &low, &low), Err(ServiceError::InvalidParam));
    assert!(check_admin_key(&db, &low));
    assert_eq!(key_revoke_by_key(&mut db, &root, &low), Ok(()));
    assert!(!check_admin_key(&db, &low));
}

#[test]
fn key_revoke_by_role_needs_root_level() {
    let (mut db, root, low) = setup();
    assert_eq!(key_revoke_by_role(&mut db, &low, "helper"), Err(ServiceError::InvalidParam));
    assert_eq!(key_revoke_by_role(&mut db, &root, "helper"), Ok(()));
    assert!(!check_admin_key(&db, &low));
    assert!(check_admin_key(&db, &root));
}

#[test]
fn last_reason_needs_a_key() {
    let (db, _root, low) = setup();
    assert!(last_reason(&db, "bogus", 1).is_err());
    assert_eq!(last_reason(&db, &low, 1).unwrap().map(|r| r.uid), None);
}

#[test]
fn statistics_counts_current_states() {
    let (mut db, root, low) = setup();
    make_op(&mut db, 1, &root, Status::Black, "a").unwrap();
    make_op(&mut db, 2, &root, Status::Black, "b").unwrap();
    make_op(&mut db, 3, &low, Status::White, "c").unwrap();
    make_op(&mut db, 2, &low, Status::Normal, "d").unwrap();
    assert_eq!(statistics(&db, &low), Ok((1, 1)));
    assert_eq!(statistics(&db, "bogus"), Err(ServiceError::InvalidParam));
}
