use std::collections::HashSet;

use blacklist_core::db::{
    check_admin_key, check_admin_key_with_lvl, count_keys_at_level, gen_key, gen_key_from_draws,
    key_from_draws, get_admin_key_role, prepare,
    revoke_admin_key_by_key, revoke_admin_key_by_role, Database,
};

fn is_generated(k: &str) -> bool {
    k.len() == 32 && k.chars().all(|c| c.is_ascii_alphabetic())
}

#[test]
fn root_level_key_passes_root_check() {
    let mut db = Database::new();
    let k = gen_key(&mut db, 127, "root").unwrap();
    assert!(check_admin_key_with_lvl(&db, &k, 127));
    assert!(check_admin_key_with_lvl(&db, &k, 0));
}

#[test]
fn level_one_key_fails_root_check() {
    let mut db = Database::new();
    let k = gen_key(&mut db, 1, "mod").unwrap();
    assert!(!check_admin_key_with_lvl(&db, &k, 127));
    assert!(check_admin_key_with_lvl(&db, &k, 1));
    assert!(!check_admin_key_with_lvl(&db, &k, 2));
    assert!(check_admin_key(&db, &k));
}

#[test]
fn unknown_key_fails_every_check() {
    let mut db = Database::new();
    gen_key(&mut db, 127, "root").unwrap();
    assert!(!check_admin_key_with_lvl(&db, "nosuchkey", 0));
    assert!(!check_admin_key(&db, ""));
    assert_eq!(get_admin_key_role(&db, "nosuchkey"), None);
}

#[test]
fn generated_key_is_32_letters() {
    let mut db = Database::new();
    let k = gen_key(&mut db, 5, "x").unwrap();
    assert!(is_generated(&k));
    assert!(k.chars().any(|c| c.is_ascii_alphabetic()));
}

#[test]
fn thousand_generated_keys_are_distinct() {
    let mut db = Database::new();
    let mut seen = HashSet::new();
    for _ in 0..1000 {
        let k = gen_key(&mut db, 1, "bulk").unwrap();
        assert!(is_generated(&k));
        seen.insert(k);
    }
    assert_eq!(seen.len(), 1000);
}

#[test]
fn role_lookup() {
    let mut db = Database::new();
    let a = gen_key(&mut db, 10, "alice").unwrap();
    let b = gen_key(&mut db, 20, "bob").unwrap();
    assert_eq!(get_admin_key_role(&db, &a), Some("alice".to_string()));
    assert_eq!(get_admin_key_role(&db, &b), Some("bob".to_string()));
}

#[test]
fn revoked_key_fails_check() {
    let mut db = Database::new();
    let k = gen_key(&mut db, 127, "root").unwrap();
    let other = gen_key(&mut db, 3, "other").unwrap();
    revoke_admin_key_by_key(&mut db, &k);
    assert!(!check_admin_key_with_lvl(&db, &k, 0));
    assert!(!check_admin_key(&db, &k));
    assert!(check_admin_key(&db, &other));
}

#[test]
fn revoking_missing_key_is_harmless() {
    let mut db = Database::new();
    let k = gen_key(&mut db, 3, "r").unwrap();
    revoke_admin_key_by_key(&mut db, "absent");
    revoke_admin_key_by_key(&mut db, "absent");
    assert!(check_admin_key(&db, &k));
}

#[test]
fn revoke_by_role_removes_all_of_that_role() {
    let mut db = Database::new();
    let a1 = gen_key(&mut db, 3, "team").unwrap();
    let a2 = gen_key(&mut db, 50, "team").unwrap();
    let b = gen_key(&mut db, 3, "solo").unwrap();
    revoke_admin_key_by_role(&mut db, "team");
    assert!(!check_admin_key(&db, &a1));
    assert!(!check_admin_key(&db, &a2));
    assert!(check_admin_key(&db, &b));
    revoke_admin_key_by_role(&mut db, "team");
    assert!(check_admin_key(&db, &b));
}

#[test]
fn bootstrap_twice_makes_one_admin_root_key() {
    let mut db = Database::new();
    let first = prepare(&mut db).unwrap();
    let second = prepare(&mut db).unwrap();
    assert_eq!(first, second);
    assert!(is_generated(&first));
    assert_eq!(count_keys_at_level(&db, 127), 1);
    assert!(check_admin_key_with_lvl(&db, &first, 127));
    assert_eq!(get_admin_key_role(&db, &first), Some("admin".to_string()));
}

#[test]
fn bootstrap_keeps_existing_root_key() {
    let mut db = Database::new();
    let k = gen_key(&mut db, 127, "owner").unwrap();
    let root = prepare(&mut db).unwrap();
    assert_eq!(root, k);
    assert_eq!(count_keys_at_level(&db, 127), 1);
    assert_eq!(get_admin_key_role(&db, &k), Some("owner".to_string()));
}

#[test]
fn bootstrap_adds_root_beside_lower_keys() {
    let mut db = Database::new();
    gen_key(&mut db, 100, "mod").unwrap();
    let root = prepare(&mut db).unwrap();
    assert_eq!(count_keys_at_level(&db, 127), 1);
    assert_eq!(count_keys_at_level(&db, 100), 1);
    assert_eq!(get_admin_key_role(&db, &root), Some("admin".to_string()));
}

#[test]
fn generated_keys_use_both_cases() {
    let mut db = Database::new();
    let mut lower = 0;
    let mut upper = 0;
    for _ in 0..50 {
        let k = gen_key(&mut db, 1, "mix").unwrap();
        lower += k.chars().filter(|c| c.is_ascii_lowercase()).count();
        upper += k.chars().filter(|c| c.is_ascii_uppercase()).count();
    }
    assert!(lower > 400);
    assert!(upper > 400);
}

#[test]
fn key_from_draws_spells_letters() {
    let mut draws: Vec<u8> = vec![0, 25, 26, 51];
    draws.extend(std::iter::repeat(1u8).take(14));
    draws.extend(std::iter::repeat(27u8).take(14));
    let k = key_from_draws(&draws);
    assert_eq!(k, "azAZbbbbbbbbbbbbbbBBBBBBBBBBBBBB");
}

#[test]
fn colliding_draws_store_nothing() {
    let mut db = Database::new();
    let draws: Vec<u8> = vec![3u8; 32];
    let k = gen_key_from_draws(&mut db, 4, "first", &draws).unwrap();
    assert_eq!(k, "dddddddddddddddddddddddddddddddd");
    assert_eq!(gen_key_from_draws(&mut db, 100, "second", &draws), None);
    assert_eq!(count_keys_at_level(&db, 4), 1);
    assert_eq!(count_keys_at_level(&db, 100), 0);
    assert_eq!(get_admin_key_role(&db, &k), Some("first".to_string()));
}
