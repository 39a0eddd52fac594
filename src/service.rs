use vstd::prelude::*;

use crate::db::{
    check_admin_key, check_admin_key_with_lvl, count_total_by_status, do_op, gen_key,
    get_admin_key_role, get_last_reason, revoke_admin_key_by_key, revoke_admin_key_by_role,
    Database,
};
use crate::keyring::{find_key, key_has_level, role_of_key, ROOT_LEVEL};
use crate::ledger::{latest_reason, uids_latest_at, upsert};
use crate::records::{KeyRow, Reason, ReasonRow, UserRow};
use crate::status::Status;

verus! {

/// Why a request was turned down. A missing or malformed field, a missing key
/// and a key below the required level all read as an invalid parameter, so
/// that callers cannot tell which keys exist.
#[derive(Debug, Clone, Copy, PartialEq, Eq, Structural)]
pub enum ServiceError {
    InvalidParam,
    Internal,
}

/// Sets the status of `uid` on behalf of the holder of `key`, recording the
/// key's role as the actor. Any stored key may do this.
pub fn make_op(db: &mut Database, uid: i64, key: &str, op: Status, reason: &str) -> (r: Result<
    (),
    ServiceError,
>)
    requires
        old(db)@.wf(),
    ensures
        final(db)@.wf(),
        r is Err <==> role_of_key(old(db)@.keys, key@) is None,
        r is Err ==> r == Err::<(), ServiceError>(ServiceError::InvalidParam) && final(db)@
            == old(db)@,
        r is Ok ==> {
            &&& final(db)@.users == upsert(
                old(db)@.users,
                UserRow { uid, status: op, last_reason: Some(reason@) },
            )
            &&& exists|t: i64|
                t >= 0 && final(db)@.reasons == old(db)@.reasons.push(
                    ReasonRow {
                        uid,
                        op,
                        op_role: role_of_key(old(db)@.keys, key@)->0,
                        reason: reason@,
                        op_time: t,
                    },
                )
            &&& final(db)@.keys == old(db)@.keys
        },
{
    let role = match get_admin_key_role(db, key) {
        Some(role) => role,
        None => return Err(ServiceError::InvalidParam),
    };
    let ghost before = db@;
    do_op(db, uid, &op, role.as_str(), reason);
    proof {
        let t = choose|t: i64|
            t >= 0 && db@.reasons == before.reasons.push(
                ReasonRow { uid, op, op_role: role@, reason: reason@, op_time: t },
            );
        assert(role_of_key(old(db)@.keys, key@)->0 == role@);
        assert(db@.reasons == old(db)@.reasons.push(
            ReasonRow {
                uid,
                op,
                op_role: role_of_key(old(db)@.keys, key@)->0,
                reason: reason@,
                op_time: t,
            },
        ));
    }
    Ok(())
}

/// Creates a key at level `lvl` with role `role`, on behalf of the holder of a
/// root-level `key`; returns the new key. `Internal` when the drawn key was
/// already stored (nothing is stored then).
pub fn key_gen(db: &mut Database, key: &str, role: &str, lvl: i8) -> (r: Result<
    String,
    ServiceError,
>)
    requires
        old(db)@.wf(),
    ensures
        final(db)@.wf(),
        r == Err::<String, ServiceError>(ServiceError::InvalidParam) <==> (!key_has_level(
            old(db)@.keys,
            key@,
            ROOT_LEVEL as int,
        ) || lvl < 0),
        r is Err ==> final(db)@ == old(db)@,
        r matches Ok(k) ==> final(db)@.keys == old(db)@.keys.push(
            KeyRow { key: k@, lvl: lvl as int, role: role@ },
        ) && crate::keyring::is_generated_key(k@) && find_key(old(db)@.keys, k@) is None
            && final(db)@.users == old(db)@.users
            && final(db)@.reasons == old(db)@.reasons,
{
    if lvl < 0 || !check_admin_key_with_lvl(db, key, ROOT_LEVEL) {
        return Err(ServiceError::InvalidParam);
    }
    match gen_key(db, lvl, role) {
        Some(k) => Ok(k),
        None => Err(ServiceError::Internal),
    }
}

/// Deletes every row of `revoke_key`, on behalf of the holder of a root-level `key`.
pub fn key_revoke_by_key(db: &mut Database, key: &str, revoke_key: &str) -> (r: Result<
    (),
    ServiceError,
>)
    requires
        old(db)@.wf(),
    ensures
        final(db)@.wf(),
        r is Err <==> !key_has_level(old(db)@.keys, key@, ROOT_LEVEL as int),
        r is Err ==> r == Err::<(), ServiceError>(ServiceError::InvalidParam) && final(db)@
            == old(db)@,
        r is Ok ==> final(db)@.keys == old(db)@.keys.filter(|k: KeyRow| k.key != revoke_key@)
            && final(db)@.users == old(db)@.users && final(db)@.reasons == old(db)@.reasons,
{
    if !check_admin_key_with_lvl(db, key, ROOT_LEVEL) {
        return Err(ServiceError::InvalidParam);
    }
    revoke_admin_key_by_key(db, revoke_key);
    Ok(())
}

/// Deletes every key of role `role`, on behalf of the holder of a root-level `key`.
pub fn key_revoke_by_role(db: &mut Database, key: &str, role: &str) -> (r: Result<
    (),
    ServiceError,
>)
    requires
        old(db)@.wf(),
    ensures
        final(db)@.wf(),
        r is Err <==> !key_has_level(old(db)@.keys, key@, ROOT_LEVEL as int),
        r is Err ==> r == Err::<(), ServiceError>(ServiceError::InvalidParam) && final(db)@
            == old(db)@,
        r is Ok ==> final(db)@.keys == old(db)@.keys.filter(|k: KeyRow| k.role != role@)
            && final(db)@.users == old(db)@.users && final(db)@.reasons == old(db)@.reasons,
{
    if !check_admin_key_with_lvl(db, key, ROOT_LEVEL) {
        return Err(ServiceError::InvalidParam);
    }
    revoke_admin_key_by_role(db, role);
    Ok(())
}

/// The latest audit entry for `uid`, for the holder of any stored `key`.
pub fn last_reason(db: &Database, key: &str, uid: i64) -> (r: Result<Option<Reason>, ServiceError>)
    requires
        db@.wf(),
    ensures
        r is Err <==> find_key(db@.keys, key@) is None,
        r is Err ==> r == Err::<Option<Reason>, ServiceError>(ServiceError::InvalidParam),
        r matches Ok(Some(x)) ==> latest_reason(db@.reasons, uid) == Some(x@),
        r matches Ok(None) ==> latest_reason(db@.reasons, uid) is None,
{
    if !check_admin_key(db, key) {
        return Err(ServiceError::InvalidParam);
    }
    Ok(get_last_reason(db, uid))
}

/// How many users are denylisted and how many allowlisted, for the holder of
/// any stored `key`.
pub fn statistics(db: &Database, key: &str) -> (r: Result<(u64, u64), ServiceError>)
    requires
        db@.wf(),
    ensures
        r is Err <==> find_key(db@.keys, key@) is None,
        r is Err ==> r == Err::<(u64, u64), ServiceError>(ServiceError::InvalidParam),
        r matches Ok((black, white)) ==> black == uids_latest_at(db@.reasons, Status::Black).len()
            && white == uids_latest_at(db@.reasons, Status::White).len(),
{
    if !check_admin_key(db, key) {
        return Err(ServiceError::InvalidParam);
    }
    let black = count_total_by_status(db, &Status::Black);
    let white = count_total_by_status(db, &Status::White);
    Ok((black, white))
}

} // verus!
