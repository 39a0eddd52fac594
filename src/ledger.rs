use vstd::prelude::*;

use crate::records::{ReasonRow, UserRow};
use crate::status::Status;

verus! {

/// The most recently appended audit entry for `uid`.
pub open spec fn latest_reason(rs: Seq<ReasonRow>, uid: i64) -> Option<ReasonRow>
    decreases rs.len(),
{
    if rs.len() == 0 {
        None
    } else if rs.last().uid == uid {
        Some(rs.last())
    } else {
        latest_reason(rs.drop_last(), uid)
    }
}

/// How many audit entries for `uid` set status `op`.
pub open spec fn count_ops(rs: Seq<ReasonRow>, uid: i64, op: Status) -> nat
    decreases rs.len(),
{
    if rs.len() == 0 {
        0
    } else {
        count_ops(rs.drop_last(), uid, op) + if rs.last().uid == uid && rs.last().op == op {
            1nat
        } else {
            0nat
        }
    }
}

/// The uids of the user rows at status `st`, in table order.
pub open spec fn uids_at(users: Seq<UserRow>, st: Status) -> Seq<i64>
    decreases users.len(),
{
    if users.len() == 0 {
        Seq::empty()
    } else if users.last().status == st {
        uids_at(users.drop_last(), st).push(users.last().uid)
    } else {
        uids_at(users.drop_last(), st)
    }
}

/// The uids whose latest audit entry sets status `st`.
pub open spec fn uids_latest_at(rs: Seq<ReasonRow>, st: Status) -> Set<i64> {
    Set::new(|uid: i64| latest_reason(rs, uid) matches Some(r) && r.op == st)
}

pub open spec fn uids_unique(users: Seq<UserRow>) -> bool {
    forall|i: int, j: int|
        0 <= i < users.len() && 0 <= j < users.len() && i != j ==> users[i].uid != users[j].uid
}

pub open spec fn has_user(users: Seq<UserRow>, uid: i64) -> bool {
    exists|i: int| 0 <= i < users.len() && users[i].uid == uid
}

/// The row of `uid` in the user table, if there is one.
pub open spec fn find_user(users: Seq<UserRow>, uid: i64) -> Option<UserRow> {
    if has_user(users, uid) {
        Some(users[choose|i: int| 0 <= i < users.len() && users[i].uid == uid])
    } else {
        None
    }
}

/// What a lookup of `uid` reports: its row, or a neutral row when none exists.
pub open spec fn user_or_default(users: Seq<UserRow>, uid: i64) -> UserRow {
    match find_user(users, uid) {
        Some(u) => u,
        None => UserRow { uid, status: Status::Normal, last_reason: None },
    }
}

/// The user row that an audit entry implies.
pub open spec fn cached_row(uid: i64, r: Option<ReasonRow>) -> Option<UserRow> {
    match r {
        Some(x) => Some(UserRow { uid, status: x.op, last_reason: Some(x.reason) }),
        None => None,
    }
}

/// The user table agrees with the audit log: one row per uid, holding the
/// status and reason of that uid's latest entry, and no row without an entry.
pub open spec fn ledger_consistent(users: Seq<UserRow>, rs: Seq<ReasonRow>) -> bool {
    &&& uids_unique(users)
    &&& forall|uid: i64| #[trigger] find_user(users, uid) == cached_row(uid, latest_reason(rs, uid))
}

/// Overwrites the row of `row.uid`, or adds it when there is none.
pub open spec fn upsert(users: Seq<UserRow>, row: UserRow) -> Seq<UserRow> {
    if has_user(users, row.uid) {
        users.update(choose|i: int| 0 <= i < users.len() && users[i].uid == row.uid, row)
    } else {
        users.push(row)
    }
}

proof fn lemma_latest_after_push(rs: Seq<ReasonRow>, r: ReasonRow, uid: i64)
    ensures
        latest_reason(rs.push(r), uid) == if uid == r.uid {
            Some(r)
        } else {
            latest_reason(rs, uid)
        },
{
    assert(rs.push(r).drop_last() =~= rs);
}

pub proof fn lemma_find_user_at(users: Seq<UserRow>, i: int)
    requires
        uids_unique(users),
        0 <= i < users.len(),
    ensures
        find_user(users, users[i].uid) == Some(users[i]),
{
    assert(has_user(users, users[i].uid));
}

/// Recording an operation, as the user-table upsert and the log append
/// together do, keeps the table consistent with the log.
pub proof fn lemma_record_keeps_consistent(users: Seq<UserRow>, rs: Seq<ReasonRow>, r: ReasonRow)
    requires
        ledger_consistent(users, rs),
    ensures
        ledger_consistent(
            upsert(users, UserRow { uid: r.uid, status: r.op, last_reason: Some(r.reason) }),
            rs.push(r),
        ),
{
    let row = UserRow { uid: r.uid, status: r.op, last_reason: Some(r.reason) };
    let users2 = upsert(users, row);
    let rs2 = rs.push(r);
    let n = users.len();
    let k = if has_user(users, r.uid) {
        choose|i: int| 0 <= i < users.len() && users[i].uid == r.uid
    } else {
        n as int
    };
    assert(0 <= k < users2.len() && users2[k] == row);
    assert(forall|i: int| 0 <= i < users2.len() && i != k ==> users2[i] == users[i]);
    assert(forall|i: int| 0 <= i < users2.len() && i != k ==> #[trigger] users2[i].uid != r.uid);
    assert(uids_unique(users2));
    assert forall|uid: i64| #[trigger] find_user(users2, uid) == cached_row(uid, latest_reason(rs2, uid)) by {
        lemma_latest_after_push(rs, r, uid);
        if uid == r.uid {
            lemma_find_user_at(users2, k);
        } else {
            assert(find_user(users, uid) == cached_row(uid, latest_reason(rs, uid)));
            if has_user(users, uid) {
                let j = choose|i: int| 0 <= i < users.len() && users[i].uid == uid;
                lemma_find_user_at(users, j);
                assert(users2[j] == users[j]);
                lemma_find_user_at(users2, j);
            } else {
                assert(!has_user(users2, uid));
            }
        }
    }
}

/// With unique uids, the uids at a status are distinct and are exactly the
/// uids of the rows at that status.
proof fn lemma_uids_at(users: Seq<UserRow>, st: Status)
    requires
        uids_unique(users),
    ensures
        uids_at(users, st).no_duplicates(),
        forall|uid: i64|
            uids_at(users, st).contains(uid) <==> (has_user(users, uid) && #[trigger] find_user(
                users,
                uid,
            )->0.status == st),
    decreases users.len(),
{
    if users.len() > 0 {
        let init = users.drop_last();
        let last = users.last();
        let n = users.len() - 1;
        lemma_uids_at(init, st);
        assert(uids_unique(init));
        lemma_find_user_at(users, n);
        assert(!has_user(init, last.uid)) by {
            if has_user(init, last.uid) {
                let j = choose|i: int| 0 <= i < init.len() && init[i].uid == last.uid;
                assert(users[j].uid == last.uid);
            }
        }
        assert(find_user(init, last.uid) is None);
        let a = uids_at(users, st);
        let b = uids_at(init, st);
        assert(!b.contains(last.uid));
        assert forall|uid: i64| a.contains(uid) <==> (b.contains(uid) || (uid == last.uid
            && last.status == st)) by {
            if last.status == st {
                assert(a == b.push(last.uid));
                if a.contains(uid) && uid != last.uid {
                    let p = choose|p: int| 0 <= p < a.len() && a[p] == uid;
                    assert(b[p] == uid);
                }
                if b.contains(uid) {
                    let p = choose|p: int| 0 <= p < b.len() && b[p] == uid;
                    assert(a[p] == uid);
                }
                if uid == last.uid {
                    assert(a[a.len() - 1] == uid);
                }
            } else {
                assert(a == b);
            }
        }
        assert forall|uid: i64|
            a.contains(uid) <==> (has_user(users, uid) && #[trigger] find_user(
                users,
                uid,
            )->0.status == st) by {
            if uid != last.uid {
                assert(b.contains(uid) <==> (has_user(init, uid) && find_user(init, uid)->0.status
                    == st));
                if has_user(init, uid) {
                    let j = choose|i: int| 0 <= i < init.len() && init[i].uid == uid;
                    lemma_find_user_at(init, j);
                    lemma_find_user_at(users, j);
                } else {
                    assert(!has_user(users, uid)) by {
                        if has_user(users, uid) {
                            let j = choose|i: int| 0 <= i < users.len() && users[i].uid == uid;
                            assert(init[j].uid == uid);
                        }
                    }
                }
            }
        }
        if last.status == st {
            assert(a == b.push(last.uid));
        } else {
            assert(a == b);
        }
    }
}

/// The number of users at a status equals the number of distinct uids whose
/// latest audit entry sets that status.
pub proof fn lemma_status_count_matches_log(users: Seq<UserRow>, rs: Seq<ReasonRow>, st: Status)
    requires
        ledger_consistent(users, rs),
    ensures
        uids_at(users, st).len() == uids_latest_at(rs, st).len(),
{
    lemma_uids_at(users, st);
    assert(uids_at(users, st).to_set() =~= uids_latest_at(rs, st)) by {
        assert forall|uid: i64| uids_at(users, st).to_set().contains(uid) <==> uids_latest_at(
            rs,
            st,
        ).contains(uid) by {
            assert(find_user(users, uid) == cached_row(uid, latest_reason(rs, uid)));
            assert(uids_at(users, st).contains(uid) <==> (has_user(users, uid) && find_user(
                users,
                uid,
            )->0.status == st));
        }
    }
    uids_at(users, st).unique_seq_to_set();
}

} // verus!
