use vstd::prelude::*;

use crate::status::Status;

verus! {

/// One entry of the audit log: who set which status on which user, why, and when.
#[derive(Debug, Clone)]
pub struct Reason {
    pub uid: i64,
    pub op: Status,
    pub op_role: String,
    pub reason: String,
    pub op_time: i64,
}

/// The cached moderation state of one user.
#[derive(Debug, Clone)]
pub struct User {
    pub uid: i64,
    pub status: Status,
    pub last_reason: Option<String>,
}

/// Mathematical form of an audit-log entry.
pub struct ReasonRow {
    pub uid: i64,
    pub op: Status,
    pub op_role: Seq<char>,
    pub reason: Seq<char>,
    pub op_time: i64,
}

/// Mathematical form of a user row.
pub struct UserRow {
    pub uid: i64,
    pub status: Status,
    pub last_reason: Option<Seq<char>>,
}

/// Mathematical form of an admin-key row.
pub struct KeyRow {
    pub key: Seq<char>,
    pub lvl: int,
    pub role: Seq<char>,
}

pub open spec fn opt_text(s: Option<String>) -> Option<Seq<char>> {
    match s {
        Some(t) => Some(t@),
        None => None,
    }
}

impl View for Reason {
    type V = ReasonRow;

    open spec fn view(&self) -> ReasonRow {
        ReasonRow {
            uid: self.uid,
            op: self.op,
            op_role: self.op_role@,
            reason: self.reason@,
            op_time: self.op_time,
        }
    }
}

impl View for User {
    type V = UserRow;

    open spec fn view(&self) -> UserRow {
        UserRow { uid: self.uid, status: self.status, last_reason: opt_text(self.last_reason) }
    }
}

impl Reason {
    /// A field-by-field copy whose view is known.
    pub fn duplicate(&self) -> (r: Reason)
        ensures
            r@ == self@,
    {
        Reason {
            uid: self.uid,
            op: self.op,
            op_role: self.op_role.clone(),
            reason: self.reason.clone(),
            op_time: self.op_time,
        }
    }
}

impl User {
    /// A field-by-field copy whose view is known.
    pub fn duplicate(&self) -> (r: User)
        ensures
            r@ == self@,
    {
        let last_reason = match &self.last_reason {
            Some(t) => Some(t.clone()),
            None => None,
        };
        User { uid: self.uid, status: self.status, last_reason }
    }
}

} // verus!
