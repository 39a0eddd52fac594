use vstd::prelude::*;

use rand::Rng;

use crate::keyring::{
    bootstrapped, find_key, has_root_key, is_generated_key, keys_unique, key_has_level, role_of_key,
    ROOT_LEVEL,
};
use crate::ledger::{
    count_ops, find_user, has_user, latest_reason, ledger_consistent, lemma_find_user_at,
    lemma_record_keeps_consistent, lemma_status_count_matches_log, upsert, uids_at,
    uids_latest_at, user_or_default,
};
use crate::records::{KeyRow, Reason, ReasonRow, User, UserRow};
use crate::status::Status;

verus! {

/// Relies on rand's `thread_rng().gen_range(0..bound)`: a value below `bound`
/// (the range is not empty, so the call does not panic).
#[verifier::external_body]
fn random_below(bound: u8) -> (r: u8)
    requires
        bound > 0,
    ensures
        r < bound,
{
    rand::thread_rng().gen_range(0..bound)
}

/// One stored admin key.
struct KeyEntry {
    admin_key: String,
    lvl: i8,
    role: String,
}

impl KeyEntry {
    spec fn row(&self) -> KeyRow {
        KeyRow { key: self.admin_key@, lvl: self.lvl as int, role: self.role@ }
    }

    fn duplicate(&self) -> (r: KeyEntry)
        ensures
            r.row() == self.row(),
    {
        KeyEntry { admin_key: self.admin_key.clone(), lvl: self.lvl, role: self.role.clone() }
    }
}

/// The three tables of the store: admin keys, cached user states and the
/// append-only audit log.
pub struct Database {
    keys: Vec<KeyEntry>,
    users: Vec<User>,
    reasons: Vec<Reason>,
}

/// Mathematical form of the store.
pub struct DbView {
    pub keys: Seq<KeyRow>,
    pub users: Seq<UserRow>,
    pub reasons: Seq<ReasonRow>,
}

impl View for Database {
    type V = DbView;

    closed spec fn view(&self) -> DbView {
        DbView {
            keys: self.keys@.map_values(|e: KeyEntry| e.row()),
            users: self.users@.map_values(|u: User| u@),
            reasons: self.reasons@.map_values(|r: Reason| r@),
        }
    }
}

/// Every stored level lies in 0..=127.
pub open spec fn levels_valid(rows: Seq<KeyRow>) -> bool {
    forall|i: int| 0 <= i < rows.len() ==> 0 <= #[trigger] rows[i].lvl <= ROOT_LEVEL
}

impl DbView {
    /// Key levels in range, and the user table agreeing with the audit log.
    pub open spec fn wf(self) -> bool {
        &&& levels_valid(self.keys)
        &&& keys_unique(self.keys)
        &&& ledger_consistent(self.users, self.reasons)
    }
}

/// The letters of generated keys; a draw `d` below 52 picks letter `d`.
pub const KEY_ALPHABET: &'static str = "abcdefghijklmnopqrstuvwxyzABCDEFGHIJKLMNOPQRSTUVWXYZ";

/// The letter that draw `d` picks: `a`..`z` for 0..26, `A`..`Z` for 26..52.
pub open spec fn key_letter(d: int) -> char {
    KEY_ALPHABET@[d]
}

/// The key that a sequence of draws spells.
pub open spec fn key_of_draws(draws: Seq<u8>) -> Seq<char> {
    draws.map_values(|d: u8| key_letter(d as int))
}

/// Spells the key that 32 draws below 52 pick, one letter per draw.
pub fn key_from_draws(draws: &Vec<u8>) -> (r: String)
    requires
        draws@.len() == 32,
        forall|i: int| 0 <= i < 32 ==> draws@[i] < 52,
    ensures
        r@ == key_of_draws(draws@),
        is_generated_key(r@),
{
    let alphabet = KEY_ALPHABET;
    proof {
        reveal_strlit("abcdefghijklmnopqrstuvwxyzABCDEFGHIJKLMNOPQRSTUVWXYZ");
    }
    assert(alphabet.is_ascii());
    let mut key = String::new();
    let mut n: usize = 0;
    while n < 32
        invariant
            n <= 32,
            draws@.len() == 32,
            forall|i: int| 0 <= i < 32 ==> draws@[i] < 52,
            alphabet@ == KEY_ALPHABET@,
            alphabet@.len() == 52,
            alphabet.is_ascii(),
            forall|j: int| 0 <= j < 52 ==> crate::keyring::is_key_letter(#[trigger] alphabet@[j]),
            key@ == key_of_draws(draws@.take(n as int)),
            forall|i: int| 0 <= i < n ==> crate::keyring::is_key_letter(#[trigger] key@[i]),
        decreases 32 - n,
    {
        let idx = draws[n] as usize;
        let piece = alphabet.substring_ascii(idx, idx + 1);
        key.append(piece);
        assert(key@ =~= key_of_draws(draws@.take(n + 1)));
        n = n + 1;
    }
    assert(draws@.take(32) =~= draws@);
    key
}

/// Stores the key that `draws` spell at level `lvl` with role `role`, unless a
/// row already carries that key; then nothing is stored and `None` returned.
pub fn gen_key_from_draws(db: &mut Database, lvl: i8, role: &str, draws: &Vec<u8>) -> (r: Option<
    String,
>)
    requires
        old(db)@.wf(),
        0 <= lvl,
        draws@.len() == 32,
        forall|i: int| 0 <= i < 32 ==> draws@[i] < 52,
    ensures
        final(db)@.wf(),
        r is None <==> find_key(old(db)@.keys, key_of_draws(draws@)) is Some,
        r is None ==> final(db)@ == old(db)@,
        r matches Some(k) ==> k@ == key_of_draws(draws@) && is_generated_key(k@) && final(db)@.keys == old(db)@.keys.push(
            KeyRow { key: k@, lvl: lvl as int, role: role@ },
        ),
        final(db)@.users == old(db)@.users,
        final(db)@.reasons == old(db)@.reasons,
{
    let key = key_from_draws(draws);
    if db.find_key_index(&key).is_some() {
        return None;
    }
    proof {
        crate::keyring::lemma_find_none(db@.keys, key@);
    }
    let entry = KeyEntry { admin_key: key.clone(), lvl, role: role.to_owned() };
    db.keys.push(entry);
    proof {
        assert(db@.keys =~= old(db)@.keys.push(KeyRow { key: key@, lvl: lvl as int, role: role@ }));
    }
    Some(key)
}

/// Stores a fresh random key at level `lvl` with role `role` and returns it:
/// 32 letters, each drawn uniformly from the 52 ASCII letters. When the drawn
/// key is already stored nothing is stored and `None` is returned.
pub fn gen_key(db: &mut Database, lvl: i8, role: &str) -> (r: Option<String>)
    requires
        old(db)@.wf(),
        0 <= lvl,
    ensures
        final(db)@.wf(),
        r is None ==> final(db)@ == old(db)@,
        r matches Some(k) ==> is_generated_key(k@) && find_key(old(db)@.keys, k@) is None
            && final(db)@.keys == old(db)@.keys.push(KeyRow { key: k@, lvl: lvl as int, role: role@ }),
        final(db)@.users == old(db)@.users,
        final(db)@.reasons == old(db)@.reasons,
{
    let mut draws: Vec<u8> = Vec::new();
    let mut n: usize = 0;
    while n < 32
        invariant
            n <= 32,
            draws@.len() == n,
            forall|i: int| 0 <= i < n ==> draws@[i] < 52,
        decreases 32 - n,
    {
        let d = random_below(52);
        draws.push(d);
        n = n + 1;
    }
    gen_key_from_draws(db, lvl, role, &draws)
}

impl Database {
    /// An empty store: the three tables exist and hold no rows.
    pub fn new() -> (r: Database)
        ensures
            r@.wf(),
            r@.keys.len() == 0,
            r@.users.len() == 0,
            r@.reasons.len() == 0,
    {
        let r = Database { keys: Vec::new(), users: Vec::new(), reasons: Vec::new() };
        assert(r@.keys =~= Seq::<KeyRow>::empty());
        assert(r@.users =~= Seq::<UserRow>::empty());
        assert(r@.reasons =~= Seq::<ReasonRow>::empty());
        assert forall|uid: i64| #[trigger] find_user(r@.users, uid) == None::<UserRow> by {}
        r
    }

    /// Position of the first row that carries `key`.
    fn find_key_index(&self, key: &String) -> (r: Option<usize>)
        ensures
            match r {
                Some(i) => i < self@.keys.len() && find_key(self@.keys, key@) == Some(self@.keys[i as int]),
                None => find_key(self@.keys, key@) is None,
            },
    {
        let ghost rows = self@.keys;
        let mut i: usize = 0;
        assert(rows.subrange(0, rows.len() as int) =~= rows);
        while i < self.keys.len()
            invariant
                i <= self.keys.len(),
                rows == self@.keys,
                rows.len() == self.keys.len(),
                find_key(rows, key@) == find_key(rows.subrange(i as int, rows.len() as int), key@),
            decreases self.keys.len() - i,
        {
            let ghost rest = rows.subrange(i as int, rows.len() as int);
            if self.keys[i].admin_key == *key {
                assert(rest[0] == rows[i as int]);
                return Some(i);
            }
            assert(rest.drop_first() =~= rows.subrange(i + 1, rows.len() as int));
            i = i + 1;
        }
        None
    }

    /// Position of the row of `uid` in the user table.
    fn find_user_index(&self, uid: i64) -> (r: Option<usize>)
        ensures
            match r {
                Some(i) => i < self@.users.len() && self@.users[i as int].uid == uid,
                None => !has_user(self@.users, uid),
            },
    {
        let mut i: usize = 0;
        while i < self.users.len()
            invariant
                i <= self.users.len(),
                forall|j: int| 0 <= j < i ==> self@.users[j].uid != uid,
            decreases self.users.len() - i,
        {
            if self.users[i].uid == uid {
                return Some(i);
            }
            i = i + 1;
        }
        None
    }
}

/// Whether `key` is stored with a level of at least `lvl`. A missing key and a
/// low level give the same answer.
pub fn check_admin_key_with_lvl(db: &Database, key: &str, lvl: i8) -> (r: bool)
    ensures
        r == key_has_level(db@.keys, key@, lvl as int),
{
    let key = key.to_owned();
    match db.find_key_index(&key) {
        Some(i) => db.keys[i].lvl >= lvl,
        None => false,
    }
}

/// Whether `key` is stored at all.
pub fn check_admin_key(db: &Database, key: &str) -> (r: bool)
    requires
        db@.wf(),
    ensures
        r == (find_key(db@.keys, key@) is Some),
        r == key_has_level(db@.keys, key@, 0),
{
    let r = check_admin_key_with_lvl(db, key, 0);
    proof {
        if let Some(row) = find_key(db@.keys, key@) {
            crate::keyring::lemma_found_row_is_stored(db@.keys, key@);
        }
    }
    r
}

/// The role of the stored `key`, if it is stored.
pub fn get_admin_key_role(db: &Database, key: &str) -> (r: Option<String>)
    ensures
        r matches Some(role) ==> role_of_key(db@.keys, key@) == Some(role@),
        r is None ==> role_of_key(db@.keys, key@) is None,
{
    let key = key.to_owned();
    match db.find_key_index(&key) {
        Some(i) => Some(db.keys[i].role.clone()),
        None => None,
    }
}

/// Deletes every row whose role is `role`; deleting none is fine.
pub fn revoke_admin_key_by_role(db: &mut Database, role: &str)
    requires
        old(db)@.wf(),
    ensures
        final(db)@.wf(),
        final(db)@.keys == old(db)@.keys.filter(|r: KeyRow| r.role != role@),
        final(db)@.users == old(db)@.users,
        final(db)@.reasons == old(db)@.reasons,
{
    let role = role.to_owned();
    let ghost rows = db@.keys;
    let mut kept: Vec<KeyEntry> = Vec::new();
    let mut i: usize = 0;
    while i < db.keys.len()
        invariant
            i <= db.keys.len(),
            rows == db@.keys,
            rows.len() == db.keys.len(),
            kept@.map_values(|e: KeyEntry| e.row()) == rows.take(i as int).filter(
                |r: KeyRow| r.role != role@,
            ),
        decreases db.keys.len() - i,
    {
        let ghost before = kept@;
        proof {
            reveal(Seq::filter);
            assert(rows.take(i + 1).drop_last() =~= rows.take(i as int));
        }
        if db.keys[i].role != role {
            let e = db.keys[i].duplicate();
            kept.push(e);
            assert(kept@.map_values(|e: KeyEntry| e.row()) =~= before.map_values(
                |e: KeyEntry| e.row(),
            ).push(rows[i as int]));
        }
        i = i + 1;
    }
    assert(rows.take(rows.len() as int) =~= rows);
    db.keys = kept;
    proof {
        crate::keyring::lemma_filter_levels(rows, |r: KeyRow| r.role != role@);
        crate::keyring::lemma_filter_unique(rows, |r: KeyRow| r.role != role@);
    }
}

/// Deletes every row that carries `key`; deleting none is fine.
pub fn revoke_admin_key_by_key(db: &mut Database, key: &str)
    requires
        old(db)@.wf(),
    ensures
        final(db)@.wf(),
        final(db)@.keys == old(db)@.keys.filter(|r: KeyRow| r.key != key@),
        final(db)@.users == old(db)@.users,
        final(db)@.reasons == old(db)@.reasons,
{
    let key = key.to_owned();
    let ghost rows = db@.keys;
    let mut kept: Vec<KeyEntry> = Vec::new();
    let mut i: usize = 0;
    while i < db.keys.len()
        invariant
            i <= db.keys.len(),
            rows == db@.keys,
            rows.len() == db.keys.len(),
            kept@.map_values(|e: KeyEntry| e.row()) == rows.take(i as int).filter(
                |r: KeyRow| r.key != key@,
            ),
        decreases db.keys.len() - i,
    {
        let ghost before = kept@;
        proof {
            reveal(Seq::filter);
            assert(rows.take(i + 1).drop_last() =~= rows.take(i as int));
        }
        if db.keys[i].admin_key != key {
            let e = db.keys[i].duplicate();
            kept.push(e);
            assert(kept@.map_values(|e: KeyEntry| e.row()) =~= before.map_values(
                |e: KeyEntry| e.row(),
            ).push(rows[i as int]));
        }
        i = i + 1;
    }
    assert(rows.take(rows.len() as int) =~= rows);
    db.keys = kept;
    proof {
        crate::keyring::lemma_filter_levels(rows, |r: KeyRow| r.key != key@);
        crate::keyring::lemma_filter_unique(rows, |r: KeyRow| r.key != key@);
    }
}

/// Creates the root key with role "admin" unless a root key is stored, and
/// returns the stored root key (the first one, or the new one). `None` when
/// a new key was needed and the drawn key was already stored.
fn gen_admin_key(db: &mut Database) -> (r: Option<String>)
    requires
        old(db)@.wf(),
    ensures
        final(db)@.wf(),
        bootstrapped(old(db)@.keys, final(db)@.keys),
        r is None <==> !has_root_key(final(db)@.keys),
        r is None ==> final(db)@ == old(db)@,
        r matches Some(k) ==> exists|i: int|
            0 <= i < final(db)@.keys.len() && final(db)@.keys[i].key == k@ && final(db)@.keys[i].lvl
                == ROOT_LEVEL,
        final(db)@.users == old(db)@.users,
        final(db)@.reasons == old(db)@.reasons,
{
    let mut i: usize = 0;
    while i < db.keys.len()
        invariant
            i <= db.keys.len(),
            db@ == old(db)@,
            db@.wf(),
            forall|j: int| 0 <= j < i ==> db@.keys[j].lvl != ROOT_LEVEL,
        decreases db.keys.len() - i,
    {
        if db.keys[i].lvl == ROOT_LEVEL {
            assert(db@.keys[i as int].lvl == ROOT_LEVEL);
            return Some(db.keys[i].admin_key.clone());
        }
        i = i + 1;
    }
    let r = gen_key(db, ROOT_LEVEL, "admin");
    proof {
        if r is Some {
            let k = r->0;
            assert(db@.keys[db@.keys.len() - 1] == crate::keyring::root_row(k@));
            assert(db@.keys == old(db)@.keys.push(crate::keyring::root_row(k@)));
        }
    }
    r
}

/// Start-up initialization: the tables exist by construction, and a root key
/// with role "admin" is created if none is stored. Safe to run on every start.
/// Returns the stored root key, so that the operator can learn it; `None`
/// (nothing stored) when the drawn key collided with a stored one.
pub fn prepare(db: &mut Database) -> (r: Option<String>)
    requires
        old(db)@.wf(),
    ensures
        final(db)@.wf(),
        bootstrapped(old(db)@.keys, final(db)@.keys),
        r is None <==> !has_root_key(final(db)@.keys),
        r is None ==> final(db)@ == old(db)@,
        r matches Some(k) ==> exists|i: int|
            0 <= i < final(db)@.keys.len() && final(db)@.keys[i].key == k@ && final(db)@.keys[i].lvl
                == ROOT_LEVEL,
        final(db)@.users == old(db)@.users,
        final(db)@.reasons == old(db)@.reasons,
{
    gen_admin_key(db)
}

/// How many stored keys are at level `lvl`.
pub fn count_keys_at_level(db: &Database, lvl: i8) -> (r: u64)
    ensures
        r == db@.keys.filter(|k: KeyRow| k.lvl == lvl as int).len(),
{
    let ghost rows = db@.keys;
    let mut count: u64 = 0;
    let mut i: usize = 0;
    while i < db.keys.len()
        invariant
            i <= db.keys.len(),
            rows == db@.keys,
            rows.len() == db.keys.len(),
            count <= i,
            count == rows.take(i as int).filter(|k: KeyRow| k.lvl == lvl as int).len(),
        decreases db.keys.len() - i,
    {
        proof {
            reveal(Seq::filter);
            assert(rows.take(i + 1).drop_last() =~= rows.take(i as int));
            assert(rows.take(i + 1).last() == rows[i as int]);
            rows.take(i as int).lemma_filter_len(|k: KeyRow| k.lvl == lvl as int);
        }
        if db.keys[i].lvl == lvl {
            count = count + 1;
        }
        i = i + 1;
    }
    assert(rows.take(i as int) =~= rows);
    count
}

/// The cached state of `uid`: its row, or a neutral row with no reason when
/// it has never been moderated.
pub fn get_user_by_id(db: &Database, uid: i64) -> (r: User)
    requires
        db@.wf(),
    ensures
        r@ == user_or_default(db@.users, uid),
        r.status == match latest_reason(db@.reasons, uid) {
            Some(x) => x.op,
            None => Status::Normal,
        },
{
    proof {
        assert(find_user(db@.users, uid) == crate::ledger::cached_row(uid, latest_reason(db@.reasons, uid)));
    }
    match db.find_user_index(uid) {
        Some(i) => {
            proof {
                lemma_find_user_at(db@.users, i as int);
            }
            db.users[i].duplicate()
        },
        None => User { uid, status: Status::Normal, last_reason: None },
    }
}

/// The latest audit entry for `uid`, by insertion order.
pub fn get_last_reason(db: &Database, uid: i64) -> (r: Option<Reason>)
    ensures
        r matches Some(x) ==> latest_reason(db@.reasons, uid) == Some(x@),
        r is None ==> latest_reason(db@.reasons, uid) is None,
{
    let ghost rs = db@.reasons;
    let mut i: usize = db.reasons.len();
    assert(rs.take(i as int) =~= rs);
    while i > 0
        invariant
            i <= db.reasons.len(),
            rs == db@.reasons,
            rs.len() == db.reasons.len(),
            latest_reason(rs, uid) == latest_reason(rs.take(i as int), uid),
        decreases i,
    {
        assert(rs.take(i as int).drop_last() =~= rs.take(i - 1));
        assert(rs.take(i as int).last() == rs[i - 1]);
        if db.reasons[i - 1].uid == uid {
            return Some(db.reasons[i - 1].duplicate());
        }
        i = i - 1;
    }
    None
}

/// How many times `uid` has been denylisted, counted over the audit log.
pub fn count_black_times(db: &Database, uid: i64) -> (r: u64)
    ensures
        r == count_ops(db@.reasons, uid, Status::Black),
{
    let ghost rs = db@.reasons;
    let mut count: u64 = 0;
    let mut i: usize = 0;
    while i < db.reasons.len()
        invariant
            i <= db.reasons.len(),
            rs == db@.reasons,
            rs.len() == db.reasons.len(),
            count <= i,
            count == count_ops(rs.take(i as int), uid, Status::Black),
        decreases db.reasons.len() - i,
    {
        assert(rs.take(i + 1).drop_last() =~= rs.take(i as int));
        assert(rs.take(i + 1).last() == rs[i as int]);
        if db.reasons[i].uid == uid && db.reasons[i].op == Status::Black {
            count = count + 1;
        }
        i = i + 1;
    }
    assert(rs.take(i as int) =~= rs);
    count
}

/// How many users currently hold `status`, counted over the user table; this
/// is also the number of distinct uids whose latest audit entry set it.
pub fn count_total_by_status(db: &Database, status: &Status) -> (r: u64)
    requires
        db@.wf(),
    ensures
        r == uids_at(db@.users, *status).len(),
        r == uids_latest_at(db@.reasons, *status).len(),
{
    let ghost us = db@.users;
    let mut count: u64 = 0;
    let mut i: usize = 0;
    while i < db.users.len()
        invariant
            i <= db.users.len(),
            us == db@.users,
            us.len() == db.users.len(),
            count <= i,
            count == uids_at(us.take(i as int), *status).len(),
        decreases db.users.len() - i,
    {
        assert(us.take(i + 1).drop_last() =~= us.take(i as int));
        assert(us.take(i + 1).last() == us[i as int]);
        if db.users[i].status == *status {
            count = count + 1;
        }
        i = i + 1;
    }
    assert(us.take(i as int) =~= us);
    proof {
        lemma_status_count_matches_log(db@.users, db@.reasons, *status);
    }
    count
}

/// Sets the status of `uid` at time `op_time` (milliseconds since the epoch):
/// the user row is overwritten (or created) with the status and reason, then
/// an audit entry is appended.
pub fn do_op_at(
    db: &mut Database,
    uid: i64,
    op: &Status,
    op_role: &str,
    reason: &str,
    op_time: i64,
)
    requires
        old(db)@.wf(),
    ensures
        final(db)@.wf(),
        final(db)@.users == upsert(
            old(db)@.users,
            UserRow { uid, status: *op, last_reason: Some(reason@) },
        ),
        final(db)@.reasons == old(db)@.reasons.push(
            ReasonRow { uid, op: *op, op_role: op_role@, reason: reason@, op_time },
        ),
        final(db)@.keys == old(db)@.keys,
{
    let ghost row = UserRow { uid, status: *op, last_reason: Some(reason@) };
    let ghost entry = ReasonRow { uid, op: *op, op_role: op_role@, reason: reason@, op_time };
    let user = User { uid, status: *op, last_reason: Some(reason.to_owned()) };
    assert(user@ == row);
    match db.find_user_index(uid) {
        Some(i) => {
            proof {
                let c = choose|j: int| 0 <= j < old(db)@.users.len() && old(db)@.users[j].uid == uid;
                assert(c == i as int);
            }
            db.users[i] = user;
            assert(db@.users =~= old(db)@.users.update(i as int, row));
        },
        None => {
            db.users.push(user);
            assert(db@.users =~= old(db)@.users.push(row));
        },
    }
    let log = Reason {
        uid,
        op: *op,
        op_role: op_role.to_owned(),
        reason: reason.to_owned(),
        op_time,
    };
    db.reasons.push(log);
    assert(db@.reasons =~= old(db)@.reasons.push(entry));
    assert(db@.keys =~= old(db)@.keys);
    proof {
        lemma_record_keeps_consistent(old(db)@.users, old(db)@.reasons, entry);
    }
}

/// Sets the status of `uid` now: as `do_op_at`, stamped with the current time.
pub fn do_op(db: &mut Database, uid: i64, op: &Status, op_role: &str, reason: &str)
    requires
        old(db)@.wf(),
    ensures
        final(db)@.wf(),
        final(db)@.users == upsert(
            old(db)@.users,
            UserRow { uid, status: *op, last_reason: Some(reason@) },
        ),
        exists|t: i64|
            t >= 0 && final(db)@.reasons == old(db)@.reasons.push(
                ReasonRow { uid, op: *op, op_role: op_role@, reason: reason@, op_time: t },
            ),
        final(db)@.keys == old(db)@.keys,
{
    let now = crate::clock::current_milliseconds();
    do_op_at(db, uid, op, op_role, reason, now);
}

} // verus!
