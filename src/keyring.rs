use vstd::prelude::*;

use crate::records::KeyRow;

verus! {

/// Highest authorization level; reserved for key management.
pub const ROOT_LEVEL: i8 = 127;

/// The first row stored for `key`, as a lookup by key value finds it.
pub open spec fn find_key(rows: Seq<KeyRow>, key: Seq<char>) -> Option<KeyRow>
    decreases rows.len(),
{
    if rows.len() == 0 {
        None
    } else if rows[0].key == key {
        Some(rows[0])
    } else {
        find_key(rows.drop_first(), key)
    }
}

/// Whether `key` is stored and its level is at least `min`.
pub open spec fn key_has_level(rows: Seq<KeyRow>, key: Seq<char>, min: int) -> bool {
    match find_key(rows, key) {
        Some(row) => row.lvl >= min,
        None => false,
    }
}

/// The role stored for `key`, if the key is stored.
pub open spec fn role_of_key(rows: Seq<KeyRow>, key: Seq<char>) -> Option<Seq<char>> {
    match find_key(rows, key) {
        Some(row) => Some(row.role),
        None => None,
    }
}

/// Whether a root-level key is stored.
pub open spec fn has_root_key(rows: Seq<KeyRow>) -> bool {
    exists|i: int| 0 <= i < rows.len() && rows[i].lvl == ROOT_LEVEL
}

/// The stored rows at root level, in storage order.
pub open spec fn root_keys(rows: Seq<KeyRow>) -> Seq<KeyRow> {
    rows.filter(|r: KeyRow| r.lvl == ROOT_LEVEL)
}

/// One letter of a generated key is drawn from this alphabet.
pub open spec fn is_key_letter(c: char) -> bool {
    ('a' <= c && c <= 'z') || ('A' <= c && c <= 'Z')
}

/// A well-formed generated key: 32 ASCII letters.
pub open spec fn is_generated_key(k: Seq<char>) -> bool {
    k.len() == 32 && forall|i: int| 0 <= i < k.len() ==> is_key_letter(#[trigger] k[i])
}

/// No two stored rows carry the same key value.
pub open spec fn keys_unique(rows: Seq<KeyRow>) -> bool {
    forall|i: int, j: int|
        0 <= i < rows.len() && 0 <= j < rows.len() && i != j ==> rows[i].key != rows[j].key
}

/// The root row that start-up initialization creates for key `k`.
pub open spec fn root_row(k: Seq<char>) -> KeyRow {
    KeyRow { key: k, lvl: ROOT_LEVEL as int, role: "admin"@ }
}

/// The effect of start-up initialization on the key table: nothing when a
/// root key exists; otherwise one new root key with role "admin", unless the
/// drawn key was already stored, in which case nothing.
pub open spec fn bootstrapped(before: Seq<KeyRow>, after: Seq<KeyRow>) -> bool {
    if has_root_key(before) {
        after == before
    } else {
        after == before || exists|k: Seq<char>|
            is_generated_key(k) && find_key(before, k) is None && after == before.push(root_row(k))
    }
}

/// Appending a row for a key that was not stored makes a lookup find that row.
pub proof fn lemma_find_pushed(rows: Seq<KeyRow>, row: KeyRow)
    requires
        find_key(rows, row.key) is None,
    ensures
        find_key(rows.push(row), row.key) == Some(row),
    decreases rows.len(),
{
    if rows.len() > 0 {
        assert(rows.push(row).drop_first() =~= rows.drop_first().push(row));
        lemma_find_pushed(rows.drop_first(), row);
    }
}

/// Removing every row of a key leaves nothing to find for it.
pub proof fn lemma_find_removed(rows: Seq<KeyRow>, key: Seq<char>)
    ensures
        find_key(rows.filter(|r: KeyRow| r.key != key), key) is None,
    decreases rows.len(),
{
    let kept = rows.filter(|r: KeyRow| r.key != key);
    if kept.len() > 0 {
        assert forall|i: int| 0 <= i < kept.len() implies kept[i].key != key by {
            rows.lemma_filter_pred(|r: KeyRow| r.key != key, i);
        }
        lemma_find_absent(kept, key);
    }
}

/// A lookup finds nothing when no row carries the key.
pub proof fn lemma_find_absent(rows: Seq<KeyRow>, key: Seq<char>)
    requires
        forall|i: int| 0 <= i < rows.len() ==> rows[i].key != key,
    ensures
        find_key(rows, key) is None,
    decreases rows.len(),
{
    if rows.len() > 0 {
        lemma_find_absent(rows.drop_first(), key);
    }
}

/// No root row is kept by the root filter when none is stored.
proof fn lemma_no_root_rows(rows: Seq<KeyRow>)
    requires
        !has_root_key(rows),
    ensures
        root_keys(rows).len() == 0,
    decreases rows.len(),
{
    reveal(Seq::filter);
    if rows.len() > 0 {
        lemma_no_root_rows(rows.drop_last());
    }
}

/// A key generated at a level at least `min`, and not stored before, passes a
/// check at `min`; one generated below `min` fails it.
pub proof fn lemma_generated_key_level(rows: Seq<KeyRow>, row: KeyRow, min: int)
    requires
        find_key(rows, row.key) is None,
    ensures
        key_has_level(rows.push(row), row.key, min) == (row.lvl >= min),
{
    lemma_find_pushed(rows, row);
}

/// After a key is revoked, no check on it passes, whatever the level asked.
pub proof fn lemma_revoked_key_fails(rows: Seq<KeyRow>, key: Seq<char>, min: int)
    ensures
        !key_has_level(rows.filter(|r: KeyRow| r.key != key), key, min),
{
    lemma_find_removed(rows, key);
}

proof fn lemma_single_root(a: Seq<KeyRow>, k: Seq<char>)
    requires
        !has_root_key(a),
    ensures
        root_keys(a.push(root_row(k))) == seq![root_row(k)],
{
    lemma_no_root_rows(a);
    reveal(Seq::filter);
    assert(a.push(root_row(k)).drop_last() =~= a);
    assert(root_keys(a.push(root_row(k))) =~= root_keys(a).push(root_row(k)));
}

/// Initializing twice in a row, from a table without a root key, leaves
/// exactly one root key, and its role is "admin" (unless neither run could
/// store its drawn key, when no root key exists at all).
pub proof fn lemma_bootstrap_twice(a: Seq<KeyRow>, b: Seq<KeyRow>, c: Seq<KeyRow>)
    requires
        !has_root_key(a),
        bootstrapped(a, b),
        bootstrapped(b, c),
        has_root_key(c),
    ensures
        root_keys(c).len() == 1,
        root_keys(c)[0].role == "admin"@,
{
    if b == a {
        let k = choose|k: Seq<char>|
            is_generated_key(k) && find_key(b, k) is None && c == b.push(root_row(k));
        lemma_single_root(a, k);
    } else {
        let k = choose|k: Seq<char>|
            is_generated_key(k) && find_key(a, k) is None && b == a.push(root_row(k));
        assert(b[a.len() as int] == root_row(k));
        assert(has_root_key(b));
        lemma_single_root(a, k);
    }
}

/// A lookup that finds nothing means no row carries the key.
pub proof fn lemma_find_none(rows: Seq<KeyRow>, key: Seq<char>)
    requires
        find_key(rows, key) is None,
    ensures
        forall|i: int| 0 <= i < rows.len() ==> rows[i].key != key,
    decreases rows.len(),
{
    if rows.len() > 0 {
        lemma_find_none(rows.drop_first(), key);
        assert forall|i: int| 0 <= i < rows.len() implies rows[i].key != key by {
            if i > 0 {
                assert(rows[i] == rows.drop_first()[i - 1]);
            }
        }
    }
}

/// Removing rows keeps distinct key values distinct.
pub proof fn lemma_filter_unique(rows: Seq<KeyRow>, keep: spec_fn(KeyRow) -> bool)
    requires
        keys_unique(rows),
    ensures
        keys_unique(rows.filter(keep)),
        forall|i: int|
            0 <= i < rows.filter(keep).len() ==> exists|j: int|
                0 <= j < rows.len() && rows[j].key == #[trigger] rows.filter(keep)[i].key,
    decreases rows.len(),
{
    reveal(Seq::filter);
    if rows.len() > 0 {
        let init = rows.drop_last();
        assert(keys_unique(init));
        lemma_filter_unique(init, keep);
        let f0 = init.filter(keep);
        assert forall|i: int| 0 <= i < f0.len() implies #[trigger] f0[i].key != rows.last().key by {
            let j = choose|j: int| 0 <= j < init.len() && init[j].key == f0[i].key;
            assert(rows[j] == init[j]);
        }
        if keep(rows.last()) {
            assert(rows.filter(keep) == f0.push(rows.last()));
        } else {
            assert(rows.filter(keep) == f0);
        }
        assert forall|i: int| 0 <= i < rows.filter(keep).len() implies exists|j: int|
            0 <= j < rows.len() && rows[j].key == #[trigger] rows.filter(keep)[i].key by {
            if i < f0.len() {
                let j = choose|j: int| 0 <= j < init.len() && init[j].key == f0[i].key;
                assert(rows[j] == init[j]);
            } else {
                assert(rows[rows.len() - 1].key == rows.filter(keep)[i].key);
            }
        }
    }
}

/// The row that a lookup finds is one of the stored rows.
pub proof fn lemma_found_row_is_stored(rows: Seq<KeyRow>, key: Seq<char>)
    requires
        find_key(rows, key) is Some,
    ensures
        exists|i: int| 0 <= i < rows.len() && rows[i] == find_key(rows, key)->0,
    decreases rows.len(),
{
    if rows[0].key != key {
        lemma_found_row_is_stored(rows.drop_first(), key);
        let i = choose|i: int|
            0 <= i < rows.drop_first().len() && rows.drop_first()[i] == find_key(rows.drop_first(), key)->0;
        assert(rows[i + 1] == rows.drop_first()[i]);
    } else {
        assert(rows[0] == find_key(rows, key)->0);
    }
}

/// Removing rows keeps every remaining level in range.
pub proof fn lemma_filter_levels(rows: Seq<KeyRow>, keep: spec_fn(KeyRow) -> bool)
    requires
        forall|i: int| 0 <= i < rows.len() ==> 0 <= #[trigger] rows[i].lvl <= ROOT_LEVEL,
    ensures
        forall|i: int|
            0 <= i < rows.filter(keep).len() ==> 0 <= #[trigger] rows.filter(keep)[i].lvl <= ROOT_LEVEL,
    decreases rows.len(),
{
    reveal(Seq::filter);
    if rows.len() > 0 {
        lemma_filter_levels(rows.drop_last(), keep);
        let f0 = rows.drop_last().filter(keep);
        if keep(rows.last()) {
            assert(rows.filter(keep) == f0.push(rows.last()));
        } else {
            assert(rows.filter(keep) == f0);
        }
        assert forall|i: int| 0 <= i < rows.filter(keep).len() implies 0 <= #[trigger] rows.filter(
            keep,
        )[i].lvl <= ROOT_LEVEL by {
            if i < f0.len() {
                assert(rows.filter(keep)[i] == f0[i]);
            }
        }
    }
}

} // verus!
