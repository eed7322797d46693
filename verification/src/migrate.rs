//! The fixed, ordered migration set applied once at setup, and the planning
//! rule that makes re-running setup a no-op: a migration already recorded as
//! applied is never planned again.

use vstd::prelude::*;

verus! {

/// One schema migration: a version number and the statement that brings the
/// schema to it.
#[derive(Clone, Debug)]
pub struct Migration {
    pub version: u64,
    pub statement: String,
}

/// The migration stands (by content) below position `n` of the set.
pub open spec fn from_set(all: Seq<Migration>, n: int, m: Migration) -> bool {
    exists|k: int| #![trigger all[k]] 0 <= k < n && same_migration(m, all[k])
}

/// Two migrations carry the same version and statement text.
pub open spec fn same_migration(a: Migration, b: Migration) -> bool {
    a.version == b.version && a.statement@ == b.statement@
}

/// Versions grow strictly along the set: the order of application.
pub open spec fn versions_ascending(ms: Seq<Migration>) -> bool {
    forall|i: int, j: int|
        #![trigger ms[i], ms[j]]
        0 <= i < j < ms.len() ==> ms[i].version < ms[j].version
}

/// The statement of the journal's only migration: one relation, keyed by
/// `(id, sequence_id)` so a duplicate insert violates the primary key.
pub open spec fn journal_schema_sql() -> Seq<char> {
    "CREATE TABLE IF NOT EXISTS journal(id TEXT NOT NULL, sequence_id INTEGER NOT NULL, registry_key TEXT NOT NULL, bytes BLOB NOT NULL, created_at INTEGER NOT NULL, PRIMARY KEY(id, sequence_id))"@
}

/// The journal schema statement, as text.
pub fn journal_schema() -> (s: &'static str)
    ensures
        s@ == journal_schema_sql(),
{
    "CREATE TABLE IF NOT EXISTS journal(id TEXT NOT NULL, sequence_id INTEGER NOT NULL, registry_key TEXT NOT NULL, bytes BLOB NOT NULL, created_at INTEGER NOT NULL, PRIMARY KEY(id, sequence_id))"
}

/// The fixed migration set, versions ascending from one.
pub fn migration_set() -> (v: Vec<Migration>)
    ensures
        v@.len() == 1,
        v@[0].version == 1,
        v@[0].statement@ == journal_schema_sql(),
        versions_ascending(v@),
{
    let mut v: Vec<Migration> = Vec::new();
    v.push(Migration { version: 1, statement: journal_schema().to_owned() });
    v
}

/// The migrations still to run against a store whose recorded schema version
/// is `applied`: exactly those with a greater version, in order.
#[verifier::rlimit(100)]
pub fn pending_after(all: &Vec<Migration>, applied: u64) -> (v: Vec<Migration>)
    requires
        versions_ascending(all@),
    ensures
        versions_ascending(v@),
        forall|i: int| #![trigger v@[i]] 0 <= i < v@.len() ==> v@[i].version > applied,
        forall|i: int|
            #![trigger v@[i]]
            0 <= i < v@.len() ==> from_set(all@, all@.len() as int, v@[i]),
        forall|k: int|
            #![trigger all@[k]]
            0 <= k < all@.len() && all@[k].version > applied ==> exists|i: int|
                #![trigger v@[i]]
                0 <= i < v@.len() && same_migration(v@[i], all@[k]),
{
    let mut v: Vec<Migration> = Vec::new();
    let mut k: usize = 0;
    while k < all.len()
        invariant
            k <= all@.len(),
            versions_ascending(all@),
            versions_ascending(v@),
            forall|i: int| #![trigger v@[i]] 0 <= i < v@.len() ==> v@[i].version > applied,
            forall|i: int|
                #![trigger v@[i]]
                0 <= i < v@.len() ==> from_set(all@, k as int, v@[i]),
            forall|k2: int|
                #![trigger all@[k2]]
                0 <= k2 < k && all@[k2].version > applied ==> exists|i: int|
                    #![trigger v@[i]]
                    0 <= i < v@.len() && same_migration(v@[i], all@[k2]),
        decreases all@.len() - k,
    {
        let m = &all[k];
        if m.version > applied {
            proof {
                assert forall|i: int| #![trigger v@[i]]
                    0 <= i < v@.len() implies v@[i].version < all@[k as int].version by {
                    let k2 = choose|k2: int|
                        #![trigger all@[k2]]
                        0 <= k2 < k && same_migration(v@[i], all@[k2]);
                    assert(all@[k2].version < all@[k as int].version);
                }
            }
            let dup = Migration { version: m.version, statement: m.statement.clone() };
            let ghost old_v = v@;
            v.push(dup);
            proof {
                assert(v@ == old_v.push(dup));
                assert(same_migration(v@[old_v.len() as int], all@[k as int]));
                assert forall|i: int| #![trigger v@[i]]
                    0 <= i < v@.len() implies from_set(all@, k + 1, v@[i]) by {
                    if i < old_v.len() {
                        let k2 = choose|k2: int|
                            #![trigger all@[k2]]
                            0 <= k2 < k && same_migration(old_v[i], all@[k2]);
                        assert(0 <= k2 < k + 1 && same_migration(v@[i], all@[k2]));
                    } else {
                        assert(0 <= k < k + 1 && same_migration(v@[i], all@[k as int]));
                    }
                }
                assert forall|k2: int| #![trigger all@[k2]]
                    0 <= k2 < k + 1 && all@[k2].version > applied implies exists|i: int|
                    #![trigger v@[i]]
                    0 <= i < v@.len() && same_migration(v@[i], all@[k2]) by {
                    if k2 == k {
                        assert(same_migration(v@[old_v.len() as int], all@[k2]));
                    } else {
                        let i = choose|i: int|
                            #![trigger old_v[i]]
                            0 <= i < old_v.len() && same_migration(old_v[i], all@[k2]);
                        assert(same_migration(v@[i], all@[k2]));
                    }
                }
            }
        }
        k = k + 1;
    }
    v
}

/// Setup is idempotent: against a store whose recorded version already
/// covers every migration of the set, the plan is empty — a second setup
/// neither duplicates schema objects nor touches existing records.
pub proof fn lemma_setup_idempotent(all: Seq<Migration>, applied: u64, v: Seq<Migration>)
    requires
        forall|k: int| #![trigger all[k]] 0 <= k < all.len() ==> all[k].version <= applied,
        forall|i: int| #![trigger v[i]] 0 <= i < v.len() ==> v[i].version > applied,
        forall|i: int| #![trigger v[i]] 0 <= i < v.len() ==> from_set(all, all.len() as int, v[i]),
    ensures
        v.len() == 0,
{
    if v.len() > 0 {
        assert(v[0].version > applied);
        let k = choose|k: int| #![trigger all[k]] 0 <= k < all.len() && same_migration(v[0], all[k]);
        assert(all[k].version <= applied);
    }
}

} // verus!
