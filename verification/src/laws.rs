//! The journal's cross-operation guarantees, proved once and for all over
//! the same models the operations' contracts speak of.

use vstd::prelude::*;

use crate::journal::{contains_key, key_matches, same_key, unique_keys};
use crate::record::RecordModel;

verus! {

/// Write-then-read identity: after a successful write of `r` into a
/// well-formed journal, the point read for `r`'s pair is owed to succeed,
/// and any record it may return for that pair is `r` itself — equal in all
/// five fields.
pub proof fn lemma_write_then_read_identity(jm: Seq<RecordModel>, r: RecordModel, q: RecordModel)
    requires
        unique_keys(jm),
        !contains_key(jm, r.aggregate_id, r.sequence_id),
        jm.push(r).contains(q),
        key_matches(q, r.aggregate_id, r.sequence_id),
    ensures
        q == r,
        contains_key(jm.push(r), r.aggregate_id, r.sequence_id),
{
    assert(jm.push(r)[jm.len() as int] == r);
    assert(key_matches(r, r.aggregate_id, r.sequence_id));
    let i = choose|i: int| 0 <= i < jm.push(r).len() && jm.push(r)[i] == q;
    if i < jm.len() {
        assert(jm[i] == q);
        assert(contains_key(jm, r.aggregate_id, r.sequence_id));
    }
}

/// Uniqueness: once `r` is written for a free pair, a second record `r2`
/// claiming the same pair finds it taken — so by the write contract the
/// second write fails and the journal stays unchanged — and the record
/// readable for the pair is still `r`, unchanged.
pub proof fn lemma_duplicate_write_rejected(
    jm: Seq<RecordModel>,
    r: RecordModel,
    r2: RecordModel,
    q: RecordModel,
)
    requires
        unique_keys(jm),
        !contains_key(jm, r.aggregate_id, r.sequence_id),
        same_key(r2, r),
        jm.push(r).contains(q),
        key_matches(q, r2.aggregate_id, r2.sequence_id),
    ensures
        contains_key(jm.push(r), r2.aggregate_id, r2.sequence_id),
        q == r,
{
    assert(jm.push(r)[jm.len() as int] == r);
    assert(key_matches(r, r2.aggregate_id, r2.sequence_id));
    assert(key_matches(q, r.aggregate_id, r.sequence_id));
    lemma_write_then_read_identity(jm, r, q);
}

} // verus!
