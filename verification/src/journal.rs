//! The journal semantics: an append-only collection of event records in
//! which the pair `(aggregate_id, sequence_id)` identifies at most one
//! record. Writing a taken pair is a conflict; a point read returns the
//! record written for the pair, unchanged; a range read returns the records
//! of one aggregate inside an inclusive sequence interval, duplicate-free
//! and ordered by sequence number ascending.

use vstd::prelude::*;

use crate::errors::{translate, Operation, StoreError};
use crate::record::{EventRecord, RecordModel};

verus! {

/// The record carries exactly this aggregate identity and sequence number.
pub open spec fn key_matches(r: RecordModel, aggregate_id: Seq<char>, sequence_id: int) -> bool {
    r.aggregate_id == aggregate_id && r.sequence_id == sequence_id
}

/// Two records claim the same `(aggregate_id, sequence_id)` pair.
pub open spec fn same_key(a: RecordModel, b: RecordModel) -> bool {
    a.aggregate_id == b.aggregate_id && a.sequence_id == b.sequence_id
}

/// No two records of the journal share a `(aggregate_id, sequence_id)` pair:
/// the uniqueness invariant the schema's constraint enforces.
pub open spec fn unique_keys(s: Seq<RecordModel>) -> bool {
    forall|i: int, j: int| 0 <= i < j < s.len() ==> !same_key(s[i], s[j])
}

/// Some record of `s` carries this `(aggregate_id, sequence_id)` pair.
pub open spec fn contains_key(
    s: Seq<RecordModel>,
    aggregate_id: Seq<char>,
    sequence_id: int,
) -> bool {
    exists|i: int| 0 <= i < s.len() && key_matches(#[trigger] s[i], aggregate_id, sequence_id)
}

/// The record belongs to this aggregate and its sequence number lies in the
/// inclusive interval `[from, to]`.
pub open spec fn in_range(r: RecordModel, aggregate_id: Seq<char>, from: int, to: int) -> bool {
    r.aggregate_id == aggregate_id && from <= r.sequence_id && r.sequence_id <= to
}

/// The journal: the store's append-only record collection, in write order.
pub struct Journal {
    records: Vec<EventRecord>,
}

impl View for Journal {
    type V = Seq<RecordModel>;

    closed spec fn view(&self) -> Seq<RecordModel> {
        Seq::new(self.records@.len(), |i: int| self.records@[i]@)
    }
}

impl Journal {
    /// Well-formed: the uniqueness invariant holds. Every constructor
    /// establishes it and every operation preserves it.
    pub open spec fn wf(&self) -> bool {
        unique_keys(self@)
    }

    /// A fresh journal holds no records.
    pub fn new() -> (j: Journal)
        ensures
            j.wf(),
            j@ == Seq::<RecordModel>::empty(),
    {
        let j = Journal { records: Vec::new() };
        proof {
            assert(j@ =~= Seq::<RecordModel>::empty());
        }
        j
    }

    /// The position of the record carrying the pair, if any.
    fn locate(&self, aggregate_id: &String, sequence_id: i64) -> (r: Option<usize>)
        ensures
            match r {
                Some(i) => 0 <= i < self@.len() && key_matches(
                    self@[i as int],
                    aggregate_id@,
                    sequence_id as int,
                ),
                None => !contains_key(self@, aggregate_id@, sequence_id as int),
            },
    {
        let mut i: usize = 0;
        while i < self.records.len()
            invariant
                i <= self.records.len(),
                self@.len() == self.records@.len(),
                forall|k: int|
                    0 <= k < i ==> !key_matches(#[trigger] self@[k], aggregate_id@, sequence_id as int),
            decreases self.records.len() - i,
        {
            let rec = &self.records[i];
            if rec.aggregate_id == *aggregate_id && rec.sequence_id == sequence_id {
                return Some(i);
            }
            i = i + 1;
        }
        None
    }

    /// Append one record. Succeeds exactly when its `(aggregate_id,
    /// sequence_id)` pair is free; a taken pair is a conflict, surfaced as a
    /// write failure with the journal unchanged.
    pub fn write(&mut self, record: EventRecord) -> (r: Result<(), StoreError>)
        requires
            old(self).wf(),
        ensures
            final(self).wf(),
            match r {
                Ok(()) => {
                    &&& !contains_key(old(self)@, record@.aggregate_id, record@.sequence_id)
                    &&& final(self)@ == old(self)@.push(record@)
                },
                Err(e) => {
                    &&& e.kind() == Operation::Write
                    &&& contains_key(old(self)@, record@.aggregate_id, record@.sequence_id)
                    &&& final(self)@ == old(self)@
                },
            },
    {
        match self.locate(&record.aggregate_id, record.sequence_id) {
            Some(_) => Err(
                translate(
                    Operation::Write,
                    "UNIQUE constraint: a record with this (aggregate_id, sequence_id) exists".to_owned(),
                ),
            ),
            None => {
                let ghost before = self@;
                let ghost rm = record@;
                self.records.push(record);
                proof {
                    assert(self@ =~= before.push(rm));
                    assert forall|i: int, j: int|
                        0 <= i < j < self@.len() implies !same_key(self@[i], self@[j]) by {
                        if j == self@.len() - 1 {
                            if same_key(before[i], rm) {
                                assert(key_matches(before[i], rm.aggregate_id, rm.sequence_id));
                                assert(contains_key(before, rm.aggregate_id, rm.sequence_id));
                            }
                        }
                    }
                }
                Ok(())
            },
        }
    }

    /// Point lookup. Returns the record previously written for the pair,
    /// equal in all five fields; a pair never written is a read failure.
    pub fn read(&self, aggregate_id: &str, sequence_id: i64) -> (r: Result<EventRecord, StoreError>)
        requires
            self.wf(),
        ensures
            r is Ok <==> contains_key(self@, aggregate_id@, sequence_id as int),
            match r {
                Ok(rec) => {
                    &&& self@.contains(rec@)
                    &&& key_matches(rec@, aggregate_id@, sequence_id as int)
                },
                Err(e) => e.kind() == Operation::Read,
            },
    {
        let id: String = aggregate_id.to_owned();
        match self.locate(&id, sequence_id) {
            Some(i) => {
                let rec = self.records[i].duplicate();
                proof {
                    assert(self@[i as int] == rec@);
                    assert(self@.contains(rec@));
                }
                Ok(rec)
            },
            None => Err(
                translate(
                    Operation::Read,
                    "no record at this (aggregate_id, sequence_id)".to_owned(),
                ),
            ),
        }
    }

    /// Range lookup over one aggregate, both bounds inclusive. Never a
    /// failure: an empty match is an empty collection. The result holds
    /// exactly the journal's records for the aggregate with sequence number
    /// in `[from, to]`, duplicate-free and ordered by sequence number
    /// strictly ascending.
    /// Range lookup over one aggregate, both bounds inclusive. Never a
    /// failure: an empty match is an empty collection. The result holds
    /// exactly the journal's records for the aggregate with sequence number
    /// in `[from, to]`, duplicate-free and ordered by sequence number
    /// strictly ascending.
    #[verifier::rlimit(100)]
    pub fn read_to(&self, aggregate_id: &str, from: i64, to: i64) -> (r: Result<
        Vec<EventRecord>,
        StoreError,
    >)
        requires
            self.wf(),
        ensures
            r is Ok,
            match r {
                Ok(v) => {
                    &&& forall|i: int, j: int|
                        #![trigger v@[i], v@[j]]
                        0 <= i < j < v@.len() ==> v@[i]@.sequence_id < v@[j]@.sequence_id
                    &&& forall|i: int|
                        #![trigger v@[i]]
                        0 <= i < v@.len() ==> self@.contains(v@[i]@) && in_range(
                            v@[i]@,
                            aggregate_id@,
                            from as int,
                            to as int,
                        )
                    &&& forall|k: int|
                        #![trigger self@[k]]
                        0 <= k < self@.len() && in_range(
                            self@[k],
                            aggregate_id@,
                            from as int,
                            to as int,
                        ) ==> appears_up_to(v@, v@.len() as int, self@[k])
                },
                Err(_) => false,
            },
    {
        let id: String = aggregate_id.to_owned();
        let matched = self.collect_matches(&id, from, to);
        let ghost m = matched@;
        let out = sort_by_sequence(matched);
        proof {
            assert forall|i: int| #![trigger out@[i]]
                0 <= i < out@.len() implies self@.contains(out@[i]@) && in_range(
                out@[i]@,
                aggregate_id@,
                from as int,
                to as int,
            ) by {
                let j = choose|j: int| #![trigger m[j]] 0 <= j < m.len() && m[j]@ == out@[i]@;
                let k = choose|k: int| #![trigger self@[k]]
                    0 <= k < self@.len() && self@[k] == m[j]@;
                assert(self@[k] == out@[i]@);
            }
            assert forall|k: int| #![trigger self@[k]]
                0 <= k < self@.len() && in_range(
                    self@[k],
                    aggregate_id@,
                    from as int,
                    to as int,
                ) implies appears_up_to(out@, out@.len() as int, self@[k]) by {
                let j = choose|j: int| #![trigger m[j]] 0 <= j < m.len() && m[j]@ == self@[k];
                assert(appears_up_to(out@, out@.len() as int, m[j]@));
            }
        }
        Ok(out)
    }

    /// The journal's records for one aggregate inside `[from, to]`, in write
    /// order. No two of them share a sequence number: they all belong to one
    /// aggregate, so the uniqueness invariant separates their sequences.
    #[verifier::rlimit(100)]
    fn collect_matches(&self, id: &String, from: i64, to: i64) -> (out: Vec<EventRecord>)
        requires
            self.wf(),
        ensures
            forall|i: int|
                #![trigger out@[i]]
                0 <= i < out@.len() ==> in_range(out@[i]@, id@, from as int, to as int),
            forall|i: int|
                #![trigger out@[i]]
                0 <= i < out@.len() ==> model_up_to(self@, self@.len() as int, out@[i]@),
            forall|k: int|
                #![trigger self@[k]]
                0 <= k < self@.len() && in_range(self@[k], id@, from as int, to as int)
                    ==> appears_up_to(out@, out@.len() as int, self@[k]),
            forall|i: int, j: int|
                #![trigger out@[i], out@[j]]
                0 <= i < j < out@.len() ==> out@[i]@.sequence_id != out@[j]@.sequence_id,
    {
        let mut out: Vec<EventRecord> = Vec::new();
        let mut k: usize = 0;
        while k < self.records.len()
            invariant
                k <= self.records.len(),
                self.wf(),
                self@.len() == self.records@.len(),
                forall|i: int|
                    #![trigger out@[i]]
                    0 <= i < out@.len() ==> in_range(out@[i]@, id@, from as int, to as int),
                forall|i: int|
                    #![trigger out@[i]]
                    0 <= i < out@.len() ==> model_up_to(self@, k as int, out@[i]@),
                forall|k2: int|
                    #![trigger self@[k2]]
                    0 <= k2 < k && in_range(self@[k2], id@, from as int, to as int)
                        ==> appears_up_to(out@, out@.len() as int, self@[k2]),
                forall|i: int, j: int|
                    #![trigger out@[i], out@[j]]
                    0 <= i < j < out@.len() ==> out@[i]@.sequence_id != out@[j]@.sequence_id,
            decreases self.records.len() - k,
        {
            let rec = &self.records[k];
            if rec.aggregate_id == *id && from <= rec.sequence_id && rec.sequence_id <= to {
                proof {
                    assert(in_range(self@[k as int], id@, from as int, to as int));
                    assert forall|i: int| #![trigger out@[i]]
                        0 <= i < out@.len() implies out@[i]@.sequence_id != rec@.sequence_id by {
                        let k2 = choose|k2: int| #![trigger self@[k2]]
                            0 <= k2 < k && self@[k2] == out@[i]@;
                        if out@[i]@.sequence_id == rec@.sequence_id {
                            assert(same_key(self@[k2], self@[k as int]));
                        }
                    }
                }
                let dup = rec.duplicate();
                let ghost old_out = out@;
                out.push(dup);
                proof {
                    assert(out@ == old_out.push(dup));
                    assert(out@[old_out.len() as int]@ == self@[k as int]);
                    assert forall|i: int| #![trigger out@[i]]
                        0 <= i < out@.len() implies in_range(out@[i]@, id@, from as int, to as int)
                        && model_up_to(self@, k + 1, out@[i]@) by {
                        if i < old_out.len() {
                            assert(out@[i] == old_out[i]);
                            lemma_model_up_to_widen(self@, k as int, k + 1, out@[i]@);
                        } else {
                            assert(out@[i]@ == self@[k as int]);
                        }
                    }
                    assert forall|k2: int| #![trigger self@[k2]]
                        0 <= k2 < k + 1 && in_range(self@[k2], id@, from as int, to as int)
                        implies appears_up_to(out@, out@.len() as int, self@[k2]) by {
                        if k2 == k {
                            assert(out@[old_out.len() as int]@ == self@[k2]);
                        } else {
                            lemma_appears_up_to_push(old_out, dup, self@[k2]);
                        }
                    }
                }
            } else {
                proof {
                    assert(!in_range(self@[k as int], id@, from as int, to as int));
                }
            }
            k = k + 1;
        }
        out
    }
}

/// The record model stands at some position below `n` in the view sequence.
pub open spec fn model_up_to(jm: Seq<RecordModel>, n: int, r: RecordModel) -> bool {
    exists|k: int| #![trigger jm[k]] 0 <= k < n && jm[k] == r
}

/// Some record below position `n` of the collection has this model.
pub open spec fn appears_up_to(s: Seq<EventRecord>, n: int, r: RecordModel) -> bool {
    exists|i: int| #![trigger s[i]] 0 <= i < n && s[i]@ == r
}

proof fn lemma_model_up_to_widen(jm: Seq<RecordModel>, n1: int, n2: int, r: RecordModel)
    requires
        model_up_to(jm, n1, r),
        n1 <= n2,
    ensures
        model_up_to(jm, n2, r),
{
    let k = choose|k: int| #![trigger jm[k]] 0 <= k < n1 && jm[k] == r;
    assert(0 <= k < n2 && jm[k] == r);
}

proof fn lemma_appears_up_to_push(s: Seq<EventRecord>, x: EventRecord, r: RecordModel)
    requires
        appears_up_to(s, s.len() as int, r),
    ensures
        appears_up_to(s.push(x), s.push(x).len() as int, r),
{
    let i = choose|i: int| #![trigger s[i]] 0 <= i < s.len() && s[i]@ == r;
    assert(s.push(x)[i]@ == r);
}

/// Order a collection of records with pairwise distinct sequence numbers by
/// sequence number, strictly ascending, keeping exactly its elements.
#[verifier::rlimit(100)]
fn sort_by_sequence(input: Vec<EventRecord>) -> (out: Vec<EventRecord>)
    requires
        forall|i: int, j: int|
            #![trigger input@[i], input@[j]]
            0 <= i < j < input@.len() ==> input@[i]@.sequence_id != input@[j]@.sequence_id,
    ensures
        forall|i: int, j: int|
            #![trigger out@[i], out@[j]]
            0 <= i < j < out@.len() ==> out@[i]@.sequence_id < out@[j]@.sequence_id,
        forall|i: int|
            #![trigger out@[i]]
            0 <= i < out@.len() ==> appears_up_to(input@, input@.len() as int, out@[i]@),
        forall|j: int|
            #![trigger input@[j]]
            0 <= j < input@.len() ==> appears_up_to(out@, out@.len() as int, input@[j]@),
{
    let mut out: Vec<EventRecord> = Vec::new();
    let mut j: usize = 0;
    while j < input.len()
        invariant
            j <= input@.len(),
            forall|i1: int, j1: int|
                #![trigger input@[i1], input@[j1]]
                0 <= i1 < j1 < input@.len() ==> input@[i1]@.sequence_id
                    != input@[j1]@.sequence_id,
            forall|i1: int, j1: int|
                #![trigger out@[i1], out@[j1]]
                0 <= i1 < j1 < out@.len() ==> out@[i1]@.sequence_id < out@[j1]@.sequence_id,
            forall|i: int|
                #![trigger out@[i]]
                0 <= i < out@.len() ==> appears_up_to(input@, j as int, out@[i]@),
            forall|j2: int|
                #![trigger input@[j2]]
                0 <= j2 < j ==> appears_up_to(out@, out@.len() as int, input@[j2]@),
        decreases input@.len() - j,
    {
        proof {
            assert forall|i: int| #![trigger out@[i]]
                0 <= i < out@.len() implies out@[i]@.sequence_id
                != input@[j as int]@.sequence_id by {
                let j2 = choose|j2: int| #![trigger input@[j2]]
                    0 <= j2 < j && input@[j2]@ == out@[i]@;
                assert(input@[j2]@.sequence_id != input@[j as int]@.sequence_id);
            }
        }
        let dup = input[j].duplicate();
        let ghost old_out = out@;
        insert_sorted(&mut out, dup);
        proof {
            assert forall|i: int| #![trigger out@[i]]
                0 <= i < out@.len() implies appears_up_to(input@, j + 1, out@[i]@) by {
                if out@[i]@ == input@[j as int]@ {
                    assert(0 <= j < j + 1 && input@[j as int]@ == out@[i]@);
                } else {
                    let i2 = choose|i2: int| #![trigger old_out[i2]]
                        0 <= i2 < old_out.len() && old_out[i2]@ == out@[i]@;
                    let j2 = choose|j2: int| #![trigger input@[j2]]
                        0 <= j2 < j && input@[j2]@ == old_out[i2]@;
                    assert(0 <= j2 < j + 1 && input@[j2]@ == out@[i]@);
                }
            }
            assert forall|j2: int| #![trigger input@[j2]]
                0 <= j2 < j + 1 implies appears_up_to(out@, out@.len() as int, input@[j2]@) by {
                if j2 == j {
                    assert(appears_up_to(out@, out@.len() as int, dup@));
                } else {
                    let i2 = choose|i2: int| #![trigger old_out[i2]]
                        0 <= i2 < old_out.len() && old_out[i2]@ == input@[j2]@;
                    assert(appears_up_to(out@, out@.len() as int, old_out[i2]@));
                }
            }
        }
        j = j + 1;
    }
    out
}

/// Insert one record into a collection kept strictly sorted by sequence
/// number, at its ordered position. The caller guarantees no element already
/// carries the record's sequence number.
#[verifier::rlimit(100)]
fn insert_sorted(out: &mut Vec<EventRecord>, rec: EventRecord)
    requires
        forall|i: int, j: int|
            #![trigger old(out)@[i], old(out)@[j]]
            0 <= i < j < old(out)@.len() ==> old(out)@[i]@.sequence_id
                < old(out)@[j]@.sequence_id,
        forall|i: int|
            #![trigger old(out)@[i]]
            0 <= i < old(out)@.len() ==> old(out)@[i]@.sequence_id != rec@.sequence_id,
    ensures
        final(out)@.len() == old(out)@.len() + 1,
        forall|i: int, j: int|
            #![trigger final(out)@[i], final(out)@[j]]
            0 <= i < j < final(out)@.len() ==> final(out)@[i]@.sequence_id
                < final(out)@[j]@.sequence_id,
        forall|i: int|
            #![trigger final(out)@[i]]
            0 <= i < final(out)@.len() ==> final(out)@[i]@ == rec@ || appears_up_to(
                old(out)@,
                old(out)@.len() as int,
                final(out)@[i]@,
            ),
        appears_up_to(final(out)@, final(out)@.len() as int, rec@),
        forall|i2: int|
            #![trigger old(out)@[i2]]
            0 <= i2 < old(out)@.len() ==> appears_up_to(
                final(out)@,
                final(out)@.len() as int,
                old(out)@[i2]@,
            ),
{
    let mut p: usize = 0;
    while p < out.len() && out[p].sequence_id < rec.sequence_id
        invariant
            p <= out@.len(),
            out@ == old(out)@,
            forall|q: int| #![trigger out@[q]] 0 <= q < p ==> out@[q]@.sequence_id
                < rec@.sequence_id,
        decreases out@.len() - p,
    {
        p = p + 1;
    }
    proof {
        if p < out@.len() {
            assert(out@[p as int]@.sequence_id > rec@.sequence_id);
        }
    }
    let ghost before = out@;
    let ghost rm = rec@;
    out.insert(p, rec);
    proof {
        assert(out@ == before.insert(p as int, rec));
        assert(out@.len() == before.len() + 1);
        assert(out@[p as int]@ == rm);
        assert forall|i: int, j: int|
            #![trigger out@[i], out@[j]]
            0 <= i < j < out@.len() implies out@[i]@.sequence_id < out@[j]@.sequence_id by {
            if i < p && j == p {
                assert(out@[i]@.sequence_id < rm.sequence_id);
            } else if i == p && j > p {
                assert(before[j - 1]@.sequence_id > rm.sequence_id);
            }
        }
        assert forall|i: int| #![trigger out@[i]]
            0 <= i < out@.len() implies out@[i]@ == rm || appears_up_to(
            before,
            before.len() as int,
            out@[i]@,
        ) by {
            if i < p {
                assert(before[i]@ == out@[i]@);
            } else if i > p {
                assert(before[i - 1]@ == out@[i]@);
            }
        }
        assert forall|i2: int| #![trigger before[i2]]
            0 <= i2 < before.len() implies appears_up_to(
            out@,
            out@.len() as int,
            before[i2]@,
        ) by {
            if i2 < p {
                assert(out@[i2]@ == before[i2]@);
            } else {
                assert(out@[i2 + 1]@ == before[i2]@);
            }
        }
    }
}

} // verus!
