//! The persisted unit: one immutable event record, and its mathematical
//! shape. Two records are equal exactly when all five fields agree; range
//! reads order records by sequence number.

use vstd::prelude::*;

verus! {

/// One persisted event record.
///
/// The store interprets none of it beyond the key pair: `aggregate_id` is an
/// opaque identifier, `registry_key` tells the consumer how to decode the
/// opaque `bytes`, and `created_at` is a caller-supplied timestamp persisted
/// verbatim.
#[derive(Clone, Debug, PartialEq, Eq)]
pub struct EventRecord {
    pub aggregate_id: String,
    pub sequence_id: i64,
    pub registry_key: String,
    pub bytes: Vec<u8>,
    pub created_at: i64,
}

/// The mathematical shape of a record: what the contracts speak of.
#[verifier::ext_equal]
pub ghost struct RecordModel {
    pub aggregate_id: Seq<char>,
    pub sequence_id: int,
    pub registry_key: Seq<char>,
    pub bytes: Seq<u8>,
    pub created_at: int,
}

impl View for EventRecord {
    type V = RecordModel;

    open spec fn view(&self) -> RecordModel {
        RecordModel {
            aggregate_id: self.aggregate_id@,
            sequence_id: self.sequence_id as int,
            registry_key: self.registry_key@,
            bytes: self.bytes@,
            created_at: self.created_at as int,
        }
    }
}

impl EventRecord {
    /// Field-by-field equality: true exactly when the two records agree in
    /// all five fields.
    pub fn equal_to(&self, other: &EventRecord) -> (r: bool)
        ensures
            r <==> self@ == other@,
    {
        let r = self.aggregate_id == other.aggregate_id && self.sequence_id == other.sequence_id
            && self.registry_key == other.registry_key && self.bytes == other.bytes
            && self.created_at == other.created_at;
        proof {
            if r {
                assert(self.bytes@ =~= other.bytes@);
                assert(self@ =~= other@);
            }
        }
        r
    }

    /// An exact copy: the duplicate has the same five fields.
    pub fn duplicate(&self) -> (r: EventRecord)
        ensures
            r@ == self@,
    {
        let r = EventRecord {
            aggregate_id: self.aggregate_id.clone(),
            sequence_id: self.sequence_id,
            registry_key: self.registry_key.clone(),
            bytes: copy_bytes(&self.bytes),
            created_at: self.created_at,
        };
        proof {
            assert(r@ =~= self@);
        }
        r
    }
}

/// A byte-for-byte copy of an opaque payload.
fn copy_bytes(v: &Vec<u8>) -> (r: Vec<u8>)
    ensures
        r@ == v@,
{
    let mut r: Vec<u8> = Vec::new();
    let mut i: usize = 0;
    while i < v.len()
        invariant
            i <= v.len(),
            r@ == v@.subrange(0, i as int),
        decreases v.len() - i,
    {
        r.push(v[i]);
        i = i + 1;
        proof {
            assert(r@ =~= v@.subrange(0, i as int));
        }
    }
    proof {
        assert(r@ =~= v@);
    }
    r
}

} // verus!
