//! Identifiers of stores and rows, and the opaque row record.

use vstd::prelude::*;

verus! {

/// Identifies one row store. Ids are handed out in increasing order from 0.
#[derive(Debug, Eq, PartialEq, Clone, Copy, Hash, Structural)]
pub struct StoreId(pub u64);

pub type TupleIndex = u32;

/// Identifies one row: the store it lives in and its slot there.
#[derive(Debug, Eq, PartialEq, Clone, Copy, Hash, Structural)]
pub struct TupleId {
    pub store_id: StoreId,
    pub slot_index: TupleIndex,
}

/// The bytes of one row, as laid out by the codec.
#[derive(Debug, Eq, PartialEq)]
pub struct TupleRecord(pub Vec<u8>);

impl View for TupleRecord {
    type V = Seq<u8>;

    open spec fn view(&self) -> Seq<u8> {
        self.0@
    }
}

impl Clone for TupleRecord {
    fn clone(&self) -> (r: Self)
        ensures
            r@ == self@,
    {
        TupleRecord(self.0.clone())
    }
}

/// A row together with its identity.
pub struct Tuple {
    pub id: TupleId,
    pub record: TupleRecord,
}

impl TupleRecord {
    /// The bytes of `t1` followed by the bytes of `t2`.
    pub fn concat(t1: &TupleRecord, t2: &TupleRecord) -> (r: Self)
        ensures
            r@ == t1@ + t2@,
    {
        let mut bytes = t1.0.clone();
        let mut i: usize = 0;
        while i < t2.0.len()
            invariant
                i <= t2.0.len(),
                bytes@ == t1@ + t2@.subrange(0, i as int),
            decreases t2.0.len() - i,
        {
            bytes.push(t2.0[i]);
            i += 1;
        }
        assert(t2@.subrange(0, t2@.len() as int) == t2@);
        TupleRecord(bytes)
    }
}

} // verus!
