//! Fragments: signed transactions as the ledger knows them.

use vstd::prelude::*;

verus! {

/// The identifier of a fragment, derived from its content by the ledger's hash.
#[derive(Clone, Copy, Debug, PartialEq, Eq)]
pub struct FragmentId {
    pub bytes: [u8; 32],
}

impl FragmentId {
    pub fn new(bytes: [u8; 32]) -> (id: FragmentId)
        ensures
            id.bytes == bytes,
    {
        FragmentId { bytes }
    }

    /// Whether two identifiers hold the same bytes.
    pub fn same(&self, other: &FragmentId) -> (b: bool)
        ensures
            b == (*self == *other),
    {
        let mut i: usize = 0;
        while i < 32
            invariant
                i <= 32,
                forall|j: int| 0 <= j < i ==> self.bytes[j] == other.bytes[j],
            decreases 32 - i,
        {
            if self.bytes[i] != other.bytes[i] {
                return false;
            }
            i += 1;
        }
        assert(self.bytes =~= other.bytes);
        true
    }
}

/// A signed transaction: the bytes the backend takes and the identifier the
/// ledger will know them by.
#[derive(Clone, Debug, PartialEq, Eq)]
pub struct TransactionPayload {
    pub bytes: Vec<u8>,
    pub id: FragmentId,
}

/// What a wallet remembers of one fragment it produced.
#[derive(Clone, Copy, Debug, PartialEq, Eq)]
pub struct FragmentRecord {
    pub id: FragmentId,
    pub confirmed: bool,
}

/// `records` after the ledger has confirmed the fragment `id`: every record
/// of that fragment is marked, every other record is as it was.
pub open spec fn confirm_one(records: Seq<FragmentRecord>, id: FragmentId) -> Seq<FragmentRecord> {
    Seq::new(
        records.len(),
        |i: int|
            if records[i].id == id {
                FragmentRecord { id: records[i].id, confirmed: true }
            } else {
                records[i]
            },
    )
}

/// `records` after the ledger has confirmed everything: every record is marked.
pub open spec fn confirm_all(records: Seq<FragmentRecord>) -> Seq<FragmentRecord> {
    Seq::new(records.len(), |i: int| FragmentRecord { id: records[i].id, confirmed: true })
}

/// Whether `records` holds a record of the fragment `id`.
pub open spec fn knows(records: Seq<FragmentRecord>, id: FragmentId) -> bool {
    exists|i: int| 0 <= i < records.len() && #[trigger] records[i].id == id
}

/// Whether `records` holds a confirmed record of the fragment `id`.
pub open spec fn confirmed_in(records: Seq<FragmentRecord>, id: FragmentId) -> bool {
    records.contains(FragmentRecord { id, confirmed: true })
}

/// The identifiers in `records` that are not confirmed yet, in the order of
/// the records.
pub open spec fn pending_ids(records: Seq<FragmentRecord>) -> Seq<FragmentId>
    decreases records.len(),
{
    if records.len() == 0 {
        Seq::empty()
    } else if records.last().confirmed {
        pending_ids(records.drop_last())
    } else {
        pending_ids(records.drop_last()).push(records.last().id)
    }
}

} // verus!
