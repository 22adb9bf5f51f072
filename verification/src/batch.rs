//! Building a batch of votes: which counter each transaction carries, and in
//! which order the signed transactions go to the backend.

use vstd::prelude::*;
use crate::error::WalletError;
use crate::fragment::{FragmentId, FragmentRecord, TransactionPayload};
use crate::ledger::{AccountState, Choice, Proposal, Settings};
use crate::wallet::VoteRequest;

verus! {

/// A signed transaction as a mathematical value.
pub struct PayloadView {
    pub bytes: Seq<u8>,
    pub id: FragmentId,
}

impl View for TransactionPayload {
    type V = PayloadView;

    open spec fn view(&self) -> PayloadView {
        PayloadView { bytes: self.bytes@, id: self.id }
    }
}

/// What goes to the backend in one call.
#[derive(Clone, Debug, PartialEq, Eq)]
pub struct Submission {
    /// The signed transactions, in the order in which they are sent.
    pub fragments: Vec<Vec<u8>>,
    /// Whether the backend is asked in the second version of its protocol.
    pub use_v1: bool,
}

/// The counter of the transaction at place `k` of a batch that starts at the
/// counter `base`.
pub open spec fn batch_counter(base: u32, k: int) -> int {
    base + k
}

/// Whether a batch of `n` votes that starts at the counter `base` stays
/// within the counters an account can have.
pub open spec fn batch_fits(base: u32, n: int) -> bool {
    n == 0 || batch_counter(base, n - 1) <= u32::MAX
}

/// The requests of a batch: one for each vote, in the order of the votes,
/// all on the balance of `state`, with counters that start at the counter of
/// `state` and go up by one.
pub open spec fn batch_requests(
    settings: Settings,
    votes: Seq<(&Proposal, Choice)>,
    state: AccountState,
) -> Seq<VoteRequest> {
    Seq::new(
        votes.len(),
        |k: int|
            VoteRequest {
                settings,
                proposal: *votes[k].0,
                choice: votes[k].1,
                value: state.value(),
                counter: batch_counter(state.counter(), k) as u32,
            },
    )
}

/// What the signing engine answered for each request of a batch.
pub open spec fn signed_view(signed: Seq<Result<TransactionPayload, WalletError>>) -> Seq<
    Result<PayloadView, WalletError>,
> {
    Seq::new(
        signed.len(),
        |k: int|
            match signed[k] {
                Ok(payload) => Ok(payload@),
                Err(e) => Err(e),
            },
    )
}

/// How many answers stand before the first failure.
pub open spec fn signed_count(signed: Seq<Result<PayloadView, WalletError>>) -> int
    decreases signed.len(),
{
    if signed.len() == 0 {
        0
    } else if signed.first() is Err {
        0
    } else {
        1 + signed_count(signed.drop_first())
    }
}

/// The records of the first `n` transactions of `signed`, in their order,
/// none confirmed.
pub open spec fn signed_records(signed: Seq<Result<PayloadView, WalletError>>, n: int) -> Seq<
    FragmentRecord,
> {
    Seq::new(n as nat, |k: int| FragmentRecord { id: signed[k]->Ok_0.id, confirmed: false })
}

/// The bytes of the transactions of `signed`, the last one first.
pub open spec fn reversed_bytes(signed: Seq<Result<PayloadView, WalletError>>) -> Seq<Seq<u8>> {
    Seq::new(signed.len(), |k: int| signed[signed.len() - 1 - k]->Ok_0.bytes)
}

/// The transactions of a submission as mathematical values.
pub open spec fn fragments_view(fragments: Seq<Vec<u8>>) -> Seq<Seq<u8>> {
    Seq::new(fragments.len(), |k: int| fragments[k]@)
}

/// The counters of a batch start at the account's counter, go up by one from
/// each transaction to the next, and never repeat.
pub proof fn lemma_batch_counters_contiguous(
    settings: Settings,
    votes: Seq<(&Proposal, Choice)>,
    state: AccountState,
)
    requires
        batch_fits(state.counter(), votes.len() as int),
    ensures
        batch_requests(settings, votes, state).len() == votes.len(),
        votes.len() > 0 ==> batch_requests(settings, votes, state)[0].counter == state.counter(),
        forall|k: int|
            0 <= k < votes.len() ==> #[trigger] batch_requests(settings, votes, state)[k].counter
                == state.counter() + k,
        forall|k: int|
            0 < k < votes.len() ==> #[trigger] batch_requests(settings, votes, state)[k].counter
                == batch_requests(settings, votes, state)[k - 1].counter + 1,
        forall|j: int, k: int|
            0 <= j < votes.len() && 0 <= k < votes.len() && j != k ==> #[trigger] batch_requests(
                settings,
                votes,
                state,
            )[j].counter != #[trigger] batch_requests(settings, votes, state)[k].counter,
{
}

/// Where every answer is a transaction, all of them count.
pub proof fn lemma_signed_count_all(signed: Seq<Result<PayloadView, WalletError>>)
    requires
        forall|k: int| 0 <= k < signed.len() ==> signed[k] is Ok,
    ensures
        signed_count(signed) == signed.len(),
    decreases signed.len(),
{
    if signed.len() > 0 {
        lemma_signed_count_all(signed.drop_first());
    }
}

/// The answers before the first failure are transactions, and the answer at
/// that place, if there is one, is the failure.
pub proof fn lemma_signed_count(signed: Seq<Result<PayloadView, WalletError>>)
    ensures
        0 <= signed_count(signed) <= signed.len(),
        forall|k: int| 0 <= k < signed_count(signed) ==> signed[k] is Ok,
        signed_count(signed) < signed.len() ==> signed[signed_count(signed)] is Err,
    decreases signed.len(),
{
    if signed.len() > 0 && signed.first() is Ok {
        let rest = signed.drop_first();
        lemma_signed_count(rest);
        assert forall|k: int| 0 <= k < signed_count(signed) implies signed[k] is Ok by {
            if k > 0 {
                assert(signed[k] == rest[k - 1]);
            }
        }
        if signed_count(signed) < signed.len() {
            assert(signed[signed_count(signed)] == rest[signed_count(rest)]);
        }
    }
}

} // verus!
