//! What holds of confirmation, whatever the pool holds.

use vstd::prelude::*;
use crate::fragment::{
    confirm_all, confirm_one, confirmed_in, knows, pending_ids, FragmentId, FragmentRecord,
};
use crate::multi_controller::ControllerView;
use crate::wallet::WalletView;

verus! {

/// Records that are all confirmed leave nothing pending.
pub proof fn lemma_all_confirmed_none_pending(records: Seq<FragmentRecord>)
    requires
        forall|i: int| 0 <= i < records.len() ==> records[i].confirmed,
    ensures
        pending_ids(records) == Seq::<FragmentId>::empty(),
    decreases records.len(),
{
    if records.len() > 0 {
        lemma_all_confirmed_none_pending(records.drop_last());
    }
}

/// Confirming a fragment a second time changes nothing.
pub proof fn lemma_confirm_transaction_idempotent(controller: ControllerView, id: FragmentId)
    ensures
        controller.confirm_transaction(id).confirm_transaction(id) == controller.confirm_transaction(
            id,
        ),
{
    let once = controller.confirm_transaction(id);
    let twice = once.confirm_transaction(id);
    assert forall|i: int| 0 <= i < once.wallets.len() implies twice.wallets[i]
        == once.wallets[i] by {
        assert(confirm_one(once.wallets[i].fragments, id) =~= once.wallets[i].fragments);
    }
    assert(twice.wallets =~= once.wallets);
}

/// Confirming a fragment leaves a wallet that has no record of it as it was.
pub proof fn lemma_confirm_unknown_transaction(wallet: WalletView, id: FragmentId)
    requires
        !knows(wallet.fragments, id),
    ensures
        wallet.confirm_transaction(id) == wallet,
{
    assert forall|i: int| 0 <= i < wallet.fragments.len() implies confirm_one(
        wallet.fragments,
        id,
    )[i] == wallet.fragments[i] by {
        assert(wallet.fragments[i].id != id);
    }
    assert(confirm_one(wallet.fragments, id) =~= wallet.fragments);
}

/// Confirming a fragment changes, in the whole pool, only the wallets that
/// know it, and of those only the records of that fragment: each of them is
/// confirmed afterwards, and no record comes or goes.
pub proof fn lemma_confirm_transaction(controller: ControllerView, id: FragmentId, index: int)
    requires
        0 <= index < controller.wallets.len(),
    ensures
        controller.confirm_transaction(id).wallets.len() == controller.wallets.len(),
        controller.confirm_transaction(id).settings == controller.settings,
        !knows(controller.wallets[index].fragments, id) ==> controller.confirm_transaction(
            id,
        ).wallets[index] == controller.wallets[index],
        knows(controller.wallets[index].fragments, id) ==> confirmed_in(
            controller.confirm_transaction(id).wallets[index].fragments,
            id,
        ),
        controller.confirm_transaction(id).wallets[index].fragments.len()
            == controller.wallets[index].fragments.len(),
        forall|j: int|
            0 <= j < controller.wallets[index].fragments.len()
                && controller.wallets[index].fragments[j].id != id
                ==> #[trigger] controller.confirm_transaction(id).wallets[index].fragments[j]
                == controller.wallets[index].fragments[j],
{
    let wallet = controller.wallets[index];
    if knows(wallet.fragments, id) {
        let j = choose|j: int|
            0 <= j < wallet.fragments.len() && #[trigger] wallet.fragments[j].id == id;
        assert(confirm_one(wallet.fragments, id)[j] == (FragmentRecord { id, confirmed: true }));
    } else {
        lemma_confirm_unknown_transaction(wallet, id);
    }
}

/// After everything has been confirmed, every record of every wallet is
/// confirmed and no wallet has a fragment pending. No record comes or goes,
/// and balances, counters and secrets stay.
pub proof fn lemma_confirm_all_transactions(controller: ControllerView, index: int)
    requires
        0 <= index < controller.wallets.len(),
    ensures
        controller.confirm_all_transactions().wallets.len() == controller.wallets.len(),
        controller.confirm_all_transactions().settings == controller.settings,
        controller.confirm_all_transactions().wallets[index].fragments.len()
            == controller.wallets[index].fragments.len(),
        forall|j: int|
            0 <= j < controller.wallets[index].fragments.len()
                ==> #[trigger] controller.confirm_all_transactions().wallets[index].fragments[j]
                == (FragmentRecord {
                id: controller.wallets[index].fragments[j].id,
                confirmed: true,
            }),
        pending_ids(controller.confirm_all_transactions().wallets[index].fragments) == Seq::<
            FragmentId,
        >::empty(),
        controller.confirm_all_transactions().wallets[index].value
            == controller.wallets[index].value,
        controller.confirm_all_transactions().wallets[index].counter
            == controller.wallets[index].counter,
        controller.confirm_all_transactions().wallets[index].secret
            == controller.wallets[index].secret,
{
    lemma_all_confirmed_none_pending(confirm_all(controller.wallets[index].fragments));
}

} // verus!
