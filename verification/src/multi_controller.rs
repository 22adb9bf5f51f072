//! The controller: a pool of wallets and the ledger's settings. It never
//! talks to the backend or to the signing engine itself. Each operation takes
//! what they answered and says what the pool is afterwards and what goes out
//! next.

use vstd::prelude::*;
use crate::batch::{
    batch_fits, batch_requests, fragments_view, lemma_signed_count, lemma_signed_count_all,
    reversed_bytes, signed_count, signed_records, signed_view, Submission,
};
use crate::error::{MultiControllerError, PinReadError, WalletBackendError, WalletError};
use crate::fragment::{FragmentId, FragmentRecord, TransactionPayload};
use crate::ledger::{AccountState, Choice, Proposal, Settings};
use crate::secret::{account_key, bech32_bytes, mnemonic_valid, read_bech32, Type};
use crate::wallet::{generated, SecretView, VoteRequest, Wallet, WalletView};

verus! {

pub struct MultiController {
    wallets: Vec<Wallet>,
    settings: Settings,
}

/// A controller as a mathematical value: its wallets in the order of their
/// indices, and the settings it signs against.
pub struct ControllerView {
    pub wallets: Seq<WalletView>,
    pub settings: Settings,
}

impl ControllerView {
    /// The controller after the wallet at `index` has been told the state of
    /// its account. The other wallets are as they were.
    pub open spec fn refresh_wallet(self, index: int, state: AccountState) -> ControllerView {
        ControllerView {
            wallets: self.wallets.update(
                index,
                self.wallets[index].set_state(state.value(), state.counter()),
            ),
            ..self
        }
    }

    /// The controller after the requests of a batch of `n` votes on `state`
    /// have been made for the wallet at `index`: the wallet holds the balance
    /// of `state` and the counter of the last request. Without a vote nothing
    /// changes.
    pub open spec fn votes_batch(self, index: int, n: int, state: AccountState) -> ControllerView {
        if n == 0 {
            self
        } else {
            ControllerView {
                wallets: self.wallets.update(
                    index,
                    self.wallets[index].set_state(
                        state.value(),
                        (state.counter() + n - 1) as u32,
                    ),
                ),
                ..self
            }
        }
    }

    /// The controller after the wallet at `index` has taken these records
    /// behind the ones it had.
    pub open spec fn track(self, index: int, records: Seq<FragmentRecord>) -> ControllerView {
        ControllerView {
            wallets: self.wallets.update(
                index,
                WalletView {
                    fragments: self.wallets[index].fragments + records,
                    ..self.wallets[index]
                },
            ),
            ..self
        }
    }

    /// The controller after the ledger has confirmed the fragment `id`: every
    /// wallet has marked its records of that fragment.
    pub open spec fn confirm_transaction(self, id: FragmentId) -> ControllerView {
        ControllerView {
            wallets: Seq::new(
                self.wallets.len(),
                |i: int| self.wallets[i].confirm_transaction(id),
            ),
            ..self
        }
    }

    /// The controller after the ledger has confirmed everything: every wallet
    /// has marked all its records.
    pub open spec fn confirm_all_transactions(self) -> ControllerView {
        ControllerView {
            wallets: Seq::new(
                self.wallets.len(),
                |i: int| self.wallets[i].confirm_all_transactions(),
            ),
            ..self
        }
    }
}

impl View for MultiController {
    type V = ControllerView;

    closed spec fn view(&self) -> ControllerView {
        ControllerView {
            wallets: wallets_view(self.wallets@),
            settings: self.settings,
        }
    }
}

/// The wallets of a pool as mathematical values.
pub open spec fn wallets_view(wallets: Seq<Wallet>) -> Seq<WalletView> {
    Seq::new(wallets.len(), |i: int| wallets[i]@)
}

/// The wallets of a bulk recovery: all of them, in the order of their
/// secrets, or the failure of the first secret that gave no wallet.
pub open spec fn collect_wallets(results: Seq<Result<WalletView, MultiControllerError>>) -> Result<
    Seq<WalletView>,
    MultiControllerError,
>
    decreases results.len(),
{
    if results.len() == 0 {
        Ok(Seq::empty())
    } else {
        match collect_wallets(results.drop_last()) {
            Err(e) => Err(e),
            Ok(wallets) => match results.last() {
                Err(e) => Err(e),
                Ok(wallet) => Ok(wallets.push(wallet)),
            },
        }
    }
}

/// The controller that a fetch of the settings and a bulk recovery give:
/// a failure of the fetch comes first, then the first failure of a secret.
pub open spec fn assembled(
    settings: Result<Settings, WalletBackendError>,
    results: Seq<Result<WalletView, MultiControllerError>>,
) -> Result<ControllerView, MultiControllerError> {
    match settings {
        Err(e) => Err(MultiControllerError::BackendError(e)),
        Ok(settings) => match collect_wallets(results) {
            Err(e) => Err(e),
            Ok(wallets) => Ok(ControllerView { wallets, settings }),
        },
    }
}

/// What recovering each secret of a list gave, as mathematical values.
pub open spec fn results_view(results: Seq<Result<Wallet, MultiControllerError>>) -> Seq<
    Result<WalletView, MultiControllerError>,
> {
    Seq::new(
        results.len(),
        |i: int|
            match results[i] {
                Ok(wallet) => Ok(wallet@),
                Err(e) => Err(e),
            },
    )
}

/// The wallet of a mnemonic phrase.
pub open spec fn wallet_of_mnemonics(phrase: Seq<char>, password: Seq<u8>) -> Result<
    WalletView,
    MultiControllerError,
> {
    if mnemonic_valid(phrase) {
        Ok(WalletView::fresh(SecretView::Mnemonics { phrase, password }))
    } else {
        Err(MultiControllerError::WalletError(WalletError::MalformedMnemonics))
    }
}

/// The wallet of an account key given as bytes.
pub open spec fn wallet_of_key(bytes: Seq<u8>) -> Result<WalletView, MultiControllerError> {
    match account_key(bytes) {
        Err(e) => Err(MultiControllerError::WalletError(e)),
        Ok(key) => Ok(WalletView::fresh(SecretView::AccountKey { key })),
    }
}

/// The wallet of an account key written in bech32.
pub open spec fn wallet_of_bech32(text: Seq<char>) -> Result<WalletView, MultiControllerError> {
    match bech32_bytes(text) {
        Err(e) => Err(MultiControllerError::ControllerError(e)),
        Ok(bytes) => wallet_of_key(bytes),
    }
}

/// What recovering each phrase of a list gives.
pub open spec fn wallets_of_mnemonics(phrases: Seq<String>, password: Seq<u8>) -> Seq<
    Result<WalletView, MultiControllerError>,
> {
    Seq::new(phrases.len(), |i: int| wallet_of_mnemonics(phrases[i]@, password))
}

/// What recovering each key of a list gives.
pub open spec fn wallets_of_keys(keys: Seq<Vec<u8>>) -> Seq<
    Result<WalletView, MultiControllerError>,
> {
    Seq::new(keys.len(), |i: int| wallet_of_key(keys[i]@))
}

/// What recovering each bech32 text of a list gives.
pub open spec fn wallets_of_bech32(texts: Seq<String>) -> Seq<
    Result<WalletView, MultiControllerError>,
> {
    Seq::new(texts.len(), |i: int| wallet_of_bech32(texts[i]@))
}

/// A failure among the first results is the failure of the whole list.
pub proof fn lemma_collect_prefix_failure(
    results: Seq<Result<WalletView, MultiControllerError>>,
    n: int,
)
    requires
        0 <= n <= results.len(),
        collect_wallets(results.take(n)) is Err,
    ensures
        collect_wallets(results) == collect_wallets(results.take(n)),
    decreases results.len() - n,
{
    if n < results.len() {
        assert(results.take(n + 1).drop_last() =~= results.take(n));
        lemma_collect_prefix_failure(results, n + 1);
    } else {
        assert(results.take(n) =~= results);
    }
}

/// A bulk recovery gives a pool exactly when every secret gave a wallet. The
/// pool then has one wallet for each secret, in the order of the secrets.
/// One secret that gave none fails the whole recovery.
pub proof fn lemma_collect_wallets(results: Seq<Result<WalletView, MultiControllerError>>)
    ensures
        collect_wallets(results) is Ok <==> forall|i: int|
            0 <= i < results.len() ==> results[i] is Ok,
        collect_wallets(results) matches Ok(wallets) ==> wallets.len() == results.len()
            && forall|i: int|
            0 <= i < results.len() ==> (#[trigger] results[i] matches Ok(w) && w == wallets[i]),
        (exists|i: int| 0 <= i < results.len() && results[i] is Err) ==> collect_wallets(
            results,
        ) is Err,
    decreases results.len(),
{
    if results.len() > 0 {
        let front = results.drop_last();
        lemma_collect_wallets(front);
        assert forall|i: int| 0 <= i < front.len() implies front[i] == results[i] by {}
        if collect_wallets(results) is Ok {
            assert forall|i: int| 0 <= i < results.len() implies results[i] is Ok by {
                if i < front.len() {
                    assert(front[i] is Ok);
                }
            }
        }
        if forall|i: int| 0 <= i < results.len() ==> results[i] is Ok {
            assert forall|i: int| 0 <= i < front.len() implies front[i] is Ok by {
                assert(results[i] is Ok);
            }
            assert(results.last() == results[results.len() - 1]);
        }
        if collect_wallets(results) is Ok {
            let wallets = collect_wallets(results)->Ok_0;
            assert forall|i: int| 0 <= i < results.len() implies (#[trigger] results[i] matches Ok(
                w,
            ) && w == wallets[i]) by {
                if i < front.len() {
                    assert(front[i] == results[i]);
                }
            }
        }
    }
}

/// Recovering from phrases gives all or nothing: with the settings fetched
/// and every phrase well formed, the pool has one fresh wallet for each
/// phrase, in the order of the phrases; one malformed phrase, and there is
/// no pool.
pub proof fn lemma_recover_all_or_nothing(
    settings: Settings,
    mnemonics: Seq<String>,
    password: Seq<u8>,
)
    ensures
        (forall|i: int| 0 <= i < mnemonics.len() ==> mnemonic_valid(#[trigger] mnemonics[i]@))
            ==> (assembled(Ok(settings), wallets_of_mnemonics(mnemonics, password)) matches Ok(
            pool,
        ) && pool.settings == settings && pool.wallets.len() == mnemonics.len() && forall|i: int|
            0 <= i < mnemonics.len() ==> #[trigger] pool.wallets[i] == WalletView::fresh(
                SecretView::Mnemonics { phrase: mnemonics[i]@, password },
            )),
        (exists|i: int| 0 <= i < mnemonics.len() && !mnemonic_valid(#[trigger] mnemonics[i]@))
            ==> assembled(Ok(settings), wallets_of_mnemonics(mnemonics, password)) is Err,
{
    let results = wallets_of_mnemonics(mnemonics, password);
    lemma_collect_wallets(results);
    if forall|i: int| 0 <= i < mnemonics.len() ==> mnemonic_valid(#[trigger] mnemonics[i]@) {
        assert forall|i: int| 0 <= i < results.len() implies results[i] is Ok by {
            assert(mnemonic_valid(mnemonics[i]@));
        }
        let wallets = collect_wallets(results)->Ok_0;
        assert forall|i: int| 0 <= i < mnemonics.len() implies #[trigger] wallets[i]
            == WalletView::fresh(SecretView::Mnemonics { phrase: mnemonics[i]@, password }) by {
            assert(mnemonic_valid(mnemonics[i]@));
            assert(results[i] matches Ok(w) && w == wallets[i]);
        }
    }
    if exists|i: int| 0 <= i < mnemonics.len() && !mnemonic_valid(#[trigger] mnemonics[i]@) {
        let i = choose|i: int|
            0 <= i < mnemonics.len() && !mnemonic_valid(#[trigger] mnemonics[i]@);
        assert(results[i] is Err);
    }
}

impl MultiController {
    /// A controller over `count` wallets with fresh mnemonics of the given
    /// length. It fails only where the settings could not be fetched.
    pub fn generate(
        settings: Result<Settings, WalletBackendError>,
        words_length: Type,
        count: usize,
    ) -> (res: Result<MultiController, MultiControllerError>)
        ensures
            settings matches Err(e) ==> (res matches Err(x) && x
                == MultiControllerError::BackendError(e)),
            settings matches Ok(s) ==> (res matches Ok(c) && c@.settings == s && c@.wallets.len()
                == count && forall|i: int|
                0 <= i < count ==> generated(#[trigger] c@.wallets[i], words_length)),
    {
        if let Err(e) = settings {
            return Err(MultiControllerError::BackendError(e));
        }
        let mut results: Vec<Result<Wallet, MultiControllerError>> = Vec::new();
        let mut i: usize = 0;
        while i < count
            invariant
                i <= count,
                results@.len() == i,
                forall|j: int|
                    0 <= j < i ==> (#[trigger] results@[j] matches Ok(w) && generated(w@, words_length)),
            decreases count - i,
        {
            results.push(Ok(Wallet::generate(words_length)));
            i += 1;
        }
        proof {
            let all = results_view(results@);
            assert forall|j: int| 0 <= j < all.len() implies all[j] is Ok by {
                assert(results@[j] is Ok);
            }
            lemma_collect_wallets(all);
            let wallets = collect_wallets(all)->Ok_0;
            assert forall|j: int| 0 <= j < count implies generated(
                #[trigger] wallets[j],
                words_length,
            ) by {
                assert(results@[j] is Ok);
                assert(all[j] matches Ok(w) && w == wallets[j]);
            }
        }
        MultiController::assemble(settings, results)
    }

    /// A controller over the wallets of these mnemonic phrases, in their
    /// order. One malformed phrase fails the whole recovery.
    pub fn recover(
        settings: Result<Settings, WalletBackendError>,
        mnemonics: Vec<String>,
        password: &[u8],
    ) -> (res: Result<MultiController, MultiControllerError>)
        ensures
            res matches Ok(c) ==> (assembled(
                settings,
                wallets_of_mnemonics(mnemonics@, password@),
            ) matches Ok(v) && v == c@),
            res matches Err(e) ==> (assembled(
                settings,
                wallets_of_mnemonics(mnemonics@, password@),
            ) matches Err(x) && x == e),
    {
        let mut results: Vec<Result<Wallet, MultiControllerError>> = Vec::new();
        let n = mnemonics.len();
        let mut i: usize = 0;
        while i < n
            invariant
                i <= n,
                n == mnemonics@.len(),
                results@.len() == i,
                forall|j: int|
                    0 <= j < i ==> #[trigger] results_view(results@)[j] == wallet_of_mnemonics(
                        mnemonics@[j]@,
                        password@,
                    ),
            decreases n - i,
        {
            let ghost before = results_view(results@);
            let result = match Wallet::recover(mnemonics[i].as_str(), password) {
                Ok(wallet) => Ok(wallet),
                Err(e) => Err(MultiControllerError::WalletError(e)),
            };
            results.push(result);
            assert forall|j: int| 0 <= j < i + 1 implies #[trigger] results_view(results@)[j]
                == wallet_of_mnemonics(mnemonics@[j]@, password@) by {
                if j < i {
                    assert(results_view(results@)[j] == before[j]);
                }
            }
            i += 1;
        }
        assert(results_view(results@) =~= wallets_of_mnemonics(mnemonics@, password@));
        MultiController::assemble(settings, results)
    }

    /// A controller over the wallets of the account keys that were read from
    /// QR codes, in their order. A failure to read the codes, or one key of a
    /// wrong length, fails the whole recovery.
    pub fn recover_from_qrs(
        settings: Result<Settings, WalletBackendError>,
        secrets: Result<Vec<Vec<u8>>, PinReadError>,
    ) -> (res: Result<MultiController, MultiControllerError>)
        ensures
            settings matches Err(e) ==> (res matches Err(x) && x
                == MultiControllerError::BackendError(e)),
            settings is Ok ==> (secrets matches Err(e) ==> (res matches Err(x) && x
                == MultiControllerError::PinReadError(e))),
            secrets matches Ok(keys) ==> (res matches Ok(c) ==> (assembled(
                settings,
                wallets_of_keys(keys@),
            ) matches Ok(v) && v == c@)),
            secrets matches Ok(keys) ==> (res matches Err(e) ==> (assembled(
                settings,
                wallets_of_keys(keys@),
            ) matches Err(x) && x == e)),
    {
        if let Err(e) = settings {
            return Err(MultiControllerError::BackendError(e));
        }
        let keys = match secrets {
            Err(e) => {
                return Err(MultiControllerError::PinReadError(e));
            },
            Ok(keys) => keys,
        };
        let mut results: Vec<Result<Wallet, MultiControllerError>> = Vec::new();
        let n = keys.len();
        let mut i: usize = 0;
        while i < n
            invariant
                i <= n,
                n == keys@.len(),
                results@.len() == i,
                forall|j: int|
                    0 <= j < i ==> #[trigger] results_view(results@)[j] == wallet_of_key(
                        keys@[j]@,
                    ),
            decreases n - i,
        {
            let ghost before = results_view(results@);
            let result = match Wallet::recover_from_account(keys[i].as_slice()) {
                Ok(wallet) => Ok(wallet),
                Err(e) => Err(MultiControllerError::WalletError(e)),
            };
            results.push(result);
            assert forall|j: int| 0 <= j < i + 1 implies #[trigger] results_view(results@)[j]
                == wallet_of_key(keys@[j]@) by {
                if j < i {
                    assert(results_view(results@)[j] == before[j]);
                }
            }
            i += 1;
        }
        assert(results_view(results@) =~= wallets_of_keys(keys@));
        MultiController::assemble(settings, results)
    }

    /// A controller over the wallets of these account keys, each written in
    /// bech32, in their order. One text that cannot be decoded, or one key of
    /// a wrong length, fails the whole recovery.
    pub fn recover_from_sks(
        settings: Result<Settings, WalletBackendError>,
        private_keys: &Vec<String>,
    ) -> (res: Result<MultiController, MultiControllerError>)
        ensures
            res matches Ok(c) ==> (assembled(settings, wallets_of_bech32(private_keys@)) matches Ok(
                v,
            ) && v == c@),
            res matches Err(e) ==> (assembled(
                settings,
                wallets_of_bech32(private_keys@),
            ) matches Err(x) && x == e),
    {
        let mut results: Vec<Result<Wallet, MultiControllerError>> = Vec::new();
        let n = private_keys.len();
        let mut i: usize = 0;
        while i < n
            invariant
                i <= n,
                n == private_keys@.len(),
                results@.len() == i,
                forall|j: int|
                    0 <= j < i ==> #[trigger] results_view(results@)[j] == wallet_of_bech32(
                        private_keys@[j]@,
                    ),
            decreases n - i,
        {
            let ghost before = results_view(results@);
            let result = match read_bech32(private_keys[i].as_str()) {
                Err(e) => Err(MultiControllerError::ControllerError(e)),
                Ok(bytes) => match Wallet::recover_from_account(bytes.as_slice()) {
                    Ok(wallet) => Ok(wallet),
                    Err(e) => Err(MultiControllerError::WalletError(e)),
                },
            };
            results.push(result);
            assert forall|j: int| 0 <= j < i + 1 implies #[trigger] results_view(results@)[j]
                == wallet_of_bech32(private_keys@[j]@) by {
                if j < i {
                    assert(results_view(results@)[j] == before[j]);
                }
            }
            i += 1;
        }
        assert(results_view(results@) =~= wallets_of_bech32(private_keys@));
        MultiController::assemble(settings, results)
    }

    /// The controller over the wallets that a bulk recovery gave, if the
    /// settings could be fetched and every secret gave a wallet.
    pub fn assemble(
        settings: Result<Settings, WalletBackendError>,
        results: Vec<Result<Wallet, MultiControllerError>>,
    ) -> (res: Result<MultiController, MultiControllerError>)
        ensures
            res matches Ok(c) ==> (assembled(settings, results_view(results@)) matches Ok(v) && v
                == c@),
            res matches Err(e) ==> (assembled(settings, results_view(results@)) matches Err(x) && x
                == e),
    {
        let ledger = match settings {
            Err(e) => {
                return Err(MultiControllerError::BackendError(e));
            },
            Ok(ledger) => ledger,
        };
        let ghost all = results_view(results@);
        let mut wallets: Vec<Wallet> = Vec::new();
        assert(all.take(0) =~= Seq::empty());
        assert(wallets_view(wallets@) =~= Seq::empty());
        for result in it: results
            invariant
                settings matches Ok(s) && s == ledger,
                all == results_view(results@),
                all == results_view(it.seq()),
                collect_wallets(all.take(it.index() as int)) matches Ok(found) && found
                    == wallets_view(wallets@),
        {
            let ghost n = it.index() as int;
            assert(all.take(n + 1).drop_last() =~= all.take(n));
            assert(all.take(n + 1).last() == all[n]);
            match result {
                Err(e) => {
                    proof {
                        lemma_collect_prefix_failure(all, n + 1);
                    }
                    return Err(e);
                },
                Ok(wallet) => {
                    let ghost before = wallets_view(wallets@);
                    wallets.push(wallet);
                    assert(wallets_view(wallets@) =~= before.push(wallet@));
                },
            }
        }
        assert(all.take(all.len() as int) =~= all);
        let controller = MultiController { wallets, settings: ledger };
        assert(controller@.wallets =~= wallets_view(controller.wallets@));
        Ok(controller)
    }

    /// The number of wallets in the pool.
    pub fn wallet_count(&self) -> (count: usize)
        ensures
            count == self@.wallets.len(),
    {
        self.wallets.len()
    }

    /// The wallet at `wallet_index`.
    pub fn wallet(&self, wallet_index: usize) -> (wallet: &Wallet)
        requires
            wallet_index < self@.wallets.len(),
        ensures
            wallet@ == self@.wallets[wallet_index as int],
    {
        &self.wallets[wallet_index]
    }

    /// The wallet at `wallet_index`, to change it. The rest of the pool
    /// stays as it is.
    pub fn wallet_mut(&mut self, wallet_index: usize) -> (wallet: &mut Wallet)
        requires
            wallet_index < old(self)@.wallets.len(),
        ensures
            wallet@ == old(self)@.wallets[wallet_index as int],
            final(self)@.wallets == old(self)@.wallets.update(
                wallet_index as int,
                final(wallet)@,
            ),
            final(self)@.settings == old(self)@.settings,
    {
        &mut self.wallets[wallet_index]
    }

    /// The settings that every transaction of this controller is signed
    /// against.
    pub fn settings(&self) -> (settings: Settings)
        ensures
            settings == self@.settings,
    {
        self.settings
    }

    /// The proposals that the backend listed, or its failure as a failure of
    /// the controller.
    pub fn proposals(&self, fetched: Result<Vec<Proposal>, WalletBackendError>) -> (res: Result<
        Vec<Proposal>,
        MultiControllerError,
    >)
        ensures
            fetched matches Ok(proposals) ==> (res matches Ok(p) && p@ == proposals@),
            fetched matches Err(e) ==> (res matches Err(x) && x
                == MultiControllerError::BackendError(e)),
    {
        match fetched {
            Ok(proposals) => Ok(proposals),
            Err(e) => Err(MultiControllerError::BackendError(e)),
        }
    }

    /// The request for one vote of the wallet at `wallet_index`, on the
    /// balance and the counter that the wallet holds. Nothing is fetched and
    /// nothing in the pool changes: the caller refreshes the wallet first.
    pub fn vote(&self, wallet_index: usize, proposal: &Proposal, choice: Choice) -> (request:
        VoteRequest)
        requires
            wallet_index < self@.wallets.len(),
        ensures
            request == self@.wallets[wallet_index as int].vote(self@.settings, *proposal, choice),
    {
        self.wallets[wallet_index].vote(self.settings, proposal, choice)
    }

    /// The requests for a batch of votes of the wallet at `wallet_index`, on
    /// the state of its account that was just fetched: one request for each
    /// vote, in the order of the votes, with counters that start at the
    /// fetched counter and go up by one. Where the fetch failed, nothing
    /// changes.
    pub fn votes_batch(
        &mut self,
        wallet_index: usize,
        votes_data: Vec<(&Proposal, Choice)>,
        account_state: Result<AccountState, WalletBackendError>,
    ) -> (res: Result<Vec<VoteRequest>, MultiControllerError>)
        requires
            wallet_index < old(self)@.wallets.len(),
            account_state matches Ok(state) ==> batch_fits(
                state.counter(),
                votes_data@.len() as int,
            ),
        ensures
            account_state matches Err(e) ==> (res matches Err(x) && x
                == MultiControllerError::BackendError(e)) && final(self)@ == old(self)@,
            account_state matches Ok(state) ==> (res matches Ok(requests) && requests@
                == batch_requests(old(self)@.settings, votes_data@, state)) && final(self)@ == old(self)@.votes_batch(wallet_index as int, votes_data@.len() as int, state),
    {
        let state = match account_state {
            Err(e) => {
                return Err(MultiControllerError::BackendError(e));
            },
            Ok(state) => state,
        };
        let settings = self.settings;
        let n = votes_data.len();
        let mut counter: u32 = state.counter();
        let mut requests: Vec<VoteRequest> = Vec::new();
        let mut i: usize = 0;
        while i < n
            invariant
                i <= n,
                n == votes_data@.len(),
                batch_fits(state.counter(), n as int),
                settings == old(self)@.settings,
                wallet_index < old(self)@.wallets.len(),
                self.wallets@.len() == old(self).wallets@.len(),
                i < n ==> counter == state.counter() + i,
                self@ == old(self)@.votes_batch(wallet_index as int, i as int, state),
                requests@.len() == i,
                forall|k: int|
                    0 <= k < i ==> #[trigger] requests@[k] == batch_requests(
                        settings,
                        votes_data@,
                        state,
                    )[k],
            decreases n - i,
        {
            let (proposal, choice) = votes_data[i];
            let ghost before = self@;
            self.wallets[wallet_index].set_state(state.value(), counter);
            assert(self@.wallets =~= before.wallets.update(
                wallet_index as int,
                before.wallets[wallet_index as int].set_state(state.value(), counter),
            ));
            assert(self@.wallets =~= old(self)@.votes_batch(
                wallet_index as int,
                i + 1,
                state,
            ).wallets);
            requests.push(self.wallets[wallet_index].vote(settings, proposal, choice));
            i += 1;
            if i < n {
                counter += 1;
            }
        }
        assert(requests@ =~= batch_requests(settings, votes_data@, state));
        Ok(requests)
    }

    /// Takes what the signing engine answered to the request of one vote of
    /// the wallet at `wallet_index`. A transaction is remembered by the
    /// wallet as not confirmed, and its bytes are what goes to the backend.
    /// A failure is the failure of the vote, and nothing changes.
    pub fn submit_one(
        &mut self,
        wallet_index: usize,
        signed: Result<TransactionPayload, WalletError>,
    ) -> (res: Result<Vec<u8>, MultiControllerError>)
        requires
            wallet_index < old(self)@.wallets.len(),
        ensures
            signed matches Ok(payload) ==> (res matches Ok(bytes) && bytes@ == payload@.bytes)
                && final(self)@ == old(self)@.track(
                wallet_index as int,
                seq![FragmentRecord { id: payload@.id, confirmed: false }],
            ),
            signed matches Err(e) ==> (res matches Err(x) && x == MultiControllerError::WalletError(
                e,
            )) && final(self)@ == old(self)@,
    {
        match signed {
            Err(e) => Err(MultiControllerError::WalletError(e)),
            Ok(payload) => {
                let ghost before = self@;
                self.wallets[wallet_index].track(payload.id);
                assert(self@.wallets =~= before.track(
                    wallet_index as int,
                    seq![FragmentRecord { id: payload@.id, confirmed: false }],
                ).wallets) by {
                    assert(before.wallets[wallet_index as int].fragments.push(
                        FragmentRecord { id: payload@.id, confirmed: false },
                    ) =~= before.wallets[wallet_index as int].fragments
                        + seq![FragmentRecord { id: payload@.id, confirmed: false }]);
                }
                Ok(payload.bytes)
            },
        }
    }

    /// Takes what the signing engine answered to the requests of a batch of
    /// the wallet at `wallet_index`, in the order of the requests. The wallet
    /// remembers the transactions that stand before the first failure, as not
    /// confirmed. Where nothing failed, the bytes of the transactions are
    /// what goes to the backend in one call, in reverse: the transaction with
    /// the highest counter first. One failure fails the whole batch, and
    /// nothing goes out.
    pub fn submit_batch(
        &mut self,
        wallet_index: usize,
        use_v1: bool,
        signed: Vec<Result<TransactionPayload, WalletError>>,
    ) -> (res: Result<Submission, MultiControllerError>)
        requires
            wallet_index < old(self)@.wallets.len(),
        ensures
            final(self)@ == old(self)@.track(
                wallet_index as int,
                signed_records(signed_view(signed@), signed_count(signed_view(signed@))),
            ),
            signed_count(signed_view(signed@)) == signed@.len() ==> (res matches Ok(submission)
                && submission.use_v1 == use_v1 && fragments_view(submission.fragments@)
                == reversed_bytes(signed_view(signed@))),
            signed_count(signed_view(signed@)) < signed@.len() ==> (res matches Err(x)
                && signed_view(signed@)[signed_count(signed_view(signed@))] matches Err(e) && x
                == MultiControllerError::WalletError(e)),
    {
        let ghost all = signed_view(signed@);
        let ghost start = self@;
        let mut rest = signed;
        let n = rest.len();
        proof {
            lemma_signed_count(all);
            assert(start.wallets[wallet_index as int].fragments + signed_records(all, 0)
                =~= start.wallets[wallet_index as int].fragments);
            assert(start.wallets =~= start.track(
                wallet_index as int,
                signed_records(all, 0),
            ).wallets);
        }
        let mut i: usize = 0;
        while i < n
            invariant
                i <= n,
                n == all.len(),
                all == signed_view(signed@),
                rest@ == signed@,
                start == old(self)@,
                wallet_index < start.wallets.len(),
                self.wallets@.len() == start.wallets.len(),
                forall|k: int| 0 <= k < i ==> all[k] is Ok,
                self@ == start.track(wallet_index as int, signed_records(all, i as int)),
            decreases n - i,
        {
            let id = match &rest[i] {
                Ok(payload) => payload.id,
                Err(e) => {
                    proof {
                        lemma_signed_count(all);
                        assert(all[i as int] is Err);
                        let count = signed_count(all);
                        if count > i {
                            assert(all[i as int] is Ok);
                        }
                        if count < i {
                            assert(all[count] is Ok);
                        }
                    }
                    return Err(MultiControllerError::WalletError(*e));
                },
            };
            let ghost before = self@;
            self.wallets[wallet_index].track(id);
            proof {
                assert(all[i as int] is Ok);
                assert(all[i as int]->Ok_0.id == id);
                assert(before.wallets[wallet_index as int].fragments
                    == start.wallets[wallet_index as int].fragments + signed_records(
                    all,
                    i as int,
                ));
                assert(before.wallets[wallet_index as int].fragments.push(
                    FragmentRecord { id, confirmed: false },
                ) =~= start.wallets[wallet_index as int].fragments + signed_records(all, i + 1));
                assert(self@.wallets =~= before.wallets.update(
                    wallet_index as int,
                    before.wallets[wallet_index as int].track(id),
                ));
                assert(self@.wallets[wallet_index as int] == start.track(
                    wallet_index as int,
                    signed_records(all, i + 1),
                ).wallets[wallet_index as int]);
                assert(self@.wallets =~= start.track(
                    wallet_index as int,
                    signed_records(all, i + 1),
                ).wallets);
            }
            i += 1;
        }
        proof {
            lemma_signed_count_all(all);
        }
        let mut fragments: Vec<Vec<u8>> = Vec::new();
        while rest.len() > 0
            invariant
                rest@.len() <= n,
                n == all.len(),
                all == signed_view(signed@),
                signed_count(all) == n,
                forall|k: int| 0 <= k < n ==> all[k] is Ok,
                fragments@.len() == n - rest@.len(),
                forall|j: int| 0 <= j < rest@.len() ==> signed_view(rest@)[j] == all[j],
                forall|j: int|
                    0 <= j < fragments@.len() ==> #[trigger] fragments@[j]@ == reversed_bytes(
                        all,
                    )[j],
            decreases rest@.len(),
        {
            let ghost before = rest@;
            let last = rest.pop();
            proof {
                assert(signed_view(before)[before.len() - 1] == all[before.len() - 1]);
                assert(all[before.len() - 1] is Ok);
                assert forall|j: int| 0 <= j < rest@.len() implies signed_view(rest@)[j]
                    == all[j] by {
                    assert(signed_view(before)[j] == all[j]);
                }
            }
            if let Some(Ok(payload)) = last {
                fragments.push(payload.bytes);
            }
        }
        assert(fragments_view(fragments@) =~= reversed_bytes(all));
        Ok(Submission { fragments, use_v1 })
    }

    /// Marks, in every wallet, every fragment as confirmed.
    pub fn confirm_all_transactions(&mut self)
        ensures
            final(self)@ == old(self)@.confirm_all_transactions(),
    {
        let n = self.wallets.len();
        let mut i: usize = 0;
        while i < n
            invariant
                i <= n,
                n == self.wallets@.len(),
                n == old(self).wallets@.len(),
                self.settings == old(self).settings,
                forall|j: int|
                    0 <= j < i ==> self.wallets@[j]@ == old(self).wallets@[j]@.confirm_all_transactions(),
                forall|j: int| i <= j < n ==> self.wallets@[j] == old(self).wallets@[j],
            decreases n - i,
        {
            self.wallets[i].confirm_all_transactions();
            i += 1;
        }
        assert(self@.wallets =~= old(self)@.confirm_all_transactions().wallets);
    }

    /// Marks, in every wallet, the records of the fragment `fragment_id` as
    /// confirmed. A wallet that does not know the fragment stays as it is.
    pub fn confirm_transaction(&mut self, fragment_id: FragmentId)
        ensures
            final(self)@ == old(self)@.confirm_transaction(fragment_id),
    {
        let n = self.wallets.len();
        let mut i: usize = 0;
        while i < n
            invariant
                i <= n,
                n == self.wallets@.len(),
                n == old(self).wallets@.len(),
                self.settings == old(self).settings,
                forall|j: int|
                    0 <= j < i ==> self.wallets@[j]@ == old(self).wallets@[j]@.confirm_transaction(fragment_id),
                forall|j: int| i <= j < n ==> self.wallets@[j] == old(self).wallets@[j],
            decreases n - i,
        {
            self.wallets[i].confirm_transaction(fragment_id);
            i += 1;
        }
        assert(self@.wallets =~= old(self)@.confirm_transaction(fragment_id).wallets);
    }

    /// Takes the state of the account of the wallet at `wallet_index` that
    /// was just fetched: the wallet then holds the fetched balance and
    /// counter. Where the fetch failed, nothing changes.
    pub fn refresh_wallet(
        &mut self,
        wallet_index: usize,
        account_state: Result<AccountState, WalletBackendError>,
    ) -> (res: Result<(), MultiControllerError>)
        requires
            wallet_index < old(self)@.wallets.len(),
        ensures
            account_state matches Ok(state) ==> res is Ok && final(self)@ == old(self)@.refresh_wallet(wallet_index as int, state) && final(self)@.wallets[wallet_index as int].counter == state.counter() && final(self)@.wallets[wallet_index as int].value == state.value(),
            account_state matches Err(e) ==> (res matches Err(x) && x
                == MultiControllerError::BackendError(e)) && final(self)@ == old(self)@,
    {
        match account_state {
            Err(e) => Err(MultiControllerError::BackendError(e)),
            Ok(state) => {
                let ghost before = self@;
                self.wallets[wallet_index].set_state(state.value(), state.counter());
                assert(self@.wallets =~= before.refresh_wallet(wallet_index as int, state).wallets);
                Ok(())
            },
        }
    }

    /// Whether the ledger knows the account of the wallet at `wallet_index`,
    /// as the backend just answered. An account that is not there yet is an
    /// answer, not a failure.
    pub fn is_converted(&self, wallet_index: usize, exists: Result<bool, WalletBackendError>) -> (res:
        Result<bool, MultiControllerError>)
        requires
            wallet_index < self@.wallets.len(),
        ensures
            exists matches Ok(known) ==> (res matches Ok(b) && b == known),
            exists matches Err(e) ==> (res matches Err(x) && x
                == MultiControllerError::BackendError(e)),
    {
        match exists {
            Ok(known) => Ok(known),
            Err(e) => Err(MultiControllerError::BackendError(e)),
        }
    }
}

} // verus!
