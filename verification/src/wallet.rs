//! One wallet: the secret that signs for an account, what the wallet last
//! heard of the account's state, and the fragments it has produced.

use vstd::prelude::*;
use vstd::slice::slice_to_vec;
use crate::error::WalletError;
use crate::fragment::{
    confirm_all, confirm_one, confirmed_in, pending_ids, FragmentId, FragmentRecord,
};
use crate::ledger::{Choice, Proposal, Settings, Value};
use crate::secret::{
    account_key, account_key_from_bytes, is_mnemonic, mnemonic_valid, new_mnemonic, spaces, Type,
};

verus! {

/// What a wallet signs with.
#[derive(Clone, Debug, PartialEq, Eq)]
pub enum Secret {
    /// A mnemonic phrase and the password that protects it.
    Mnemonics { phrase: String, password: Vec<u8> },
    /// An account key of 64 bytes.
    AccountKey { key: [u8; 64] },
}

/// A secret as a mathematical value.
pub enum SecretView {
    Mnemonics { phrase: Seq<char>, password: Seq<u8> },
    AccountKey { key: Seq<u8> },
}

impl View for Secret {
    type V = SecretView;

    open spec fn view(&self) -> SecretView {
        match *self {
            Secret::Mnemonics { phrase, password } => SecretView::Mnemonics {
                phrase: phrase@,
                password: password@,
            },
            Secret::AccountKey { key } => SecretView::AccountKey { key: key@ },
        }
    }
}

/// Everything the signing engine needs for one vote transaction.
#[derive(Clone, Copy, Debug, PartialEq, Eq)]
pub struct VoteRequest {
    pub settings: Settings,
    pub proposal: Proposal,
    pub choice: Choice,
    /// The balance the transaction is built on.
    pub value: Value,
    /// The counter the transaction carries.
    pub counter: u32,
}

pub struct Wallet {
    secret: Secret,
    value: Value,
    counter: u32,
    fragments: Vec<FragmentRecord>,
}

/// A wallet as a mathematical value.
pub struct WalletView {
    pub secret: SecretView,
    pub value: Value,
    pub counter: u32,
    pub fragments: Seq<FragmentRecord>,
}

impl WalletView {
    /// A wallet that has just been made from `secret`: it has heard nothing
    /// of its account and has produced nothing.
    pub open spec fn fresh(secret: SecretView) -> WalletView {
        WalletView { secret, value: Value(0), counter: 0, fragments: Seq::empty() }
    }

    /// The wallet after it has been told the state of its account.
    pub open spec fn set_state(self, value: Value, counter: u32) -> WalletView {
        WalletView { value, counter, ..self }
    }

    /// The wallet after it has produced the fragment `id`.
    pub open spec fn track(self, id: FragmentId) -> WalletView {
        WalletView {
            fragments: self.fragments.push(FragmentRecord { id, confirmed: false }),
            ..self
        }
    }

    /// The wallet after the ledger has confirmed the fragment `id`.
    pub open spec fn confirm_transaction(self, id: FragmentId) -> WalletView {
        WalletView { fragments: confirm_one(self.fragments, id), ..self }
    }

    /// The wallet after the ledger has confirmed all its fragments.
    pub open spec fn confirm_all_transactions(self) -> WalletView {
        WalletView { fragments: confirm_all(self.fragments), ..self }
    }

    /// The request for a vote that this wallet would sign now.
    pub open spec fn vote(self, settings: Settings, proposal: Proposal, choice: Choice) -> VoteRequest {
        VoteRequest { settings, proposal, choice, value: self.value, counter: self.counter }
    }
}

/// Whether `wallet` can be what generating a wallet of the given length
/// made: a fresh wallet over a well formed mnemonic of that many words,
/// without a password.
pub open spec fn generated(wallet: WalletView, words_length: Type) -> bool {
    &&& wallet.secret matches SecretView::Mnemonics { phrase, password }
    &&& mnemonic_valid(phrase)
    &&& spaces(phrase) + 1 == words_length.words()
    &&& password == Seq::<u8>::empty()
    &&& wallet == WalletView::fresh(wallet.secret)
}

impl View for Wallet {
    type V = WalletView;

    closed spec fn view(&self) -> WalletView {
        WalletView {
            secret: self.secret@,
            value: self.value,
            counter: self.counter,
            fragments: self.fragments@,
        }
    }
}

impl Wallet {
    /// A wallet with a fresh mnemonic of the given length and no password.
    pub fn generate(words_length: Type) -> (wallet: Wallet)
        ensures
            generated(wallet@, words_length),
    {
        let phrase = new_mnemonic(words_length);
        let password: Vec<u8> = Vec::new();
        Wallet {
            secret: Secret::Mnemonics { phrase, password },
            value: Value(0),
            counter: 0,
            fragments: Vec::new(),
        }
    }

    /// The wallet of a mnemonic phrase, if the phrase is well formed.
    pub fn recover(mnemonics: &str, password: &[u8]) -> (res: Result<Wallet, WalletError>)
        ensures
            mnemonic_valid(mnemonics@) ==> (res matches Ok(wallet) && wallet@ == WalletView::fresh(
                SecretView::Mnemonics { phrase: mnemonics@, password: password@ },
            )),
            !mnemonic_valid(mnemonics@) ==> (res matches Err(e) && e
                == WalletError::MalformedMnemonics),
    {
        Wallet::recover_checked(is_mnemonic(mnemonics), mnemonics, password)
    }

    /// The wallet of a phrase that has been checked: `well_formed` says
    /// whether the phrase is a mnemonic.
    pub fn recover_checked(well_formed: bool, mnemonics: &str, password: &[u8]) -> (res: Result<
        Wallet,
        WalletError,
    >)
        ensures
            well_formed ==> (res matches Ok(wallet) && wallet@ == WalletView::fresh(
                SecretView::Mnemonics { phrase: mnemonics@, password: password@ },
            )),
            !well_formed ==> (res matches Err(e) && e == WalletError::MalformedMnemonics),
    {
        if !well_formed {
            return Err(WalletError::MalformedMnemonics);
        }
        Ok(
            Wallet {
                secret: Secret::Mnemonics {
                    phrase: mnemonics.to_owned(),
                    password: slice_to_vec(password),
                },
                value: Value(0),
                counter: 0,
                fragments: Vec::new(),
            },
        )
    }

    /// The wallet of an account key, if the key has 64 bytes.
    pub fn recover_from_account(secret_key: &[u8]) -> (res: Result<Wallet, WalletError>)
        ensures
            res matches Ok(wallet) ==> (account_key(secret_key@) matches Ok(key) && wallet@
                == WalletView::fresh(SecretView::AccountKey { key })),
            res matches Err(e) ==> (account_key(secret_key@) matches Err(x) && x == e),
    {
        match account_key_from_bytes(secret_key) {
            Err(e) => Err(e),
            Ok(key) => Ok(
                Wallet {
                    secret: Secret::AccountKey { key },
                    value: Value(0),
                    counter: 0,
                    fragments: Vec::new(),
                },
            ),
        }
    }

    /// What the wallet signs with.
    pub fn secret(&self) -> (secret: &Secret)
        ensures
            secret@ == self@.secret,
    {
        &self.secret
    }

    /// The balance of the account as the wallet last heard it.
    pub fn total_value(&self) -> (value: Value)
        ensures
            value == self@.value,
    {
        self.value
    }

    /// The counter of the account as the wallet last heard it.
    pub fn counter(&self) -> (counter: u32)
        ensures
            counter == self@.counter,
    {
        self.counter
    }

    /// Overwrites what the wallet holds of its account's state.
    pub fn set_state(&mut self, value: Value, counter: u32)
        ensures
            final(self)@ == old(self)@.set_state(value, counter),
    {
        self.value = value;
        self.counter = counter;
    }

    /// The request for a vote on what the wallet holds now. The wallet is
    /// left as it is.
    pub fn vote(&self, settings: Settings, proposal: &Proposal, choice: Choice) -> (request:
        VoteRequest)
        ensures
            request == self@.vote(settings, *proposal, choice),
    {
        VoteRequest {
            settings,
            proposal: *proposal,
            choice,
            value: self.value,
            counter: self.counter,
        }
    }

    /// Remembers a fragment that this wallet has produced, as not confirmed.
    pub fn track(&mut self, id: FragmentId)
        ensures
            final(self)@ == old(self)@.track(id),
    {
        self.fragments.push(FragmentRecord { id, confirmed: false });
    }

    /// Marks every record of the fragment `id` as confirmed. A wallet that
    /// has no such record stays as it is.
    pub fn confirm_transaction(&mut self, id: FragmentId)
        ensures
            final(self)@ == old(self)@.confirm_transaction(id),
    {
        let n = self.fragments.len();
        let mut i: usize = 0;
        while i < n
            invariant
                i <= n,
                n == self.fragments@.len(),
                n == old(self).fragments@.len(),
                self.secret == old(self).secret,
                self.value == old(self).value,
                self.counter == old(self).counter,
                forall|j: int|
                    0 <= j < i ==> self.fragments@[j] == confirm_one(old(self).fragments@, id)[j],
                forall|j: int| i <= j < n ==> self.fragments@[j] == old(self).fragments@[j],
            decreases n - i,
        {
            if self.fragments[i].id.same(&id) {
                self.fragments[i].confirmed = true;
            }
            i += 1;
        }
        assert(self.fragments@ =~= confirm_one(old(self).fragments@, id));
    }

    /// Marks every fragment of this wallet as confirmed.
    pub fn confirm_all_transactions(&mut self)
        ensures
            final(self)@ == old(self)@.confirm_all_transactions(),
    {
        let n = self.fragments.len();
        let mut i: usize = 0;
        while i < n
            invariant
                i <= n,
                n == self.fragments@.len(),
                n == old(self).fragments@.len(),
                self.secret == old(self).secret,
                self.value == old(self).value,
                self.counter == old(self).counter,
                forall|j: int|
                    0 <= j < i ==> self.fragments@[j] == confirm_all(old(self).fragments@)[j],
                forall|j: int| i <= j < n ==> self.fragments@[j] == old(self).fragments@[j],
            decreases n - i,
        {
            self.fragments[i].confirmed = true;
            i += 1;
        }
        assert(self.fragments@ =~= confirm_all(old(self).fragments@));
    }

    /// The fragments of this wallet that are not confirmed yet, oldest first.
    pub fn pending_transactions(&self) -> (ids: Vec<FragmentId>)
        ensures
            ids@ == pending_ids(self@.fragments),
    {
        let mut ids: Vec<FragmentId> = Vec::new();
        let n = self.fragments.len();
        let mut i: usize = 0;
        assert(self.fragments@.take(0) =~= Seq::empty());
        while i < n
            invariant
                i <= n,
                n == self.fragments@.len(),
                ids@ == pending_ids(self.fragments@.take(i as int)),
            decreases n - i,
        {
            let record = self.fragments[i];
            assert(self.fragments@.take(i + 1).drop_last() =~= self.fragments@.take(i as int));
            if !record.confirmed {
                ids.push(record.id);
            }
            i += 1;
        }
        assert(self.fragments@.take(n as int) =~= self.fragments@);
        ids
    }

    /// Whether the ledger has confirmed a fragment of this wallet with the
    /// identifier `id`.
    pub fn is_confirmed(&self, id: &FragmentId) -> (b: bool)
        ensures
            b == confirmed_in(self@.fragments, *id),
    {
        let n = self.fragments.len();
        let mut i: usize = 0;
        while i < n
            invariant
                i <= n,
                n == self.fragments@.len(),
                forall|j: int|
                    0 <= j < i ==> self.fragments@[j] != (FragmentRecord {
                        id: *id,
                        confirmed: true,
                    }),
            decreases n - i,
        {
            if self.fragments[i].confirmed && self.fragments[i].id.same(id) {
                assert(self.fragments@[i as int] == (FragmentRecord { id: *id, confirmed: true }));
                return true;
            }
            i += 1;
        }
        false
    }
}

} // verus!
