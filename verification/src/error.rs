//! The failures of the controller and of what it talks to.

use vstd::prelude::*;
use vstd::std_specs::convert::FromSpecImpl;

verus! {

/// Why a text is no bech32 string, or its data no whole number of bytes.
#[derive(Clone, Copy, Debug, PartialEq, Eq)]
pub enum Bech32Error {
    MissingSeparator,
    InvalidChecksum,
    InvalidLength,
    InvalidChar(char),
    InvalidData(u8),
    InvalidPadding,
    MixedCase,
}

/// A wallet could not be made from a secret, or could not sign.
#[derive(Clone, Copy, Debug, PartialEq, Eq)]
pub enum WalletError {
    /// A phrase is no mnemonic: a wrong number of words, a word that is not
    /// in the list, or a checksum that does not match.
    MalformedMnemonics,
    /// An account key has this many bytes and not 64.
    WrongKeyLength(usize),
    /// The wallet is in no state to produce the transaction.
    CannotSign,
}

/// The backend did not answer, or refused.
#[derive(Clone, Copy, Debug, PartialEq, Eq)]
pub enum WalletBackendError {
    /// The transport failed or the backend could not be reached.
    BackendUnavailable,
    /// The ledger does not know the account yet.
    UnknownAccount,
    /// The ledger's settings could not be fetched.
    SettingsUnavailable,
}

/// A secret key given as text could not be decoded.
#[derive(Clone, Copy, Debug, PartialEq, Eq)]
pub enum ControllerError {
    Bech32(Bech32Error),
}

/// A secret could not be read from a QR code.
#[derive(Clone, Copy, Debug, PartialEq, Eq)]
pub enum PinReadError {
    /// A PIN was needed and could not be obtained.
    PinUnavailable,
    /// The code holds no secret in the expected encoding.
    MalformedCode,
    /// The PIN does not decrypt the secret.
    DecryptionFailed,
}

/// The proxy in front of the ledger did not serve what was asked.
#[derive(Clone, Copy, Debug, PartialEq, Eq)]
pub enum ProxyServerError {
    /// The proxy could not be reached.
    Unavailable,
    /// The proxy answered something that could not be read.
    MalformedResponse,
}

/// Every failure of the controller.
#[derive(Clone, Copy, Debug, PartialEq, Eq)]
pub enum MultiControllerError {
    WalletError(WalletError),
    BackendError(WalletBackendError),
    ControllerError(ControllerError),
    PinReadError(PinReadError),
}

impl MultiControllerError {
    /// What the failure is, in words.
    pub fn message(&self) -> (text: &'static str)
        ensures
            text@ == match *self {
                MultiControllerError::WalletError(_) => "wallet error"@,
                MultiControllerError::BackendError(_) => "wallet error"@,
                MultiControllerError::ControllerError(_) => "controller error"@,
                MultiControllerError::PinReadError(_) => "pin read error"@,
            },
    {
        match self {
            MultiControllerError::WalletError(_) => "wallet error",
            MultiControllerError::BackendError(_) => "wallet error",
            MultiControllerError::ControllerError(_) => "controller error",
            MultiControllerError::PinReadError(_) => "pin read error",
        }
    }
}

impl From<WalletError> for MultiControllerError {
    fn from(e: WalletError) -> (r: MultiControllerError) {
        MultiControllerError::WalletError(e)
    }
}

impl FromSpecImpl<WalletError> for MultiControllerError {
    open spec fn obeys_from_spec() -> bool {
        true
    }

    open spec fn from_spec(e: WalletError) -> MultiControllerError {
        MultiControllerError::WalletError(e)
    }
}

impl From<WalletBackendError> for MultiControllerError {
    fn from(e: WalletBackendError) -> (r: MultiControllerError) {
        MultiControllerError::BackendError(e)
    }
}

impl FromSpecImpl<WalletBackendError> for MultiControllerError {
    open spec fn obeys_from_spec() -> bool {
        true
    }

    open spec fn from_spec(e: WalletBackendError) -> MultiControllerError {
        MultiControllerError::BackendError(e)
    }
}

impl From<ControllerError> for MultiControllerError {
    fn from(e: ControllerError) -> (r: MultiControllerError) {
        MultiControllerError::ControllerError(e)
    }
}

impl FromSpecImpl<ControllerError> for MultiControllerError {
    open spec fn obeys_from_spec() -> bool {
        true
    }

    open spec fn from_spec(e: ControllerError) -> MultiControllerError {
        MultiControllerError::ControllerError(e)
    }
}

impl From<PinReadError> for MultiControllerError {
    fn from(e: PinReadError) -> (r: MultiControllerError) {
        MultiControllerError::PinReadError(e)
    }
}

impl FromSpecImpl<PinReadError> for MultiControllerError {
    open spec fn obeys_from_spec() -> bool {
        true
    }

    open spec fn from_spec(e: PinReadError) -> MultiControllerError {
        MultiControllerError::PinReadError(e)
    }
}

impl From<Bech32Error> for ControllerError {
    fn from(e: Bech32Error) -> (r: ControllerError) {
        ControllerError::Bech32(e)
    }
}

impl FromSpecImpl<Bech32Error> for ControllerError {
    open spec fn obeys_from_spec() -> bool {
        true
    }

    open spec fn from_spec(e: Bech32Error) -> ControllerError {
        ControllerError::Bech32(e)
    }
}

} // verus!
