//! The commands on QR codes. A command decides which codes are read and how
//! the PIN of each is found; the reading itself is the caller's.

use vstd::prelude::*;
use vstd::std_specs::convert::FromSpecImpl;
use crate::error::{PinReadError, ProxyServerError};

verus! {

/// How the PIN that protects a QR code is found.
#[derive(Clone, Debug, PartialEq, Eq)]
pub enum PinReadMode {
    /// The user is asked for it. Where nobody can be asked, reading fails
    /// with `PinReadError::PinUnavailable`.
    Interactive,
    /// This PIN is taken for every code, and nobody is asked.
    Forced(String),
}

/// A PIN policy as a mathematical value.
pub enum PinReadModeView {
    Interactive,
    Forced(Seq<char>),
}

impl View for PinReadMode {
    type V = PinReadModeView;

    open spec fn view(&self) -> PinReadModeView {
        match *self {
            PinReadMode::Interactive => PinReadModeView::Interactive,
            PinReadMode::Forced(pin) => PinReadModeView::Forced(pin@),
        }
    }
}

/// The policy that an optional PIN stands for: a given PIN is forced, and
/// without one the user is asked.
pub open spec fn pin_policy(pin: Option<String>) -> PinReadModeView {
    match pin {
        Some(pin) => PinReadModeView::Forced(pin@),
        None => PinReadModeView::Interactive,
    }
}

impl PinReadMode {
    /// The policy that an optional PIN stands for.
    pub fn new(pin: &Option<String>) -> (mode: PinReadMode)
        ensures
            mode@ == pin_policy(*pin),
    {
        match pin {
            Some(pin) => PinReadMode::Forced(pin.clone()),
            None => PinReadMode::Interactive,
        }
    }
}

/// Checks that every QR code in a folder can be read.
#[derive(Clone, Debug, PartialEq, Eq)]
pub struct VerifyQrCommand {
    pub qr_codes_folder: String,
    pub pin: Option<String>,
    pub stop_at_fail: bool,
}

/// Shows the address of the account whose key one QR code holds.
#[derive(Clone, Debug, PartialEq, Eq)]
pub struct GetAddressFromQRCommand {
    pub qr: String,
    pub pin: Option<String>,
}

#[derive(Clone, Debug, PartialEq, Eq)]
pub enum IapyxQrCommand {
    Verify(VerifyQrCommand),
    CheckAddress(GetAddressFromQRCommand),
}

/// What a command on QR codes asks its caller to do.
#[derive(Clone, Debug, PartialEq, Eq)]
pub enum QrAction {
    /// Read every code in `folder` and report how many could be read. With
    /// `stop_at_fail`, the first code that cannot be read ends the run.
    VerifyFolder { folder: String, pin_mode: PinReadMode, stop_at_fail: bool },
    /// Read the code in the file `qr` and show the address of its account.
    ShowAddress { qr: String, pin_mode: PinReadMode },
}

impl IapyxQrCommand {
    /// What this command asks for: the codes of the sub-command that was
    /// chosen, under the PIN policy that its arguments stand for.
    pub fn exec(&self) -> (action: QrAction)
        ensures
            self matches IapyxQrCommand::Verify(verify) ==> (action matches QrAction::VerifyFolder {
                folder,
                pin_mode,
                stop_at_fail,
            } && folder@ == verify.qr_codes_folder@ && pin_mode@ == pin_policy(verify.pin)
                && stop_at_fail == verify.stop_at_fail),
            self matches IapyxQrCommand::CheckAddress(check) ==> (action matches QrAction::ShowAddress {
                qr,
                pin_mode,
            } && qr@ == check.qr@ && pin_mode@ == pin_policy(check.pin)),
    {
        match self {
            IapyxQrCommand::Verify(verify) => QrAction::VerifyFolder {
                folder: verify.qr_codes_folder.clone(),
                pin_mode: PinReadMode::new(&verify.pin),
                stop_at_fail: verify.stop_at_fail,
            },
            IapyxQrCommand::CheckAddress(check) => QrAction::ShowAddress {
                qr: check.qr.clone(),
                pin_mode: PinReadMode::new(&check.pin),
            },
        }
    }
}

/// Why a command on QR codes failed.
#[derive(Clone, Copy, Debug, PartialEq, Eq)]
pub enum IapyxQrCommandError {
    ProxyError(ProxyServerError),
    PinError(PinReadError),
}

impl IapyxQrCommandError {
    /// What the failure is, in words.
    pub fn message(&self) -> (text: &'static str)
        ensures
            text@ == match *self {
                IapyxQrCommandError::ProxyError(_) => "proxy error"@,
                IapyxQrCommandError::PinError(_) => "pin error"@,
            },
    {
        match self {
            IapyxQrCommandError::ProxyError(_) => "proxy error",
            IapyxQrCommandError::PinError(_) => "pin error",
        }
    }
}

impl From<ProxyServerError> for IapyxQrCommandError {
    fn from(e: ProxyServerError) -> (r: IapyxQrCommandError) {
        IapyxQrCommandError::ProxyError(e)
    }
}

impl FromSpecImpl<ProxyServerError> for IapyxQrCommandError {
    open spec fn obeys_from_spec() -> bool {
        true
    }

    open spec fn from_spec(e: ProxyServerError) -> IapyxQrCommandError {
        IapyxQrCommandError::ProxyError(e)
    }
}

impl From<PinReadError> for IapyxQrCommandError {
    fn from(e: PinReadError) -> (r: IapyxQrCommandError) {
        IapyxQrCommandError::PinError(e)
    }
}

impl FromSpecImpl<PinReadError> for IapyxQrCommandError {
    open spec fn obeys_from_spec() -> bool {
        true
    }

    open spec fn from_spec(e: PinReadError) -> IapyxQrCommandError {
        IapyxQrCommandError::PinError(e)
    }
}

} // verus!
