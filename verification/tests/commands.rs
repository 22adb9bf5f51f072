use iapyx::error::{
    Bech32Error, ControllerError, MultiControllerError, PinReadError, ProxyServerError,
    WalletBackendError, WalletError,
};
use iapyx::qr_command::{
    GetAddressFromQRCommand, IapyxQrCommand, IapyxQrCommandError, PinReadMode, QrAction,
    VerifyQrCommand,
};

#[test]
fn verify_with_a_pin_forces_it() {
    let command = IapyxQrCommand::Verify(VerifyQrCommand {
        qr_codes_folder: "codes".to_string(),
        pin: Some("1234".to_string()),
        stop_at_fail: true,
    });
    assert_eq!(
        command.exec(),
        QrAction::VerifyFolder {
            folder: "codes".to_string(),
            pin_mode: PinReadMode::Forced("1234".to_string()),
            stop_at_fail: true,
        }
    );
}

#[test]
fn verify_without_a_pin_asks_for_it() {
    let command = IapyxQrCommand::Verify(VerifyQrCommand {
        qr_codes_folder: "codes".to_string(),
        pin: None,
        stop_at_fail: false,
    });
    assert_eq!(
        command.exec(),
        QrAction::VerifyFolder {
            folder: "codes".to_string(),
            pin_mode: PinReadMode::Interactive,
            stop_at_fail: false,
        }
    );
}

#[test]
fn check_address_reads_one_code() {
    let command = IapyxQrCommand::CheckAddress(GetAddressFromQRCommand {
        qr: "wallet.png".to_string(),
        pin: Some("0000".to_string()),
    });
    assert_eq!(
        command.exec(),
        QrAction::ShowAddress {
            qr: "wallet.png".to_string(),
            pin_mode: PinReadMode::Forced("0000".to_string()),
        }
    );
    let command = IapyxQrCommand::CheckAddress(GetAddressFromQRCommand {
        qr: "wallet.png".to_string(),
        pin: None,
    });
    assert_eq!(
        command.exec(),
        QrAction::ShowAddress { qr: "wallet.png".to_string(), pin_mode: PinReadMode::Interactive }
    );
}

#[test]
fn pin_policy_of_an_optional_pin() {
    assert_eq!(PinReadMode::new(&None), PinReadMode::Interactive);
    assert_eq!(PinReadMode::new(&Some("42".to_string())), PinReadMode::Forced("42".to_string()));
}

#[test]
fn qr_command_errors_wrap_their_cause() {
    assert_eq!(
        IapyxQrCommandError::from(PinReadError::PinUnavailable),
        IapyxQrCommandError::PinError(PinReadError::PinUnavailable)
    );
    assert_eq!(
        IapyxQrCommandError::from(ProxyServerError::Unavailable),
        IapyxQrCommandError::ProxyError(ProxyServerError::Unavailable)
    );
    assert_eq!(IapyxQrCommandError::PinError(PinReadError::MalformedCode).message(), "pin error");
    assert_eq!(
        IapyxQrCommandError::ProxyError(ProxyServerError::MalformedResponse).message(),
        "proxy error"
    );
}

#[test]
fn controller_errors_wrap_their_cause() {
    assert_eq!(
        MultiControllerError::from(WalletError::CannotSign),
        MultiControllerError::WalletError(WalletError::CannotSign)
    );
    assert_eq!(
        MultiControllerError::from(WalletBackendError::UnknownAccount),
        MultiControllerError::BackendError(WalletBackendError::UnknownAccount)
    );
    assert_eq!(
        MultiControllerError::from(ControllerError::Bech32(Bech32Error::InvalidPadding)),
        MultiControllerError::ControllerError(ControllerError::Bech32(Bech32Error::InvalidPadding))
    );
    assert_eq!(
        MultiControllerError::from(PinReadError::DecryptionFailed),
        MultiControllerError::PinReadError(PinReadError::DecryptionFailed)
    );
    assert_eq!(
        ControllerError::from(Bech32Error::MixedCase),
        ControllerError::Bech32(Bech32Error::MixedCase)
    );
}

#[test]
fn controller_errors_say_what_they_are() {
    assert_eq!(MultiControllerError::WalletError(WalletError::CannotSign).message(), "wallet error");
    assert_eq!(
        MultiControllerError::BackendError(WalletBackendError::BackendUnavailable).message(),
        "wallet error"
    );
    assert_eq!(
        MultiControllerError::ControllerError(ControllerError::Bech32(Bech32Error::InvalidLength))
            .message(),
        "controller error"
    );
    assert_eq!(
        MultiControllerError::PinReadError(PinReadError::PinUnavailable).message(),
        "pin read error"
    );
}
