use bech32::ToBase32;
use iapyx::batch::Submission;
use iapyx::error::{
    Bech32Error, ControllerError, MultiControllerError, PinReadError, WalletBackendError,
    WalletError,
};
use iapyx::fragment::{FragmentId, TransactionPayload};
use iapyx::ledger::{AccountState, Choice, Discrimination, LinearFee, Proposal, Settings, Value};
use iapyx::multi_controller::MultiController;
use iapyx::secret::{is_mnemonic, Type};
use iapyx::wallet::{Secret, VoteRequest, Wallet};

const PHRASES: [&str; 3] = [
    "abandon abandon abandon abandon abandon abandon abandon abandon abandon abandon abandon about",
    "legal winner thank year wave sausage worth useful legal winner thank yellow",
    "letter advice cage absurd amount doctor acoustic avoid letter advice cage above",
];

fn some_settings() -> Settings {
    Settings {
        fees: LinearFee { constant: 10, coefficient: 2, certificate: 100 },
        discrimination: Discrimination::Production,
        block0_initial_hash: [0xb0; 32],
    }
}

fn id(n: u8) -> FragmentId {
    FragmentId::new([n; 32])
}

fn proposal(index: u8) -> Proposal {
    Proposal { vote_plan_id: [0x11; 32], index, options: 3 }
}

/// Stands for the signing engine: the transaction holds the counter and the
/// proposal's index, and its identifier is the counter.
fn sign(request: &VoteRequest) -> TransactionPayload {
    let mut bytes = request.counter.to_be_bytes().to_vec();
    bytes.push(request.proposal.index);
    bytes.push(request.choice.as_byte());
    TransactionPayload { bytes, id: id(request.counter as u8) }
}

fn pool_of(keys: &[u8]) -> MultiController {
    let secrets: Vec<Vec<u8>> = keys.iter().map(|k| vec![*k; 64]).collect();
    MultiController::recover_from_qrs(Ok(some_settings()), Ok(secrets)).unwrap()
}

fn err_of(res: Result<MultiController, MultiControllerError>) -> MultiControllerError {
    match res {
        Ok(_) => panic!("a pool was returned"),
        Err(e) => e,
    }
}

#[test]
fn generate_makes_the_asked_number_of_wallets() {
    let controller = MultiController::generate(Ok(some_settings()), Type::Type12Words, 4).unwrap();
    assert_eq!(controller.wallet_count(), 4);
    assert_eq!(controller.settings(), some_settings());
    for i in 0..4 {
        let wallet = controller.wallet(i);
        match wallet.secret() {
            Secret::Mnemonics { phrase, password } => {
                assert!(is_mnemonic(phrase));
                assert_eq!(phrase.split_whitespace().count(), 12);
                assert!(password.is_empty());
            }
            Secret::AccountKey { .. } => panic!("a generated wallet holds a mnemonic"),
        }
        assert_eq!(wallet.counter(), 0);
        assert_eq!(wallet.total_value(), Value(0));
        assert!(wallet.pending_transactions().is_empty());
    }
}

#[test]
fn generate_of_no_wallet() {
    let controller = MultiController::generate(Ok(some_settings()), Type::Type24Words, 0).unwrap();
    assert_eq!(controller.wallet_count(), 0);
}

#[test]
fn generate_fails_without_settings() {
    let res = MultiController::generate(
        Err(WalletBackendError::SettingsUnavailable),
        Type::Type12Words,
        2,
    );
    assert_eq!(
        err_of(res),
        MultiControllerError::BackendError(WalletBackendError::SettingsUnavailable)
    );
}

#[test]
fn recover_keeps_the_order_of_the_phrases() {
    let mnemonics: Vec<String> = PHRASES.iter().map(|p| p.to_string()).collect();
    let controller = MultiController::recover(Ok(some_settings()), mnemonics, b"pass").unwrap();
    assert_eq!(controller.wallet_count(), 3);
    for i in 0..3 {
        assert_eq!(
            *controller.wallet(i).secret(),
            Secret::Mnemonics { phrase: PHRASES[i].to_string(), password: b"pass".to_vec() }
        );
    }
}

#[test]
fn recover_of_no_phrase_is_an_empty_pool() {
    let controller = MultiController::recover(Ok(some_settings()), Vec::new(), b"").unwrap();
    assert_eq!(controller.wallet_count(), 0);
}

#[test]
fn recover_fails_on_one_malformed_phrase() {
    let mnemonics = vec![
        PHRASES[0].to_string(),
        "abandon abandon abandon".to_string(),
        PHRASES[2].to_string(),
    ];
    let res = MultiController::recover(Ok(some_settings()), mnemonics, b"pass");
    assert_eq!(err_of(res), MultiControllerError::WalletError(WalletError::MalformedMnemonics));
}

#[test]
fn recover_reports_the_backend_before_the_phrases() {
    let mnemonics = vec!["no phrase".to_string()];
    let res =
        MultiController::recover(Err(WalletBackendError::BackendUnavailable), mnemonics, b"");
    assert_eq!(
        err_of(res),
        MultiControllerError::BackendError(WalletBackendError::BackendUnavailable)
    );
}

#[test]
fn recover_from_qrs_keeps_the_order_of_the_keys() {
    let controller = pool_of(&[5, 6, 7]);
    assert_eq!(controller.wallet_count(), 3);
    assert_eq!(*controller.wallet(0).secret(), Secret::AccountKey { key: [5; 64] });
    assert_eq!(*controller.wallet(1).secret(), Secret::AccountKey { key: [6; 64] });
    assert_eq!(*controller.wallet(2).secret(), Secret::AccountKey { key: [7; 64] });
}

#[test]
fn recover_from_qrs_passes_the_pin_failure_on() {
    let res = MultiController::recover_from_qrs(
        Ok(some_settings()),
        Err(PinReadError::PinUnavailable),
    );
    assert_eq!(err_of(res), MultiControllerError::PinReadError(PinReadError::PinUnavailable));
    let res = MultiController::recover_from_qrs(
        Ok(some_settings()),
        Err(PinReadError::DecryptionFailed),
    );
    assert_eq!(err_of(res), MultiControllerError::PinReadError(PinReadError::DecryptionFailed));
    let res =
        MultiController::recover_from_qrs(Ok(some_settings()), Err(PinReadError::MalformedCode));
    assert_eq!(err_of(res), MultiControllerError::PinReadError(PinReadError::MalformedCode));
}

#[test]
fn recover_from_qrs_reports_the_backend_first() {
    let res = MultiController::recover_from_qrs(
        Err(WalletBackendError::SettingsUnavailable),
        Err(PinReadError::PinUnavailable),
    );
    assert_eq!(
        err_of(res),
        MultiControllerError::BackendError(WalletBackendError::SettingsUnavailable)
    );
}

#[test]
fn recover_from_qrs_fails_on_the_first_short_key() {
    let secrets = vec![vec![1u8; 64], vec![2u8; 63], vec![3u8; 10]];
    let res = MultiController::recover_from_qrs(Ok(some_settings()), Ok(secrets));
    assert_eq!(err_of(res), MultiControllerError::WalletError(WalletError::WrongKeyLength(63)));
}

#[test]
fn recover_from_sks_decodes_each_key() {
    let first: Vec<u8> = (0u8..64).collect();
    let second: Vec<u8> = (64u8..128).collect();
    let texts = vec![
        bech32::encode("ed25519e_sk", first.to_base32()).unwrap(),
        bech32::encode("ed25519e_sk", second.to_base32()).unwrap(),
    ];
    let controller = MultiController::recover_from_sks(Ok(some_settings()), &texts).unwrap();
    assert_eq!(controller.wallet_count(), 2);
    match controller.wallet(0).secret() {
        Secret::AccountKey { key } => assert_eq!(key.to_vec(), first),
        Secret::Mnemonics { .. } => panic!("a key was given"),
    }
    match controller.wallet(1).secret() {
        Secret::AccountKey { key } => assert_eq!(key.to_vec(), second),
        Secret::Mnemonics { .. } => panic!("a key was given"),
    }
}

#[test]
fn recover_from_sks_fails_on_a_text_that_is_no_bech32() {
    let good: Vec<u8> = (0u8..64).collect();
    let texts = vec![
        bech32::encode("ed25519e_sk", good.to_base32()).unwrap(),
        "pzry9x0s0muk".to_string(),
    ];
    let res = MultiController::recover_from_sks(Ok(some_settings()), &texts);
    assert_eq!(
        err_of(res),
        MultiControllerError::ControllerError(ControllerError::Bech32(
            Bech32Error::MissingSeparator
        ))
    );
}

#[test]
fn recover_from_sks_fails_on_a_key_of_32_bytes() {
    let short = vec![1u8; 32];
    let texts = vec![bech32::encode("ed25519_sk", short.to_base32()).unwrap()];
    let res = MultiController::recover_from_sks(Ok(some_settings()), &texts);
    assert_eq!(err_of(res), MultiControllerError::WalletError(WalletError::WrongKeyLength(32)));
}

#[test]
fn recover_from_sks_reports_the_first_failure() {
    let short = vec![1u8; 32];
    let texts = vec![
        bech32::encode("ed25519_sk", short.to_base32()).unwrap(),
        "pzry9x0s0muk".to_string(),
    ];
    let res = MultiController::recover_from_sks(Ok(some_settings()), &texts);
    assert_eq!(err_of(res), MultiControllerError::WalletError(WalletError::WrongKeyLength(32)));
}

#[test]
fn assemble_takes_wallets_in_order() {
    let results = vec![
        Wallet::recover_from_account(&[1u8; 64]).map_err(MultiControllerError::WalletError),
        Wallet::recover(PHRASES[0], b"x").map_err(MultiControllerError::WalletError),
    ];
    let controller = MultiController::assemble(Ok(some_settings()), results).unwrap();
    assert_eq!(controller.wallet_count(), 2);
    assert_eq!(*controller.wallet(0).secret(), Secret::AccountKey { key: [1; 64] });
    assert_eq!(
        *controller.wallet(1).secret(),
        Secret::Mnemonics { phrase: PHRASES[0].to_string(), password: b"x".to_vec() }
    );
}

#[test]
fn assemble_returns_the_first_failure() {
    let results = vec![
        Wallet::recover_from_account(&[1u8; 64]).map_err(MultiControllerError::WalletError),
        Err(MultiControllerError::PinReadError(PinReadError::DecryptionFailed)),
        Err(MultiControllerError::WalletError(WalletError::CannotSign)),
    ];
    let res = MultiController::assemble(Ok(some_settings()), results);
    assert_eq!(err_of(res), MultiControllerError::PinReadError(PinReadError::DecryptionFailed));
}

#[test]
fn refresh_wallet_takes_the_fetched_state() {
    let mut controller = pool_of(&[1, 2, 3]);
    let res = controller.refresh_wallet(1, Ok(AccountState::new(Value(250), 17)));
    assert_eq!(res, Ok(()));
    assert_eq!(controller.wallet(1).counter(), 17);
    assert_eq!(controller.wallet(1).total_value(), Value(250));
    assert_eq!(controller.wallet(0).counter(), 0);
    assert_eq!(controller.wallet(2).counter(), 0);
    assert_eq!(controller.wallet(0).total_value(), Value(0));
    let res = controller.refresh_wallet(1, Ok(AccountState::new(Value(240), 18)));
    assert_eq!(res, Ok(()));
    assert_eq!(controller.wallet(1).counter(), 18);
    assert_eq!(controller.wallet(1).total_value(), Value(240));
}

#[test]
fn refresh_wallet_of_an_unknown_account_changes_nothing() {
    let mut controller = pool_of(&[1]);
    controller.refresh_wallet(0, Ok(AccountState::new(Value(5), 2))).unwrap();
    let res = controller.refresh_wallet(0, Err(WalletBackendError::UnknownAccount));
    assert_eq!(res, Err(MultiControllerError::BackendError(WalletBackendError::UnknownAccount)));
    assert_eq!(controller.wallet(0).counter(), 2);
    assert_eq!(controller.wallet(0).total_value(), Value(5));
}

#[test]
fn is_converted_answers_what_the_backend_answered() {
    let controller = pool_of(&[1, 2]);
    assert_eq!(controller.is_converted(0, Ok(false)), Ok(false));
    assert_eq!(controller.is_converted(1, Ok(true)), Ok(true));
    assert_eq!(
        controller.is_converted(0, Err(WalletBackendError::BackendUnavailable)),
        Err(MultiControllerError::BackendError(WalletBackendError::BackendUnavailable))
    );
}

#[test]
fn proposals_are_passed_on() {
    let controller = pool_of(&[1]);
    let listed = vec![proposal(0), proposal(1)];
    assert_eq!(controller.proposals(Ok(listed.clone())), Ok(listed));
    assert_eq!(
        controller.proposals(Err(WalletBackendError::BackendUnavailable)),
        Err(MultiControllerError::BackendError(WalletBackendError::BackendUnavailable))
    );
}

#[test]
fn vote_asks_on_the_held_state_and_changes_nothing() {
    let mut controller = pool_of(&[1, 2]);
    controller.refresh_wallet(1, Ok(AccountState::new(Value(100), 5))).unwrap();
    let request = controller.vote(1, &proposal(4), Choice::new(2));
    assert_eq!(
        request,
        VoteRequest {
            settings: some_settings(),
            proposal: proposal(4),
            choice: Choice::new(2),
            value: Value(100),
            counter: 5,
        }
    );
    assert_eq!(controller.wallet(1).counter(), 5);
    assert!(controller.wallet(1).pending_transactions().is_empty());
}

#[test]
fn submit_one_tracks_the_fragment_and_hands_out_its_bytes() {
    let mut controller = pool_of(&[1, 2]);
    controller.refresh_wallet(0, Ok(AccountState::new(Value(100), 5))).unwrap();
    let request = controller.vote(0, &proposal(4), Choice::new(2));
    let bytes = controller.submit_one(0, Ok(sign(&request))).unwrap();
    assert_eq!(bytes, vec![0, 0, 0, 5, 4, 2]);
    assert_eq!(controller.wallet(0).pending_transactions(), vec![id(5)]);
    assert!(controller.wallet(1).pending_transactions().is_empty());
    assert_eq!(controller.wallet(0).counter(), 5);
}

#[test]
fn submit_one_of_a_signing_failure() {
    let mut controller = pool_of(&[1]);
    let res = controller.submit_one(0, Err(WalletError::CannotSign));
    assert_eq!(res, Err(MultiControllerError::WalletError(WalletError::CannotSign)));
    assert!(controller.wallet(0).pending_transactions().is_empty());
}

#[test]
fn votes_batch_counters_run_from_the_fetched_counter() {
    let mut controller = pool_of(&[1, 2]);
    let (p0, p1, p2) = (proposal(0), proposal(1), proposal(2));
    let votes = vec![(&p0, Choice::new(0)), (&p1, Choice::new(1)), (&p2, Choice::new(2))];
    let requests =
        controller.votes_batch(1, votes, Ok(AccountState::new(Value(100), 5))).unwrap();
    let counters: Vec<u32> = requests.iter().map(|r| r.counter).collect();
    assert_eq!(counters, vec![5, 6, 7]);
    for (k, request) in requests.iter().enumerate() {
        assert_eq!(request.value, Value(100));
        assert_eq!(request.settings, some_settings());
        assert_eq!(request.proposal, proposal(k as u8));
        assert_eq!(request.choice, Choice::new(k as u8));
    }
    assert_eq!(controller.wallet(1).counter(), 7);
    assert_eq!(controller.wallet(1).total_value(), Value(100));
    assert_eq!(controller.wallet(0).counter(), 0);
}

#[test]
fn votes_batch_returns_signed_payloads_in_reverse() {
    let mut controller = pool_of(&[1]);
    let (p0, p1, p2) = (proposal(10), proposal(11), proposal(12));
    let votes = vec![(&p0, Choice::new(0)), (&p1, Choice::new(1)), (&p2, Choice::new(2))];
    let requests =
        controller.votes_batch(0, votes, Ok(AccountState::new(Value(100), 5))).unwrap();
    assert_eq!(requests.len(), 3);
    let signed: Vec<Result<TransactionPayload, WalletError>> =
        requests.iter().map(|r| Ok(sign(r))).collect();
    let submission = controller.submit_batch(0, true, signed).unwrap();
    assert_eq!(
        submission,
        Submission {
            fragments: vec![
                vec![0, 0, 0, 7, 12, 2],
                vec![0, 0, 0, 6, 11, 1],
                vec![0, 0, 0, 5, 10, 0],
            ],
            use_v1: true,
        }
    );
    assert_eq!(controller.wallet(0).pending_transactions(), vec![id(5), id(6), id(7)]);
}

#[test]
fn votes_batch_without_votes_changes_nothing() {
    let mut controller = pool_of(&[1]);
    controller.refresh_wallet(0, Ok(AccountState::new(Value(1), 1))).unwrap();
    let requests = controller
        .votes_batch(0, Vec::new(), Ok(AccountState::new(Value(100), 5)))
        .unwrap();
    assert!(requests.is_empty());
    assert_eq!(controller.wallet(0).counter(), 1);
    assert_eq!(controller.wallet(0).total_value(), Value(1));
    let submission = controller.submit_batch(0, false, Vec::new()).unwrap();
    assert_eq!(submission, Submission { fragments: Vec::new(), use_v1: false });
}

#[test]
fn votes_batch_of_one_vote_at_the_last_counter() {
    let mut controller = pool_of(&[1]);
    let p = proposal(0);
    let requests = controller
        .votes_batch(0, vec![(&p, Choice::new(0))], Ok(AccountState::new(Value(3), u32::MAX)))
        .unwrap();
    assert_eq!(requests.len(), 1);
    assert_eq!(requests[0].counter, u32::MAX);
    assert_eq!(controller.wallet(0).counter(), u32::MAX);
}

#[test]
fn votes_batch_fails_when_the_state_cannot_be_fetched() {
    let mut controller = pool_of(&[1]);
    controller.refresh_wallet(0, Ok(AccountState::new(Value(1), 1))).unwrap();
    let p = proposal(0);
    let res =
        controller.votes_batch(0, vec![(&p, Choice::new(0))], Err(WalletBackendError::UnknownAccount));
    assert_eq!(res, Err(MultiControllerError::BackendError(WalletBackendError::UnknownAccount)));
    assert_eq!(controller.wallet(0).counter(), 1);
    assert_eq!(controller.wallet(0).total_value(), Value(1));
}

#[test]
fn submit_batch_fails_as_a_whole_on_one_signing_failure() {
    let mut controller = pool_of(&[1, 2]);
    let signed = vec![
        Ok(TransactionPayload { bytes: vec![1], id: id(1) }),
        Ok(TransactionPayload { bytes: vec![2], id: id(2) }),
        Err(WalletError::CannotSign),
        Ok(TransactionPayload { bytes: vec![4], id: id(4) }),
    ];
    let res = controller.submit_batch(1, false, signed);
    assert_eq!(res, Err(MultiControllerError::WalletError(WalletError::CannotSign)));
    assert_eq!(controller.wallet(1).pending_transactions(), vec![id(1), id(2)]);
    assert!(controller.wallet(0).pending_transactions().is_empty());
}

#[test]
fn submit_batch_keeps_the_protocol_flag() {
    let mut controller = pool_of(&[1]);
    let signed = vec![Ok(TransactionPayload { bytes: vec![1], id: id(1) })];
    let submission = controller.submit_batch(0, false, signed).unwrap();
    assert_eq!(submission, Submission { fragments: vec![vec![1]], use_v1: false });
}

#[test]
fn confirm_transaction_reaches_every_wallet_that_knows_the_fragment() {
    let mut controller = pool_of(&[1, 2, 3]);
    controller.submit_one(0, Ok(TransactionPayload { bytes: vec![1], id: id(1) })).unwrap();
    controller.submit_one(0, Ok(TransactionPayload { bytes: vec![2], id: id(2) })).unwrap();
    controller.submit_one(1, Ok(TransactionPayload { bytes: vec![2], id: id(2) })).unwrap();
    controller.submit_one(2, Ok(TransactionPayload { bytes: vec![3], id: id(3) })).unwrap();
    controller.confirm_transaction(id(2));
    assert_eq!(controller.wallet(0).pending_transactions(), vec![id(1)]);
    assert!(controller.wallet(1).pending_transactions().is_empty());
    assert_eq!(controller.wallet(2).pending_transactions(), vec![id(3)]);
    assert!(controller.wallet(0).is_confirmed(&id(2)));
    assert!(controller.wallet(1).is_confirmed(&id(2)));
    assert!(!controller.wallet(2).is_confirmed(&id(2)));
}

#[test]
fn confirm_transaction_twice_is_once() {
    let mut controller = pool_of(&[1, 2]);
    controller.submit_one(0, Ok(TransactionPayload { bytes: vec![1], id: id(1) })).unwrap();
    controller.submit_one(0, Ok(TransactionPayload { bytes: vec![2], id: id(2) })).unwrap();
    controller.submit_one(1, Ok(TransactionPayload { bytes: vec![1], id: id(1) })).unwrap();
    controller.confirm_transaction(id(1));
    let once: Vec<Vec<FragmentId>> =
        (0..2).map(|i| controller.wallet(i).pending_transactions()).collect();
    controller.confirm_transaction(id(1));
    let twice: Vec<Vec<FragmentId>> =
        (0..2).map(|i| controller.wallet(i).pending_transactions()).collect();
    assert_eq!(once, twice);
    assert_eq!(once, vec![vec![id(2)], vec![]]);
    assert!(controller.wallet(0).is_confirmed(&id(1)));
    assert!(controller.wallet(1).is_confirmed(&id(1)));
}

#[test]
fn confirm_all_transactions_confirms_everything_everywhere() {
    let mut controller = pool_of(&[1, 2, 3]);
    controller.submit_one(0, Ok(TransactionPayload { bytes: vec![1], id: id(1) })).unwrap();
    controller.submit_one(0, Ok(TransactionPayload { bytes: vec![2], id: id(2) })).unwrap();
    controller.submit_one(2, Ok(TransactionPayload { bytes: vec![3], id: id(3) })).unwrap();
    controller.confirm_transaction(id(1));
    controller.confirm_all_transactions();
    for i in 0..3 {
        assert!(controller.wallet(i).pending_transactions().is_empty());
    }
    assert!(controller.wallet(0).is_confirmed(&id(1)));
    assert!(controller.wallet(0).is_confirmed(&id(2)));
    assert!(controller.wallet(2).is_confirmed(&id(3)));
    assert!(!controller.wallet(1).is_confirmed(&id(1)));
    assert!(!controller.wallet(2).is_confirmed(&id(1)));
}

#[test]
fn confirming_an_unknown_fragment_changes_no_wallet() {
    let mut controller = pool_of(&[1, 2]);
    controller.refresh_wallet(0, Ok(AccountState::new(Value(10), 3))).unwrap();
    controller.submit_one(0, Ok(TransactionPayload { bytes: vec![1], id: id(1) })).unwrap();
    controller.confirm_transaction(id(9));
    assert_eq!(controller.wallet(0).pending_transactions(), vec![id(1)]);
    assert!(controller.wallet(1).pending_transactions().is_empty());
    assert!(!controller.wallet(0).is_confirmed(&id(9)));
    assert_eq!(controller.wallet(0).counter(), 3);
    assert_eq!(controller.wallet(0).total_value(), Value(10));
}

#[test]
fn confirm_on_an_empty_pool() {
    let mut controller = MultiController::recover(Ok(some_settings()), Vec::new(), b"").unwrap();
    controller.confirm_transaction(id(1));
    controller.confirm_all_transactions();
    assert_eq!(controller.wallet_count(), 0);
}

#[test]
fn wallet_mut_changes_one_wallet() {
    let mut controller = pool_of(&[1, 2]);
    controller.wallet_mut(1).set_state(Value(77), 9);
    controller.wallet_mut(1).track(id(4));
    assert_eq!(controller.wallet(1).counter(), 9);
    assert_eq!(controller.wallet(1).total_value(), Value(77));
    assert_eq!(controller.wallet(1).pending_transactions(), vec![id(4)]);
    assert_eq!(controller.wallet(0).counter(), 0);
    assert!(controller.wallet(0).pending_transactions().is_empty());
    assert_eq!(controller.wallet_count(), 2);
}

#[test]
fn generated_phrases_have_the_asked_length() {
    let controller = MultiController::generate(Ok(some_settings()), Type::Type21Words, 2).unwrap();
    for i in 0..2 {
        match controller.wallet(i).secret() {
            Secret::Mnemonics { phrase, .. } => {
                assert_eq!(phrase.matches(' ').count(), 20);
                assert_eq!(phrase.split_whitespace().count(), 21);
            }
            Secret::AccountKey { .. } => panic!("a generated wallet holds a mnemonic"),
        }
    }
}
