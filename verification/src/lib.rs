//! A controller for a pool of voting wallets that talks to a ledger backend
//! through its caller: every operation takes what the backend or the signing
//! engine answered and returns what has to be asked or sent next.
//!
//! - [`secret`]: mnemonic phrases and account keys as they come in.
//! - [`wallet`]: one wallet, its view of its account and its fragments.
//! - [`batch`]: the counters and the order of a batch of votes.
//! - [`multi_controller`]: the pool and its operations.
//! - [`laws`]: what holds of confirmation for every pool.
//! - [`qr_command`]: the commands on QR codes.
//! - [`ledger`], [`fragment`], [`error`]: the plain values of all of these.

pub mod batch;
pub mod error;
pub mod fragment;
pub mod laws;
pub mod ledger;
pub mod multi_controller;
pub mod qr_command;
pub mod secret;
pub mod wallet;
