//! Check-in classification and multi-account sign-in orchestration for a
//! course platform: which activities are check-ins, which are open and in what
//! order, which locations and proofs to offer, and how each account's attempt
//! over the candidates proceeds and ends.

pub mod activity;
pub mod location;
pub mod signer;
pub mod proof_source;
pub mod alias;
pub mod cli;
pub mod qrcode;
pub mod run;
