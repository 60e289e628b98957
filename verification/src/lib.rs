//! Verified core of the Joystream runtime modules: the crowd-funded bounty module, the
//! membership module, the proposals codex rules and the configurations of the council and
//! governance test runtimes.
pub mod origin;
pub mod bounty;
pub mod bounty_laws;
pub mod handle_hash;
pub mod membership;
pub mod membership_laws;
pub mod codex;
pub mod council_mock;
pub mod governance_mock;
