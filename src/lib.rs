//! Settlement orchestrator: an owner-gated engine that dispatches delegated
//! calls to an exchange, reconciles their effect by balance differencing, keeps
//! a per-(beneficiary, asset) ledger and emits outbound settlement messages.

pub mod table;
pub mod abi;
pub mod contract;
pub mod error;
pub mod execute;
pub mod gate;
pub mod ledger;
pub mod msg;
pub mod quote;
pub mod reply;
pub mod state;
