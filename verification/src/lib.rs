//! A ledger of decision commitments made by registered agents.
//!
//! Every record lives at an address derived from what identifies it, so a
//! record is created at most once and can be found again without an index.

pub mod address;
pub mod records;
pub mod rules;
pub mod ledger;
pub mod laws;

pub use address::Address;
pub use ledger::{log_decision, register_agent, Ledger};
pub use records::{
    AgentAccount, AgentRegistered, DecisionLogged, DecisionRecord, LogDecision, LogosError,
    RegisterAgent,
};
