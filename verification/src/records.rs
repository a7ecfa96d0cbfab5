//! The records that the ledger keeps, the events that report them, and the
//! requests and errors of the two operations.

use crate::address::{text_bytes, Address};
use vstd::prelude::*;

verus! {

/// The most bytes that an agent's label or an objective's label may take.
pub const MAX_LABEL_LEN: usize = 50;

/// The bytes of a decision hash: a 256-bit digest in hexadecimal.
pub const HASH_LEN: usize = 64;

/// The bytes that an agent account occupies: header, authority, label, time.
pub const AGENT_ACCOUNT_SPACE: usize = 8 + 32 + 50 + 8;

/// The bytes that a decision record occupies: header, agent, hash, label, time.
pub const DECISION_RECORD_SPACE: usize = 8 + 32 + 64 + 50 + 8;

/// Why an operation was refused. A refused operation changes nothing.
#[derive(Clone, Copy, Debug, PartialEq, Eq, Structural)]
pub enum LogosError {
    /// The decision hash does not have exactly 64 bytes.
    InvalidHashLength,
    /// The signer is not the authority of the agent account named.
    Unauthorized,
    /// A record already lives at the address.
    DuplicateCreation,
    /// A label takes more bytes than its record has room for.
    CapacityExceeded,
    /// The payer cannot cover the cost of the new record.
    InsufficientResources,
    /// The seeds admit no address.
    AddressUnavailable,
}

/// An agent, as stored.
#[derive(Clone, Debug, PartialEq, Eq)]
pub struct AgentAccount {
    pub authority: Address,
    pub agent_id: String,
    pub created_at: i64,
}

/// A decision commitment, as stored.
#[derive(Clone, Debug, PartialEq, Eq)]
pub struct DecisionRecord {
    pub agent: Address,
    pub decision_hash: String,
    pub objective_id: String,
    pub timestamp: i64,
}

/// Reports that an agent account was created.
#[derive(Clone, Debug, PartialEq, Eq)]
pub struct AgentRegistered {
    pub agent: Address,
    pub agent_id: String,
    pub authority: Address,
    pub timestamp: i64,
}

/// Reports that a decision record was created.
#[derive(Clone, Debug, PartialEq, Eq)]
pub struct DecisionLogged {
    pub agent: Address,
    pub objective_id: String,
    pub decision_hash: String,
    pub timestamp: i64,
}

/// Who asks for a registration, and what the host knows of the request.
#[derive(Clone, Copy, Debug, PartialEq, Eq)]
pub struct RegisterAgent {
    /// The signer, who becomes the agent's authority and pays for the account.
    pub authority: Address,
    /// Whether the signer can cover the cost of the account.
    pub funded: bool,
}

/// Who asks to log a decision, for which agent, and what the host knows of
/// the request.
#[derive(Clone, Copy, Debug, PartialEq, Eq)]
pub struct LogDecision {
    /// The address of the agent account that the decision belongs to.
    pub agent_account: Address,
    /// The signer, who pays for the record.
    pub authority: Address,
    /// Whether the signer can cover the cost of the record.
    pub funded: bool,
}

impl AgentAccount {
    /// The bytes that the account takes when stored: header, authority,
    /// label, time.
    pub open spec fn stored_len(&self) -> nat {
        8 + self.authority@.len() + text_bytes(self.agent_id@).len() + 8
    }
}

impl DecisionRecord {
    /// The bytes that the record takes when stored: header, agent, hash,
    /// label, time.
    pub open spec fn stored_len(&self) -> nat {
        8 + self.agent@.len() + text_bytes(self.decision_hash@).len() + text_bytes(
            self.objective_id@,
        ).len() + 8
    }
}

impl AgentRegistered {
    /// Whether the event carries the account's fields and its address.
    pub open spec fn mirrors(&self, address: Address, account: &AgentAccount) -> bool {
        &&& self.agent@ == address@
        &&& self.agent_id@ == account.agent_id@
        &&& self.authority@ == account.authority@
        &&& self.timestamp == account.created_at
    }
}

impl DecisionLogged {
    /// Whether the event carries the record's fields.
    pub open spec fn mirrors(&self, record: &DecisionRecord) -> bool {
        &&& self.agent@ == record.agent@
        &&& self.objective_id@ == record.objective_id@
        &&& self.decision_hash@ == record.decision_hash@
        &&& self.timestamp == record.timestamp
    }
}

} // verus!
