//! What each operation decides, from plain facts about the request.

use crate::address::{owner_view, text_bytes, Address};
use crate::records::{LogosError, HASH_LEN, MAX_LABEL_LEN};
use vstd::prelude::*;

verus! {

/// Whether the text fits the room that a record has for a label.
pub open spec fn label_fits(label: Seq<char>) -> bool {
    text_bytes(label).len() <= MAX_LABEL_LEN
}

/// Whether the text has the length of a decision hash.
pub open spec fn hash_well_formed(hash: Seq<char>) -> bool {
    text_bytes(hash).len() == HASH_LEN
}

/// The outcome of a registration: the address of the new account, or the
/// first reason for which none is created. `slot` is the address derived for
/// the account, `occupied` whether an account lives there already.
pub open spec fn registration_outcome<A>(
    agent_id: Seq<char>,
    slot: Option<A>,
    occupied: bool,
    funded: bool,
) -> Result<A, LogosError> {
    if !label_fits(agent_id) {
        Err(LogosError::CapacityExceeded)
    } else {
        allocation_outcome(slot, occupied, funded)
    }
}

/// The outcome of logging a decision: the address of the new record, or the
/// first reason for which none is created. `owner` is the authority stored in
/// the agent account named, if there is such an account: without one, nobody
/// is authorized.
pub open spec fn decision_outcome<A>(
    signer: Seq<u8>,
    owner: Option<Seq<u8>>,
    decision_hash: Seq<char>,
    objective_id: Seq<char>,
    slot: Option<A>,
    occupied: bool,
    funded: bool,
) -> Result<A, LogosError> {
    if !authorized(signer, owner) {
        Err(LogosError::Unauthorized)
    } else if !hash_well_formed(decision_hash) {
        Err(LogosError::InvalidHashLength)
    } else if !label_fits(objective_id) {
        Err(LogosError::CapacityExceeded)
    } else {
        allocation_outcome(slot, occupied, funded)
    }
}

/// Whether the signer is the authority stored in the agent account.
pub open spec fn authorized(signer: Seq<u8>, owner: Option<Seq<u8>>) -> bool {
    owner == Some(signer)
}

/// The outcome of creating a record at a derived address.
pub open spec fn allocation_outcome<A>(slot: Option<A>, occupied: bool, funded: bool) -> Result<
    A,
    LogosError,
> {
    match slot {
        None => Err(LogosError::AddressUnavailable),
        Some(address) => if occupied {
            Err(LogosError::DuplicateCreation)
        } else if !funded {
            Err(LogosError::InsufficientResources)
        } else {
            Ok(address)
        },
    }
}

/// Decides whether the signer may act for the agent account.
pub fn check_authority(signer: &Address, owner: Option<Address>) -> (r: Result<(), LogosError>)
    ensures
        r == if authorized(signer@, owner_view(owner)) {
            Ok::<(), LogosError>(())
        } else {
            Err::<(), LogosError>(LogosError::Unauthorized)
        },
{
    match owner {
        Some(stored) => if stored.same_as(signer) {
            Ok(())
        } else {
            Err(LogosError::Unauthorized)
        },
        None => Err(LogosError::Unauthorized),
    }
}

/// Decides whether a record can be created at the derived address.
pub fn check_allocation(slot: Option<Address>, occupied: bool, funded: bool) -> (r: Result<
    Address,
    LogosError,
>)
    ensures
        r == allocation_outcome(slot, occupied, funded),
{
    match slot {
        None => Err(LogosError::AddressUnavailable),
        Some(address) => if occupied {
            Err(LogosError::DuplicateCreation)
        } else if !funded {
            Err(LogosError::InsufficientResources)
        } else {
            Ok(address)
        },
    }
}

/// Decides a registration.
pub fn check_registration(agent_id: &str, slot: Option<Address>, occupied: bool, funded: bool) -> (r:
    Result<Address, LogosError>)
    ensures
        r == registration_outcome(agent_id@, slot, occupied, funded),
{
    if agent_id.as_bytes().len() > MAX_LABEL_LEN {
        Err(LogosError::CapacityExceeded)
    } else {
        check_allocation(slot, occupied, funded)
    }
}

/// Decides the logging of a decision.
pub fn check_decision(
    signer: &Address,
    owner: Option<Address>,
    decision_hash: &str,
    objective_id: &str,
    slot: Option<Address>,
    occupied: bool,
    funded: bool,
) -> (r: Result<Address, LogosError>)
    ensures
        r == decision_outcome(
            signer@,
            owner_view(owner),
            decision_hash@,
            objective_id@,
            slot,
            occupied,
            funded,
        ),
{
    match check_authority(signer, owner) {
        Err(e) => Err(e),
        Ok(_) => if decision_hash.as_bytes().len() != HASH_LEN {
            Err(LogosError::InvalidHashLength)
        } else if objective_id.as_bytes().len() > MAX_LABEL_LEN {
            Err(LogosError::CapacityExceeded)
        } else {
            check_allocation(slot, occupied, funded)
        },
    }
}

} // verus!
