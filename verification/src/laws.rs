//! What holds of the ledger across operations.

use crate::address::{agent_slot, decision_slot, Address};
use crate::ledger::Ledger;
use crate::records::{
    LogDecision, LogosError, RegisterAgent, AGENT_ACCOUNT_SPACE, DECISION_RECORD_SPACE,
};
use crate::rules::{hash_well_formed, label_fits};
use vstd::prelude::*;

verus! {

/// Derivation depends on the bytes of its inputs alone: the same program,
/// identities and objective give the same addresses.
pub proof fn lemma_derivation_deterministic(
    program_a: Address,
    program_b: Address,
    identity_a: Address,
    identity_b: Address,
    objective_a: Seq<char>,
    objective_b: Seq<char>,
)
    requires
        program_a@ == program_b@,
        identity_a@ == identity_b@,
        objective_a == objective_b,
    ensures
        agent_slot(program_a@, identity_a@) == agent_slot(program_b@, identity_b@),
        decision_slot(program_a@, identity_a@, objective_a) == decision_slot(
            program_b@,
            identity_b@,
            objective_b,
        ),
{
}

/// A registration succeeds where the label fits, an address can be derived,
/// no account lives there yet and the signer can pay.
pub proof fn lemma_registration_succeeds(
    ledger: Ledger,
    ctx: RegisterAgent,
    agent_id: Seq<char>,
    address: Seq<u8>,
)
    requires
        label_fits(agent_id),
        agent_slot(ledger.program_id()@, ctx.authority@) == Some(address),
        !ledger.has_agent(address),
        ctx.funded,
    ensures
        ledger.registration_result(ctx, agent_id) == Ok::<Seq<u8>, LogosError>(address),
{
}

/// Logging a decision succeeds where the signer is the agent's authority,
/// the hash has 64 bytes, the label fits, an address can be derived, no
/// record lives there yet and the signer can pay.
pub proof fn lemma_decision_succeeds(
    ledger: Ledger,
    i: int,
    ctx: LogDecision,
    decision_hash: Seq<char>,
    objective_id: Seq<char>,
    address: Seq<u8>,
)
    requires
        ledger.wf(),
        0 <= i < ledger.agents().len(),
        ctx.agent_account@ == ledger.agents()[i].address@,
        ctx.authority@ == ledger.agents()[i].account.authority@,
        hash_well_formed(decision_hash),
        label_fits(objective_id),
        decision_slot(ledger.program_id()@, ctx.agent_account@, objective_id) == Some(address),
        !ledger.has_decision(address),
        ctx.funded,
    ensures
        ledger.decision_result(ctx, decision_hash, objective_id) == Ok::<Seq<u8>, LogosError>(
            address,
        ),
{
    lemma_owner_of_entry(ledger, i);
}

/// After an authority has registered an agent, every further registration by
/// that authority with a label that fits is refused as a duplicate.
pub proof fn lemma_second_registration_rejected(
    before: Ledger,
    after: Ledger,
    first: RegisterAgent,
    first_id: Seq<char>,
    address: Seq<u8>,
    now: i64,
    second: RegisterAgent,
    second_id: Seq<char>,
)
    requires
        before.registration_result(first, first_id) == Ok::<Seq<u8>, LogosError>(address),
        before.with_agent(after, address, first.authority@, first_id, now),
        second.authority@ == first.authority@,
        label_fits(second_id),
    ensures
        after.registration_result(second, second_id) == Err::<Seq<u8>, LogosError>(
            LogosError::DuplicateCreation,
        ),
{
    let last = after.agents().len() - 1;
    assert(after.agents()[last].address@ == address);
}

/// A label of more than 50 bytes is refused whatever else holds of the
/// registration.
pub proof fn lemma_oversized_agent_label_rejected(
    ledger: Ledger,
    ctx: RegisterAgent,
    agent_id: Seq<char>,
)
    requires
        !label_fits(agent_id),
    ensures
        ledger.registration_result(ctx, agent_id) == Err::<Seq<u8>, LogosError>(
            LogosError::CapacityExceeded,
        ),
{
}

/// In a valid ledger the authority of the account at an address is the one
/// stored in the entry there.
pub proof fn lemma_owner_of_entry(ledger: Ledger, i: int)
    requires
        ledger.wf(),
        0 <= i < ledger.agents().len(),
    ensures
        ledger.has_agent(ledger.agents()[i].address@),
        ledger.agent_index(ledger.agents()[i].address@) == i,
        ledger.owner_of(ledger.agents()[i].address@) == Some(ledger.agents()[i].account.authority@),
{
    let address = ledger.agents()[i].address@;
    assert forall|k: int| 0 <= k < i implies (#[trigger] ledger.agents()[k]).address@
        != address by {
        assert(ledger.agents()[k].address@ != ledger.agents()[i].address@);
    }
    ledger.lemma_first_agent(address, i);
}

/// A signer who is not the authority stored in the agent account is refused,
/// whatever the hash, the objective and the payer's funds are.
pub proof fn lemma_foreign_signer_unauthorized(
    ledger: Ledger,
    i: int,
    ctx: LogDecision,
    decision_hash: Seq<char>,
    objective_id: Seq<char>,
)
    requires
        ledger.wf(),
        0 <= i < ledger.agents().len(),
        ctx.agent_account@ == ledger.agents()[i].address@,
        ctx.authority@ != ledger.agents()[i].account.authority@,
    ensures
        ledger.decision_result(ctx, decision_hash, objective_id) == Err::<Seq<u8>, LogosError>(
            LogosError::Unauthorized,
        ),
{
    lemma_owner_of_entry(ledger, i);
}

/// Where no agent account lives at the address named, nobody is authorized.
pub proof fn lemma_unknown_agent_unauthorized(
    ledger: Ledger,
    ctx: LogDecision,
    decision_hash: Seq<char>,
    objective_id: Seq<char>,
)
    requires
        !ledger.has_agent(ctx.agent_account@),
    ensures
        ledger.decision_result(ctx, decision_hash, objective_id) == Err::<Seq<u8>, LogosError>(
            LogosError::Unauthorized,
        ),
{
}

/// From the agent's authority, a hash that does not have 64 bytes is refused
/// for its length.
pub proof fn lemma_malformed_hash_rejected(
    ledger: Ledger,
    i: int,
    ctx: LogDecision,
    decision_hash: Seq<char>,
    objective_id: Seq<char>,
)
    requires
        ledger.wf(),
        0 <= i < ledger.agents().len(),
        ctx.agent_account@ == ledger.agents()[i].address@,
        ctx.authority@ == ledger.agents()[i].account.authority@,
        !hash_well_formed(decision_hash),
    ensures
        ledger.decision_result(ctx, decision_hash, objective_id) == Err::<Seq<u8>, LogosError>(
            LogosError::InvalidHashLength,
        ),
{
    lemma_owner_of_entry(ledger, i);
}

/// After a decision was logged for an agent and an objective, every further
/// decision of that agent on that objective, with a hash of the right length,
/// is refused as a duplicate.
pub proof fn lemma_second_decision_rejected(
    before: Ledger,
    after: Ledger,
    first: LogDecision,
    first_hash: Seq<char>,
    objective_id: Seq<char>,
    address: Seq<u8>,
    now: i64,
    second: LogDecision,
    second_hash: Seq<char>,
)
    requires
        before.decision_result(first, first_hash, objective_id) == Ok::<Seq<u8>, LogosError>(
            address,
        ),
        before.with_decision(after, address, first.agent_account@, first_hash, objective_id, now),
        second.agent_account@ == first.agent_account@,
        second.authority@ == first.authority@,
        hash_well_formed(second_hash),
    ensures
        after.decision_result(second, second_hash, objective_id) == Err::<Seq<u8>, LogosError>(
            LogosError::DuplicateCreation,
        ),
{
    let last = after.decisions().len() - 1;
    assert(after.decisions()[last].address@ == address);
    assert(after.owner_of(second.agent_account@) == before.owner_of(first.agent_account@));
}

/// Logging a decision leaves the outcome of every request unchanged whose
/// record would live at another address: objectives do not stand in each
/// other's way.
pub proof fn lemma_other_objective_unaffected(
    before: Ledger,
    after: Ledger,
    address: Seq<u8>,
    agent: Seq<u8>,
    logged_hash: Seq<char>,
    logged_objective: Seq<char>,
    now: i64,
    ctx: LogDecision,
    decision_hash: Seq<char>,
    objective_id: Seq<char>,
)
    requires
        before.with_decision(after, address, agent, logged_hash, logged_objective, now),
        decision_slot(before.program_id()@, ctx.agent_account@, objective_id) != Some(address),
    ensures
        after.decision_result(ctx, decision_hash, objective_id) == before.decision_result(
            ctx,
            decision_hash,
            objective_id,
        ),
{
    let slot = decision_slot(before.program_id()@, ctx.agent_account@, objective_id);
    assert(after.owner_of(ctx.agent_account@) == before.owner_of(ctx.agent_account@));
    if slot is Some {
        let wanted = slot->0;
        assert(after.decisions().drop_last() == before.decisions());
        if before.has_decision(wanted) {
            let i = choose|i: int|
                0 <= i < before.decisions().len() && (#[trigger] before.decisions()[i]).address@
                    == wanted;
            assert(after.decisions()[i] == after.decisions().drop_last()[i]);
            assert(after.has_decision(wanted));
        }
        if after.has_decision(wanted) {
            let i = choose|i: int|
                0 <= i < after.decisions().len() && (#[trigger] after.decisions()[i]).address@
                    == wanted;
            assert(i < before.decisions().len());
            assert(after.decisions()[i] == after.decisions().drop_last()[i]);
            assert(before.has_decision(wanted));
        }
    }
}

/// In a valid ledger no authority has two agent accounts, and each account
/// lives at the address that its authority gives.
pub proof fn lemma_one_account_per_authority(ledger: Ledger, i: int, j: int)
    requires
        ledger.wf(),
        0 <= i < ledger.agents().len(),
        0 <= j < ledger.agents().len(),
        ledger.agents()[i].account.authority@ == ledger.agents()[j].account.authority@,
    ensures
        i == j,
        agent_slot(ledger.program_id()@, ledger.agents()[i].account.authority@) == Some(
            ledger.agents()[i].address@,
        ),
{
    if i < j {
        assert(ledger.agents()[i].address@ != ledger.agents()[j].address@);
    } else if j < i {
        assert(ledger.agents()[j].address@ != ledger.agents()[i].address@);
    }
}

/// In a valid ledger no agent has two decisions on one objective, and every
/// decision has a hash of 64 bytes.
pub proof fn lemma_one_decision_per_objective(ledger: Ledger, i: int, j: int)
    requires
        ledger.wf(),
        0 <= i < ledger.decisions().len(),
        0 <= j < ledger.decisions().len(),
        ledger.decisions()[i].record.agent@ == ledger.decisions()[j].record.agent@,
        ledger.decisions()[i].record.objective_id@ == ledger.decisions()[j].record.objective_id@,
    ensures
        i == j,
        hash_well_formed(ledger.decisions()[i].record.decision_hash@),
{
    if i < j {
        assert(ledger.decisions()[i].address@ != ledger.decisions()[j].address@);
    } else if j < i {
        assert(ledger.decisions()[j].address@ != ledger.decisions()[i].address@);
    }
}

/// In a valid ledger every agent account fits the room of its slot.
pub proof fn lemma_agent_account_fits(ledger: Ledger, i: int)
    requires
        ledger.wf(),
        0 <= i < ledger.agents().len(),
    ensures
        ledger.agents()[i].account.stored_len() <= AGENT_ACCOUNT_SPACE,
{
}

/// In a valid ledger every decision record fits the room of its slot, and
/// belongs to an agent of the ledger.
pub proof fn lemma_decision_record_fits(ledger: Ledger, i: int)
    requires
        ledger.wf(),
        0 <= i < ledger.decisions().len(),
    ensures
        ledger.decisions()[i].record.stored_len() <= DECISION_RECORD_SPACE,
        ledger.has_agent(ledger.decisions()[i].record.agent@),
{
}

} // verus!
