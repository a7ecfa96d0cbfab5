//! The ledger: agent accounts and decision records, each created once at its
//! derived address and never changed afterwards.

use crate::address::{agent_address, agent_slot, decision_address, decision_slot, Address};
use crate::records::{
    AgentAccount, AgentRegistered, DecisionLogged, DecisionRecord, LogDecision, LogosError,
    RegisterAgent,
};
use crate::rules::{
    check_decision, check_registration, decision_outcome, hash_well_formed, label_fits,
    registration_outcome,
};
use vstd::prelude::*;

verus! {

/// An agent account with the address it lives at.
pub struct AgentEntry {
    pub address: Address,
    pub account: AgentAccount,
}

/// A decision record with the address it lives at.
pub struct DecisionEntry {
    pub address: Address,
    pub record: DecisionRecord,
}

/// All records of one program, in the order of their creation.
pub struct Ledger {
    program_id: Address,
    agents: Vec<AgentEntry>,
    decisions: Vec<DecisionEntry>,
}

/// Whether the entry lives where its authority puts it, with a label that fits.
pub open spec fn agent_entry_valid(program_id: Seq<u8>, entry: AgentEntry) -> bool {
    &&& agent_slot(program_id, entry.account.authority@) == Some(entry.address@)
    &&& label_fits(entry.account.agent_id@)
}

/// Whether the entry lives where its agent and objective put it, with a hash
/// of the right length and a label that fits.
pub open spec fn decision_entry_valid(program_id: Seq<u8>, entry: DecisionEntry) -> bool {
    &&& decision_slot(program_id, entry.record.agent@, entry.record.objective_id@) == Some(
        entry.address@,
    )
    &&& hash_well_formed(entry.record.decision_hash@)
    &&& label_fits(entry.record.objective_id@)
}

/// Whether `i` is the place of the oldest agent account at the address.
pub open spec fn is_first_agent(agents: Seq<AgentEntry>, address: Seq<u8>, i: int) -> bool {
    &&& 0 <= i < agents.len()
    &&& agents[i].address@ == address
    &&& forall|k: int| 0 <= k < i ==> (#[trigger] agents[k]).address@ != address
}

/// Whether `i` is the place of the oldest decision record at the address.
pub open spec fn is_first_decision(decisions: Seq<DecisionEntry>, address: Seq<u8>, i: int) -> bool {
    &&& 0 <= i < decisions.len()
    &&& decisions[i].address@ == address
    &&& forall|k: int| 0 <= k < i ==> (#[trigger] decisions[k]).address@ != address
}

impl Ledger {
    /// The program under which the addresses are derived.
    pub closed spec fn program_id(&self) -> Address {
        self.program_id
    }

    /// The agent accounts, oldest first.
    pub closed spec fn agents(&self) -> Seq<AgentEntry> {
        self.agents@
    }

    /// The decision records, oldest first.
    pub closed spec fn decisions(&self) -> Seq<DecisionEntry> {
        self.decisions@
    }

    /// Whether an agent account lives at the address.
    pub open spec fn has_agent(&self, address: Seq<u8>) -> bool {
        exists|i: int|
            0 <= i < self.agents().len() && (#[trigger] self.agents()[i]).address@ == address
    }

    /// Whether a decision record lives at the address.
    pub open spec fn has_decision(&self, address: Seq<u8>) -> bool {
        exists|i: int|
            0 <= i < self.decisions().len() && (#[trigger] self.decisions()[i]).address@ == address
    }

    /// The place of the oldest agent account at the address. In a valid
    /// ledger it is the only one there.
    pub open spec fn agent_index(&self, address: Seq<u8>) -> int {
        choose|i: int| is_first_agent(self.agents(), address, i)
    }

    /// The place of the oldest decision record at the address. In a valid
    /// ledger it is the only one there.
    pub open spec fn decision_index(&self, address: Seq<u8>) -> int {
        choose|i: int| is_first_decision(self.decisions(), address, i)
    }

    /// The authority stored in the agent account at the address, if one lives
    /// there.
    pub open spec fn owner_of(&self, address: Seq<u8>) -> Option<Seq<u8>> {
        if self.has_agent(address) {
            Some(self.agents()[self.agent_index(address)].account.authority@)
        } else {
            None
        }
    }

    /// The invariant of the ledger: every entry is valid, no two entries share
    /// an address, and every decision belongs to an agent of the ledger.
    pub open spec fn wf(&self) -> bool {
        &&& forall|i: int|
            0 <= i < self.agents().len() ==> agent_entry_valid(
                self.program_id()@,
                #[trigger] self.agents()[i],
            )
        &&& forall|i: int, j: int|
            0 <= i < j < self.agents().len() ==> (#[trigger] self.agents()[i]).address@ != (
            #[trigger] self.agents()[j]).address@
        &&& forall|i: int|
            0 <= i < self.decisions().len() ==> decision_entry_valid(
                self.program_id()@,
                #[trigger] self.decisions()[i],
            ) && self.has_agent(self.decisions()[i].record.agent@)
        &&& forall|i: int, j: int|
            0 <= i < j < self.decisions().len() ==> (#[trigger] self.decisions()[i]).address@ != (
            #[trigger] self.decisions()[j]).address@
    }

    /// What a registration returns on this ledger: the address of the new
    /// account, or the reason for which none is created.
    pub open spec fn registration_result(&self, ctx: RegisterAgent, agent_id: Seq<char>) -> Result<
        Seq<u8>,
        LogosError,
    > {
        let slot = agent_slot(self.program_id()@, ctx.authority@);
        let occupied = slot is Some && self.has_agent(slot->0);
        registration_outcome(agent_id, slot, occupied, ctx.funded)
    }

    /// What logging a decision returns on this ledger: the address of the new
    /// record, or the reason for which none is created.
    pub open spec fn decision_result(
        &self,
        ctx: LogDecision,
        decision_hash: Seq<char>,
        objective_id: Seq<char>,
    ) -> Result<Seq<u8>, LogosError> {
        let slot = decision_slot(self.program_id()@, ctx.agent_account@, objective_id);
        let occupied = slot is Some && self.has_decision(slot->0);
        decision_outcome(
            ctx.authority@,
            self.owner_of(ctx.agent_account@),
            decision_hash,
            objective_id,
            slot,
            occupied,
            ctx.funded,
        )
    }

    /// Whether `after` is this ledger with one more agent account, made of
    /// the given fields, and nothing else changed.
    pub open spec fn with_agent(
        &self,
        after: Ledger,
        address: Seq<u8>,
        authority: Seq<u8>,
        agent_id: Seq<char>,
        created_at: i64,
    ) -> bool {
        &&& after.program_id() == self.program_id()
        &&& after.decisions() == self.decisions()
        &&& after.agents().len() == self.agents().len() + 1
        &&& after.agents().drop_last() == self.agents()
        &&& after.agents().last().address@ == address
        &&& after.agents().last().account.authority@ == authority
        &&& after.agents().last().account.agent_id@ == agent_id
        &&& after.agents().last().account.created_at == created_at
    }

    /// Whether `after` is this ledger with one more decision record, made of
    /// the given fields, and nothing else changed.
    pub open spec fn with_decision(
        &self,
        after: Ledger,
        address: Seq<u8>,
        agent: Seq<u8>,
        decision_hash: Seq<char>,
        objective_id: Seq<char>,
        timestamp: i64,
    ) -> bool {
        &&& after.program_id() == self.program_id()
        &&& after.agents() == self.agents()
        &&& after.decisions().len() == self.decisions().len() + 1
        &&& after.decisions().drop_last() == self.decisions()
        &&& after.decisions().last().address@ == address
        &&& after.decisions().last().record.agent@ == agent
        &&& after.decisions().last().record.decision_hash@ == decision_hash
        &&& after.decisions().last().record.objective_id@ == objective_id
        &&& after.decisions().last().record.timestamp == timestamp
    }

    /// The oldest agent account at an address has one place only.
    pub proof fn lemma_first_agent(&self, address: Seq<u8>, i: int)
        requires
            is_first_agent(self.agents(), address, i),
        ensures
            self.has_agent(address),
            self.agent_index(address) == i,
    {
        let j = self.agent_index(address);
        assert(is_first_agent(self.agents(), address, j));
        if j < i {
            assert(self.agents()[j].address@ != address);
        } else if i < j {
            assert(self.agents()[i].address@ != address);
        }
    }

    /// The oldest decision record at an address has one place only.
    pub proof fn lemma_first_decision(&self, address: Seq<u8>, i: int)
        requires
            is_first_decision(self.decisions(), address, i),
        ensures
            self.has_decision(address),
            self.decision_index(address) == i,
    {
        let j = self.decision_index(address);
        assert(is_first_decision(self.decisions(), address, j));
        if j < i {
            assert(self.decisions()[j].address@ != address);
        } else if i < j {
            assert(self.decisions()[i].address@ != address);
        }
    }

    /// An empty ledger for the program.
    pub fn new(program_id: Address) -> (r: Ledger)
        ensures
            r.wf(),
            r.program_id() == program_id,
            r.agents().len() == 0,
            r.decisions().len() == 0,
    {
        Ledger { program_id, agents: Vec::new(), decisions: Vec::new() }
    }

    /// The program under which the addresses are derived.
    pub fn program(&self) -> (r: Address)
        ensures
            r == self.program_id(),
    {
        self.program_id
    }

    /// The number of agent accounts.
    pub fn agent_count(&self) -> (r: usize)
        ensures
            r == self.agents().len(),
    {
        self.agents.len()
    }

    /// The number of decision records.
    pub fn decision_count(&self) -> (r: usize)
        ensures
            r == self.decisions().len(),
    {
        self.decisions.len()
    }

    /// The place of the first agent account at the address, if one lives there.
    pub fn find_agent(&self, address: &Address) -> (r: Option<usize>)
        ensures
            match r {
                Some(i) => self.has_agent(address@) && i == self.agent_index(address@)
                    && is_first_agent(self.agents(), address@, i as int),
                None => !self.has_agent(address@),
            },
    {
        let mut i: usize = 0;
        while i < self.agents.len()
            invariant
                i <= self.agents.len(),
                forall|k: int| 0 <= k < i ==> (#[trigger] self.agents@[k]).address@ != address@,
            decreases self.agents.len() - i,
        {
            if self.agents[i].address.same_as(address) {
                proof {
                    self.lemma_first_agent(address@, i as int);
                }
                return Some(i);
            }
            i += 1;
        }
        None
    }

    /// The place of the first decision record at the address, if one lives
    /// there.
    pub fn find_decision(&self, address: &Address) -> (r: Option<usize>)
        ensures
            match r {
                Some(i) => self.has_decision(address@) && i == self.decision_index(address@)
                    && is_first_decision(self.decisions(), address@, i as int),
                None => !self.has_decision(address@),
            },
    {
        let mut i: usize = 0;
        while i < self.decisions.len()
            invariant
                i <= self.decisions.len(),
                forall|k: int| 0 <= k < i ==> (#[trigger] self.decisions@[k]).address@ != address@,
            decreases self.decisions.len() - i,
        {
            if self.decisions[i].address.same_as(address) {
                proof {
                    self.lemma_first_decision(address@, i as int);
                }
                return Some(i);
            }
            i += 1;
        }
        None
    }

    /// The agent account at the address, if one lives there.
    pub fn agent(&self, address: &Address) -> (r: Option<&AgentAccount>)
        ensures
            match r {
                Some(account) => self.has_agent(address@) && *account == self.agents()[self.agent_index(
                    address@,
                )].account,
                None => !self.has_agent(address@),
            },
    {
        match self.find_agent(address) {
            Some(i) => Some(&self.agents[i].account),
            None => None,
        }
    }

    /// The decision record at the address, if one lives there.
    pub fn decision(&self, address: &Address) -> (r: Option<&DecisionRecord>)
        ensures
            match r {
                Some(record) => self.has_decision(address@) && *record
                    == self.decisions()[self.decision_index(address@)].record,
                None => !self.has_decision(address@),
            },
    {
        match self.find_decision(address) {
            Some(i) => Some(&self.decisions[i].record),
            None => None,
        }
    }
}

/// Registers the signer of `ctx` as the authority of a new agent labelled
/// `agent_id`, at time `now`.
///
/// On success the ledger has one more agent account, at the address derived
/// from the signer, and the event returned carries its fields. Otherwise the
/// ledger is unchanged and the error is the first that applies: the label
/// does not fit, no address can be derived, an account lives there already,
/// the signer cannot pay.
pub fn register_agent(ledger: &mut Ledger, ctx: &RegisterAgent, agent_id: String, now: i64) -> (r:
    Result<AgentRegistered, LogosError>)
    requires
        old(ledger).wf(),
    ensures
        final(ledger).wf(),
        match r {
            Ok(event) => {
                &&& old(ledger).registration_result(*ctx, agent_id@) == Ok::<Seq<u8>, LogosError>(
                    event.agent@,
                )
                &&& old(ledger).with_agent(
                    *final(ledger),
                    event.agent@,
                    ctx.authority@,
                    agent_id@,
                    now,
                )
                &&& event.mirrors(
                    final(ledger).agents().last().address,
                    &final(ledger).agents().last().account,
                )
            },
            Err(e) => {
                &&& old(ledger).registration_result(*ctx, agent_id@) == Err::<Seq<u8>, LogosError>(e)
                &&& *final(ledger) == *old(ledger)
            },
        },
{
    let slot = agent_address(&ledger.program_id, &ctx.authority);
    let occupied = match slot {
        Some(address) => ledger.find_agent(&address).is_some(),
        None => false,
    };
    match check_registration(agent_id.as_str(), slot, occupied, ctx.funded) {
        Err(e) => Err(e),
        Ok(address) => {
            let account = AgentAccount {
                authority: ctx.authority,
                agent_id: agent_id.clone(),
                created_at: now,
            };
            let entry = AgentEntry { address, account };
            ledger.agents.push(entry);
            proof {
                let before = old(ledger).agents();
                let after = ledger.agents();
                assert(after.drop_last() =~= before);
                assert forall|i: int| 0 <= i < after.len() implies agent_entry_valid(
                    ledger.program_id()@,
                    #[trigger] after[i],
                ) by {
                    if i < before.len() {
                        assert(after[i] == before[i]);
                    }
                }
                assert forall|i: int, j: int| 0 <= i < j < after.len() implies (
                #[trigger] after[i]).address@ != (#[trigger] after[j]).address@ by {
                    assert(after[i] == before[i]);
                    if j < before.len() {
                        assert(after[j] == before[j]);
                    }
                }
                assert forall|i: int| 0 <= i < ledger.decisions().len() implies ledger.has_agent(
                    (#[trigger] ledger.decisions()[i]).record.agent@,
                ) by {
                    let owner = ledger.decisions()[i].record.agent@;
                    assert(ledger.decisions()[i] == old(ledger).decisions()[i]);
                    assert(old(ledger).has_agent(owner));
                    let k = choose|k: int|
                        0 <= k < before.len() && (#[trigger] before[k]).address@ == owner;
                    assert(after[k] == before[k]);
                }
            }
            Ok(AgentRegistered { agent: address, agent_id, authority: ctx.authority, timestamp: now })
        },
    }
}

/// Logs the commitment `decision_hash` of the agent named in `ctx` to the
/// objective `objective_id`, at time `now`.
///
/// On success the ledger has one more decision record, at the address derived
/// from the agent's address and the objective, and the event returned carries
/// its fields. Otherwise the ledger is unchanged and the error is the first
/// that applies: the signer is not the agent's authority, the hash does not
/// have 64 bytes, the label does not fit, no address can be derived, a record
/// lives there already, the signer cannot pay.
pub fn log_decision(
    ledger: &mut Ledger,
    ctx: &LogDecision,
    decision_hash: String,
    objective_id: String,
    now: i64,
) -> (r: Result<DecisionLogged, LogosError>)
    requires
        old(ledger).wf(),
    ensures
        final(ledger).wf(),
        match r {
            Ok(event) => {
                &&& old(ledger).decision_result(*ctx, decision_hash@, objective_id@) == Ok::<
                    Seq<u8>,
                    LogosError,
                >(final(ledger).decisions().last().address@)
                &&& old(ledger).with_decision(
                    *final(ledger),
                    final(ledger).decisions().last().address@,
                    ctx.agent_account@,
                    decision_hash@,
                    objective_id@,
                    now,
                )
                &&& event.mirrors(&final(ledger).decisions().last().record)
            },
            Err(e) => {
                &&& old(ledger).decision_result(*ctx, decision_hash@, objective_id@) == Err::<
                    Seq<u8>,
                    LogosError,
                >(e)
                &&& *final(ledger) == *old(ledger)
            },
        },
{
    let owner = match ledger.find_agent(&ctx.agent_account) {
        Some(i) => Some(ledger.agents[i].account.authority),
        None => None,
    };
    let slot = decision_address(&ledger.program_id, &ctx.agent_account, objective_id.as_str());
    let occupied = match slot {
        Some(address) => ledger.find_decision(&address).is_some(),
        None => false,
    };
    match check_decision(
        &ctx.authority,
        owner,
        decision_hash.as_str(),
        objective_id.as_str(),
        slot,
        occupied,
        ctx.funded,
    ) {
        Err(e) => Err(e),
        Ok(address) => {
            let record = DecisionRecord {
                agent: ctx.agent_account,
                decision_hash: decision_hash.clone(),
                objective_id: objective_id.clone(),
                timestamp: now,
            };
            let entry = DecisionEntry { address, record };
            ledger.decisions.push(entry);
            proof {
                let before = old(ledger).decisions();
                let after = ledger.decisions();
                assert(after.drop_last() =~= before);
                assert forall|i: int| 0 <= i < after.len() implies decision_entry_valid(
                    ledger.program_id()@,
                    #[trigger] after[i],
                ) && ledger.has_agent(after[i].record.agent@) by {
                    assert(ledger.agents() == old(ledger).agents());
                    if i < before.len() {
                        assert(after[i] == before[i]);
                        assert(old(ledger).has_agent(before[i].record.agent@));
                    } else {
                        assert(after[i] == entry);
                        assert(decision_entry_valid(ledger.program_id()@, entry));
                        assert(old(ledger).has_agent(ctx.agent_account@));
                    }
                }
                assert forall|i: int, j: int| 0 <= i < j < after.len() implies (
                #[trigger] after[i]).address@ != (#[trigger] after[j]).address@ by {
                    assert(after[i] == before[i]);
                    if j < before.len() {
                        assert(after[j] == before[j]);
                    }
                }
            }
            Ok(
                DecisionLogged {
                    agent: ctx.agent_account,
                    objective_id,
                    decision_hash,
                    timestamp: now,
                },
            )
        },
    }
}

} // verus!
