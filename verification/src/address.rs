//! Addresses of records and their derivation from seeds.

use anchor_lang::prelude::Pubkey;
use vstd::prelude::*;
use vstd::slice::slice_to_vec;
use vstd::utf8::encode_utf8;

verus! {

/// An identity or a storage location: 32 bytes.
#[derive(Clone, Copy, Debug, PartialEq, Eq, Hash)]
pub struct Address {
    pub bytes: [u8; 32],
}

impl View for Address {
    type V = Seq<u8>;

    open spec fn view(&self) -> Seq<u8> {
        self.bytes@
    }
}

impl Address {
    /// Wraps 32 bytes as an address.
    pub fn new(bytes: [u8; 32]) -> (r: Address)
        ensures
            r.bytes == bytes,
            r@ == bytes@,
    {
        Address { bytes }
    }

    /// Whether the two addresses hold the same bytes.
    pub fn same_as(&self, other: &Address) -> (r: bool)
        ensures
            r == (self@ == other@),
    {
        let mut i: usize = 0;
        while i < 32
            invariant
                i <= 32,
                forall|k: int| 0 <= k < i ==> self.bytes@[k] == other.bytes@[k],
            decreases 32 - i,
        {
            if self.bytes[i] != other.bytes[i] {
                return false;
            }
            i += 1;
        }
        proof {
            assert(self.bytes@ =~= other.bytes@);
        }
        true
    }

    /// The bytes of the address, as a seed.
    pub fn to_seed(&self) -> (v: Vec<u8>)
        ensures
            v@ == self@,
    {
        slice_to_vec(self.bytes.as_slice())
    }
}

/// The bytes of an address that may be missing.
pub open spec fn owner_view(address: Option<Address>) -> Option<Seq<u8>> {
    match address {
        Some(a) => Some(a@),
        None => None,
    }
}

/// The bytes of a text, as they are stored and as they enter a derivation.
pub open spec fn text_bytes(text: Seq<char>) -> Seq<u8> {
    encode_utf8(text)
}

/// The seed that marks the addresses of agent accounts.
pub open spec fn agent_namespace() -> Seq<u8> {
    text_bytes("agent"@)
}

/// The seed that marks the addresses of decision records.
pub open spec fn decision_namespace() -> Seq<u8> {
    text_bytes("decision"@)
}

/// What `Pubkey::try_find_program_address` returns for the given seeds and
/// program: the derived address with its bump seed, or `None` where the
/// seeds admit no address.
pub uninterp spec fn program_address(seeds: Seq<Seq<u8>>, program_id: Seq<u8>) -> Option<(Seq<u8>, u8)>;

/// The address derived from the seeds under the program, where there is one.
pub open spec fn derived_address(seeds: Seq<Seq<u8>>, program_id: Seq<u8>) -> Option<Seq<u8>> {
    match program_address(seeds, program_id) {
        Some(found) => Some(found.0),
        None => None,
    }
}

/// Where the account of the agent under `authority` lives.
pub open spec fn agent_slot(program_id: Seq<u8>, authority: Seq<u8>) -> Option<Seq<u8>> {
    derived_address(seq![agent_namespace(), authority], program_id)
}

/// Where the decision of `agent` on `objective_id` lives.
pub open spec fn decision_slot(program_id: Seq<u8>, agent: Seq<u8>, objective_id: Seq<char>) -> Option<Seq<u8>> {
    derived_address(seq![decision_namespace(), agent, text_bytes(objective_id)], program_id)
}

/// The seeds as sequences of bytes.
pub open spec fn seeds_of(seeds: Seq<Vec<u8>>) -> Seq<Seq<u8>> {
    Seq::new(seeds.len(), |i: int| seeds[i]@)
}

/// Calls `Pubkey::try_find_program_address` with the seeds and the program's
/// address. The call hashes the seeds, a bump seed and the program's address,
/// and tries bump seeds from 255 downwards until the hash is no point of the
/// curve; it depends on its arguments alone. The contract only names the
/// outcome: `program_address` of the same seeds and program.
#[verifier::external_body]
fn find_program_address(seeds: &Vec<Vec<u8>>, program_id: &Address) -> (r: Option<(Address, u8)>)
    ensures
        match r {
            Some(found) => program_address(seeds_of(seeds@), program_id@) == Some((found.0@, found.1)),
            None => program_address(seeds_of(seeds@), program_id@) is None,
        },
{
    let parts: Vec<&[u8]> = seeds.iter().map(|seed| seed.as_slice()).collect();
    match Pubkey::try_find_program_address(&parts, &Pubkey::new_from_array(program_id.bytes)) {
        Some((key, bump)) => Some((Address { bytes: key.to_bytes() }, bump)),
        None => None,
    }
}

/// Derives the address that the seeds give under the program.
pub fn derive_address(seeds: &Vec<Vec<u8>>, program_id: &Address) -> (r: Option<Address>)
    ensures
        match r {
            Some(a) => derived_address(seeds_of(seeds@), program_id@) == Some(a@),
            None => derived_address(seeds_of(seeds@), program_id@) is None,
        },
{
    address_of(find_program_address(seeds, program_id))
}

/// Takes the derived address out of what a derivation returned.
pub fn address_of(found: Option<(Address, u8)>) -> (r: Option<Address>)
    ensures
        r == match found {
            Some(pair) => Some(pair.0),
            None => None,
        },
{
    match found {
        Some(pair) => Some(pair.0),
        None => None,
    }
}

/// The address of the account of the agent under `authority`.
pub fn agent_address(program_id: &Address, authority: &Address) -> (r: Option<Address>)
    ensures
        match r {
            Some(a) => agent_slot(program_id@, authority@) == Some(a@),
            None => agent_slot(program_id@, authority@) is None,
        },
{
    let mut seeds: Vec<Vec<u8>> = Vec::new();
    seeds.push(slice_to_vec("agent".as_bytes()));
    seeds.push(authority.to_seed());
    proof {
        assert(seeds_of(seeds@) =~= seq![agent_namespace(), authority@]);
    }
    derive_address(&seeds, program_id)
}

/// The address of the decision of `agent` on `objective_id`.
pub fn decision_address(program_id: &Address, agent: &Address, objective_id: &str) -> (r: Option<Address>)
    ensures
        match r {
            Some(a) => decision_slot(program_id@, agent@, objective_id@) == Some(a@),
            None => decision_slot(program_id@, agent@, objective_id@) is None,
        },
{
    let mut seeds: Vec<Vec<u8>> = Vec::new();
    seeds.push(slice_to_vec("decision".as_bytes()));
    seeds.push(agent.to_seed());
    seeds.push(slice_to_vec(objective_id.as_bytes()));
    proof {
        assert(seeds_of(seeds@) =~= seq![decision_namespace(), agent@, text_bytes(objective_id@)]);
    }
    derive_address(&seeds, program_id)
}

} // verus!
