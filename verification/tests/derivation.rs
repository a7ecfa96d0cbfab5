use logos_core::address::{
    address_of, agent_address, decision_address, derive_address, Address,
};
use logos_core::records::{
    LogosError, AGENT_ACCOUNT_SPACE, DECISION_RECORD_SPACE, HASH_LEN, MAX_LABEL_LEN,
};
use logos_core::rules::{check_allocation, check_authority, check_decision, check_registration};

const PROGRAM_BYTES: [u8; 32] = [
    5, 7, 153, 95, 131, 150, 221, 115, 59, 186, 75, 47, 71, 178, 2, 241, 9, 143, 190, 59, 110,
    181, 136, 176, 218, 158, 146, 39, 72, 93, 65, 124,
];

const AGENT_BYTES: [u8; 32] = [
    6, 215, 22, 178, 227, 51, 206, 39, 244, 157, 4, 30, 50, 235, 91, 155, 229, 190, 58, 25, 204,
    55, 18, 138, 191, 70, 59, 180, 204, 249, 210, 248,
];

const DECISION_BYTES: [u8; 32] = [
    111, 26, 11, 59, 242, 232, 110, 216, 84, 210, 56, 36, 216, 142, 177, 55, 243, 86, 143, 153,
    45, 235, 140, 158, 51, 4, 116, 135, 111, 43, 17, 16,
];

fn program() -> Address {
    Address::new(PROGRAM_BYTES)
}

#[test]
fn agent_address_has_the_expected_bytes() {
    let authority = Address::new([1u8; 32]);
    assert_eq!(agent_address(&program(), &authority), Some(Address::new(AGENT_BYTES)));
}

#[test]
fn decision_address_has_the_expected_bytes() {
    let agent = Address::new(AGENT_BYTES);
    assert_eq!(
        decision_address(&program(), &agent, "obj-1"),
        Some(Address::new(DECISION_BYTES))
    );
}

#[test]
fn derivation_from_raw_seeds_agrees_with_the_named_ones() {
    let authority = Address::new([1u8; 32]);
    let seeds = vec![b"agent".to_vec(), authority.to_seed()];
    assert_eq!(derive_address(&seeds, &program()), agent_address(&program(), &authority));
    let agent = Address::new(AGENT_BYTES);
    let seeds = vec![b"decision".to_vec(), agent.to_seed(), b"obj-1".to_vec()];
    assert_eq!(
        derive_address(&seeds, &program()),
        decision_address(&program(), &agent, "obj-1")
    );
}

#[test]
fn derivation_is_repeatable() {
    let authority = Address::new([9u8; 32]);
    let first = agent_address(&program(), &authority);
    let second = agent_address(&program(), &authority);
    assert!(first.is_some());
    assert_eq!(first, second);
    let agent = first.expect("address");
    assert_eq!(
        decision_address(&program(), &agent, "obj-1"),
        decision_address(&program(), &agent, "obj-1")
    );
}

#[test]
fn derivation_tells_its_inputs_apart() {
    let a = Address::new([1u8; 32]);
    let b = Address::new([2u8; 32]);
    let other_program = Address::new([7u8; 32]);
    let base = agent_address(&program(), &a).expect("address");
    assert_ne!(base, a);
    assert_ne!(base, program());
    assert_ne!(Some(base), agent_address(&program(), &b));
    assert_ne!(Some(base), agent_address(&other_program, &a));
    let decision = decision_address(&program(), &a, "obj-1");
    assert!(decision.is_some());
    assert_ne!(decision, Some(base));
    assert_ne!(decision, decision_address(&program(), &a, "obj-2"));
    assert_ne!(decision, decision_address(&program(), &b, "obj-1"));
    assert_ne!(decision, decision_address(&other_program, &a, "obj-1"));
    // The namespace is part of the derivation.
    let as_agent_seeds = vec![b"agent".to_vec(), a.to_seed(), b"obj-1".to_vec()];
    assert_ne!(decision, derive_address(&as_agent_seeds, &program()));
}

#[test]
fn seeds_beyond_the_scheme_give_no_address() {
    let long = vec![vec![0u8; 33]];
    assert_eq!(derive_address(&long, &program()), None);
    let many: Vec<Vec<u8>> = (0..16).map(|i| vec![i as u8]).collect();
    assert_eq!(derive_address(&many, &program()), None);
    let none: Vec<Vec<u8>> = Vec::new();
    assert!(derive_address(&none, &program()).is_some());
    let a = Address::new([1u8; 32]);
    let label: String = std::iter::repeat('o').take(33).collect();
    assert_eq!(decision_address(&program(), &a, &label), None);
}

#[test]
fn address_of_drops_the_bump() {
    let a = Address::new([3u8; 32]);
    assert_eq!(address_of(Some((a, 254))), Some(a));
    assert_eq!(address_of(None), None);
}

#[test]
fn addresses_compare_by_their_bytes() {
    let mut bytes = [4u8; 32];
    let a = Address::new(bytes);
    assert!(a.same_as(&Address::new([4u8; 32])));
    bytes[31] = 5;
    assert!(!a.same_as(&Address::new(bytes)));
    bytes[31] = 4;
    bytes[0] = 0;
    assert!(!a.same_as(&Address::new(bytes)));
    assert_eq!(a.to_seed(), vec![4u8; 32]);
    assert_eq!(a.bytes, [4u8; 32]);
}

#[test]
fn record_sizes() {
    assert_eq!(MAX_LABEL_LEN, 50);
    assert_eq!(HASH_LEN, 64);
    assert_eq!(AGENT_ACCOUNT_SPACE, 98);
    assert_eq!(DECISION_RECORD_SPACE, 162);
}

#[test]
fn authority_check() {
    let a = Address::new([1u8; 32]);
    let b = Address::new([2u8; 32]);
    assert_eq!(check_authority(&a, Some(a)), Ok(()));
    assert_eq!(check_authority(&b, Some(a)), Err(LogosError::Unauthorized));
    assert_eq!(check_authority(&a, None), Err(LogosError::Unauthorized));
}

#[test]
fn allocation_check_reports_the_first_obstacle() {
    let a = Address::new([1u8; 32]);
    assert_eq!(check_allocation(Some(a), false, true), Ok(a));
    assert_eq!(check_allocation(None, false, true), Err(LogosError::AddressUnavailable));
    assert_eq!(check_allocation(None, true, false), Err(LogosError::AddressUnavailable));
    assert_eq!(check_allocation(Some(a), true, true), Err(LogosError::DuplicateCreation));
    assert_eq!(check_allocation(Some(a), true, false), Err(LogosError::DuplicateCreation));
    assert_eq!(check_allocation(Some(a), false, false), Err(LogosError::InsufficientResources));
}

#[test]
fn registration_check_reports_the_first_obstacle() {
    let a = Address::new([1u8; 32]);
    let fifty: String = std::iter::repeat('x').take(50).collect();
    let fifty_one: String = std::iter::repeat('x').take(51).collect();
    assert_eq!(check_registration("alpha", Some(a), false, true), Ok(a));
    assert_eq!(check_registration(&fifty, Some(a), false, true), Ok(a));
    assert_eq!(
        check_registration(&fifty_one, Some(a), false, true),
        Err(LogosError::CapacityExceeded)
    );
    assert_eq!(
        check_registration(&fifty_one, None, true, false),
        Err(LogosError::CapacityExceeded)
    );
    assert_eq!(
        check_registration("alpha", None, false, true),
        Err(LogosError::AddressUnavailable)
    );
    assert_eq!(
        check_registration("alpha", Some(a), true, true),
        Err(LogosError::DuplicateCreation)
    );
    assert_eq!(
        check_registration("alpha", Some(a), false, false),
        Err(LogosError::InsufficientResources)
    );
}

#[test]
fn decision_check_reports_the_first_obstacle() {
    let a = Address::new([1u8; 32]);
    let b = Address::new([2u8; 32]);
    let slot = Address::new([3u8; 32]);
    let good: String = std::iter::repeat('f').take(64).collect();
    let short: String = std::iter::repeat('f').take(63).collect();
    let long_label: String = std::iter::repeat('o').take(51).collect();
    assert_eq!(check_decision(&a, Some(a), &good, "obj-1", Some(slot), false, true), Ok(slot));
    assert_eq!(
        check_decision(&b, Some(a), &short, &long_label, None, true, false),
        Err(LogosError::Unauthorized)
    );
    assert_eq!(
        check_decision(&a, None, &good, "obj-1", Some(slot), false, true),
        Err(LogosError::Unauthorized)
    );
    assert_eq!(
        check_decision(&a, Some(a), &short, &long_label, None, true, false),
        Err(LogosError::InvalidHashLength)
    );
    assert_eq!(
        check_decision(&a, Some(a), &good, &long_label, None, true, false),
        Err(LogosError::CapacityExceeded)
    );
    assert_eq!(
        check_decision(&a, Some(a), &good, "obj-1", None, true, false),
        Err(LogosError::AddressUnavailable)
    );
    assert_eq!(
        check_decision(&a, Some(a), &good, "obj-1", Some(slot), true, false),
        Err(LogosError::DuplicateCreation)
    );
    assert_eq!(
        check_decision(&a, Some(a), &good, "obj-1", Some(slot), false, false),
        Err(LogosError::InsufficientResources)
    );
}
