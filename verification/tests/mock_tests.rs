use farcall::Address;
use farcall::MockCall;
use farcall::MockedCalls;
use farcall::Word256;

fn addr(lo: u128) -> Address {
    Address::new(0, lo)
}

fn val(lo: u128) -> Word256 {
    Word256::new(0, lo)
}

fn rule(address: Address, value: Option<Word256>, calldata: &[u8]) -> MockCall {
    MockCall { address, value, calldata: calldata.to_vec() }
}

#[test]
fn longest_prefix_wins_and_exact_wins_outright() {
    let mut m = MockedCalls::new();
    let a = addr(0xA);
    m.insert(rule(a, None, &[0xAA, 0xBB]), vec![1]);
    m.insert(rule(a, None, &[0xAA, 0xBB, 0xCC, 0xDD]), vec![2]);
    assert_eq!(
        m.get_matching_return_data(a, &[0xAA, 0xBB, 0xCC, 0xDD], val(0)),
        Some(vec![2])
    );
    assert_eq!(m.get_matching_return_data(a, &[0xAA, 0xBB, 0xCC], val(0)), Some(vec![1]));
    assert_eq!(m.get_matching_return_data(a, &[0xBB], val(0)), None);
}

#[test]
fn exact_match_preferred_over_longer_partial() {
    let mut m = MockedCalls::new();
    let a = addr(0xA);
    m.insert(rule(a, None, &[0xAA, 0xBB, 0xCC]), vec![9]);
    m.insert(rule(a, None, &[0xAA, 0xBB]), vec![7]);
    assert_eq!(m.get_matching_return_data(a, &[0xAA, 0xBB], val(0)), Some(vec![7]));
}

#[test]
fn value_constrained_rule_requires_equal_value() {
    let mut m = MockedCalls::new();
    let a = addr(0xA);
    m.insert(rule(a, Some(val(5)), &[0xAA]), vec![3]);
    assert_eq!(m.get_matching_return_data(a, &[0xAA, 0x01], val(6)), None);
    assert_eq!(m.get_matching_return_data(a, &[0xAA, 0x01], val(5)), Some(vec![3]));
}

#[test]
fn value_tier_scanned_before_unconstrained_tier() {
    let mut m = MockedCalls::new();
    let a = addr(0xA);
    m.insert(rule(a, Some(val(5)), &[0xAA, 0xBB]), vec![1]);
    m.insert(rule(a, None, &[0xAA, 0xBB]), vec![2]);
    assert_eq!(m.get_matching_return_data(a, &[0xAA, 0xBB], val(5)), Some(vec![1]));
    assert_eq!(m.get_matching_return_data(a, &[0xAA, 0xBB], val(6)), Some(vec![2]));
}

#[test]
fn rules_are_keyed_by_address() {
    let mut m = MockedCalls::new();
    m.insert(rule(addr(0xA), None, &[0xAA]), vec![1]);
    assert_eq!(m.get_matching_return_data(addr(0xB), &[0xAA], val(0)), None);
}

#[test]
fn reinserting_a_key_replaces_its_return_data() {
    let mut m = MockedCalls::new();
    let a = addr(0xA);
    m.insert(rule(a, None, &[0xAA]), vec![1]);
    m.insert(rule(a, None, &[0xAA]), vec![2]);
    assert_eq!(m.get_matching_return_data(a, &[0xAA], val(0)), Some(vec![2]));
}

#[test]
fn clear_removes_every_rule() {
    let mut m = MockedCalls::new();
    let a = addr(0xA);
    m.insert(rule(a, None, &[0xAA]), vec![1]);
    m.insert(rule(a, Some(val(1)), &[0xAA]), vec![2]);
    m.clear();
    assert_eq!(m.get_matching_return_data(a, &[0xAA], val(1)), None);
}

#[test]
fn empty_stored_calldata_matches_any_query() {
    let mut m = MockedCalls::new();
    let a = addr(0xA);
    m.insert(rule(a, None, &[]), vec![4]);
    assert_eq!(m.get_matching_return_data(a, &[0x01, 0x02], val(0)), Some(vec![4]));
    assert_eq!(m.get_matching_return_data(a, &[], val(0)), Some(vec![4]));
}

#[test]
fn equal_length_partials_keep_the_earliest() {
    let mut m = MockedCalls::new();
    let a = addr(0xA);
    m.insert(rule(a, None, &[0xAA, 0x01]), vec![1]);
    m.insert(rule(a, None, &[0xAA]), vec![2]);
    m.insert(rule(a, Some(val(3)), &[0xAA]), vec![3]);
    // Both one-byte rules apply to this query only as partial matches of
    // equal length; the value-constrained tier is scanned first.
    assert_eq!(m.get_matching_return_data(a, &[0xAA, 0x02], val(3)), Some(vec![3]));
}
