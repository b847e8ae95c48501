use social_net::ids::{mint_id, u64_to_dec};

#[test]
fn decimal_of_zero() {
    assert_eq!(u64_to_dec(0), "0");
}

#[test]
fn decimal_single_digit() {
    assert_eq!(u64_to_dec(7), "7");
}

#[test]
fn decimal_two_digits() {
    assert_eq!(u64_to_dec(10), "10");
}

#[test]
fn decimal_round_number() {
    assert_eq!(u64_to_dec(1000), "1000");
}

#[test]
fn decimal_mixed_digits() {
    assert_eq!(u64_to_dec(1234567890), "1234567890");
}

#[test]
fn decimal_largest() {
    assert_eq!(u64_to_dec(u64::MAX), "18446744073709551615");
}

#[test]
fn minted_id_joins_owner_and_instant() {
    let owner = String::from("alice");
    assert_eq!(mint_id(&owner, 1700000000), "alice-1700000000");
}

#[test]
fn minted_id_at_instant_zero() {
    let owner = String::from("u");
    assert_eq!(mint_id(&owner, 0), "u-0");
}
