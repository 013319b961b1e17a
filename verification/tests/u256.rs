use yieldera_math::types::{TickRange, Token};
use yieldera_math::u256::U256;

#[test]
fn limbs_round_trip() {
    let limbs = [1u64, 2, 3, u64::MAX];
    assert_eq!(U256::from_limbs(limbs).into_limbs(), limbs);
    assert_eq!(U256::from_limbs(limbs).limbs, limbs);
}

#[test]
fn named_values() {
    assert_eq!(U256::zero().into_limbs(), [0, 0, 0, 0]);
    assert_eq!(U256::max_value().into_limbs(), [u64::MAX; 4]);
    assert_eq!(U256::from_u64(77).into_limbs(), [77, 0, 0, 0]);
}

#[test]
fn equality_compares_every_limb() {
    let x = U256::from_limbs([1, 2, 3, 4]);
    assert!(x.eq(&U256::from_limbs([1, 2, 3, 4])));
    assert!(!x.eq(&U256::from_limbs([0, 2, 3, 4])));
    assert!(!x.eq(&U256::from_limbs([1, 0, 3, 4])));
    assert!(!x.eq(&U256::from_limbs([1, 2, 0, 4])));
    assert!(!x.eq(&U256::from_limbs([1, 2, 3, 0])));
}

#[test]
fn limbs_agree_with_the_outside_integer() {
    let outside = alloy::primitives::U256::from(3u64) << 200usize;
    let ours = U256::from_limbs(outside.into_limbs());
    assert_eq!(ours.into_limbs(), [0, 0, 0, 3 << 8]);
}

#[test]
fn records_hold_their_fields() {
    let token = Token {
        address: "0x0000000000000000000000000000000000003ad2".to_string(),
        name: "Wrapped".to_string(),
        symbol: "W".to_string(),
        decimals: 8,
        is_native_wrapper: true,
    };
    let copy = token.clone();
    assert_eq!(copy.decimals, 8);
    assert!(copy.is_native_wrapper);
    let range = TickRange { curent_tick: 5, lower_tick: -60, upper_tick: 60 };
    assert!(range.lower_tick < range.curent_tick && range.curent_tick < range.upper_tick);
}
