use btclib::chain::next_target;
use btclib::constants::{
    min_target, DIFFICULTY_UPDATE_INTERVAL, HALVING_INTERVAL, IDEAL_BLOCK_TIME, INITIAL_REWARD,
};
use btclib::time::Timestamp;
use btclib::uint256::U256;
use btclib::validation::block_reward;

fn limbs(w0: u64, w1: u64, w2: u64, w3: u64) -> U256 {
    U256 { w0, w1, w2, w3 }
}

#[test]
fn zero_is_all_zero_limbs() {
    assert_eq!(U256::zero(), limbs(0, 0, 0, 0));
    assert_eq!(U256::from_u64(7), limbs(7, 0, 0, 0));
}

#[test]
fn from_big_endian_reads_most_significant_first() {
    let mut bytes = [0u8; 32];
    bytes[31] = 0x01;
    bytes[23] = 0x02;
    bytes[15] = 0x03;
    bytes[7] = 0x04;
    bytes[0] = 0xab;
    assert_eq!(
        U256::from_big_endian(&bytes),
        limbs(1, 2, 3, 0xab00_0000_0000_0004)
    );
}

#[test]
fn from_big_endian_pads_short_input() {
    assert_eq!(U256::from_big_endian(&[]), U256::zero());
    assert_eq!(U256::from_big_endian(&[0x12, 0x34]), limbs(0x1234, 0, 0, 0));
    let nine = [1u8, 0, 0, 0, 0, 0, 0, 0, 5];
    assert_eq!(U256::from_big_endian(&nine), limbs(5, 1, 0, 0));
}

#[test]
fn to_little_endian_writes_least_significant_first() {
    let n = limbs(0x0807_0605_0403_0201, 0x11, 0x22, 0xff00_0000_0000_0033);
    let bytes = n.to_little_endian();
    assert_eq!(&bytes[0..8], &[1, 2, 3, 4, 5, 6, 7, 8]);
    assert_eq!(bytes[8], 0x11);
    assert_eq!(bytes[16], 0x22);
    assert_eq!(bytes[24], 0x33);
    assert_eq!(bytes[31], 0xff);
    assert_eq!(bytes[9], 0);
}

#[test]
fn endian_conversions_agree() {
    let n = limbs(0xdead_beef_0000_0001, 0x0123_4567_89ab_cdef, 42, 0x7fff_ffff_ffff_ffff);
    let mut bytes = n.to_little_endian();
    bytes.reverse();
    assert_eq!(U256::from_big_endian(&bytes), n);
}

#[test]
fn ordering_goes_by_the_highest_limb_first() {
    let small = limbs(u64::MAX, u64::MAX, u64::MAX, 0);
    let large = limbs(0, 0, 0, 1);
    assert!(small.le(&large));
    assert!(small.lt(&large));
    assert!(!large.le(&small));
    assert!(!large.lt(&small));
    assert!(small.le(&small));
    assert!(!small.lt(&small));
    assert!(limbs(1, 5, 0, 0).lt(&limbs(0, 6, 0, 0)));
    assert!(limbs(1, 0, 0, 0).lt(&limbs(2, 0, 0, 0)));
}

#[test]
fn multiplication_carries_into_the_fifth_limb() {
    let n = limbs(u64::MAX, u64::MAX, u64::MAX, u64::MAX);
    let w = n.mul_u64(2);
    assert_eq!((w.w0, w.w1, w.w2, w.w3, w.w4), (u64::MAX - 1, u64::MAX, u64::MAX, u64::MAX, 1));
    assert!(w.narrow().is_none());
    let w = limbs(3, 0, 0, 0).mul_u64(5);
    assert_eq!(w.narrow(), Some(limbs(15, 0, 0, 0)));
}

#[test]
fn division_rounds_down_across_limbs() {
    let n = limbs(0, 1, 0, 0);
    let q = n.widen().div_u64(3).narrow().unwrap();
    assert_eq!(q, limbs(0x5555_5555_5555_5555, 0, 0, 0));
    let q = limbs(1001, 0, 0, 0).widen().div_u64(500).narrow().unwrap();
    assert_eq!(q, limbs(2, 0, 0, 0));
    let q = limbs(7, 0, 0, 4).widen().div_u64(4).narrow().unwrap();
    assert_eq!(q, limbs(1, 0, 0, 1));
}

#[test]
fn wide_ordering() {
    let a = limbs(0, 0, 0, 1).mul_u64(u64::MAX);
    let b = limbs(0, 0, 0, 1).widen();
    assert!(b.le(&a));
    assert!(!a.le(&b));
    assert!(a.le(&a));
}

#[test]
fn protocol_constants() {
    assert_eq!(INITIAL_REWARD, 50);
    assert_eq!(HALVING_INTERVAL, 210);
    assert_eq!(IDEAL_BLOCK_TIME, 10);
    assert_eq!(DIFFICULTY_UPDATE_INTERVAL, 50);
    assert_eq!(
        min_target(),
        limbs(u64::MAX, u64::MAX, u64::MAX, 0x0000_ffff_ffff_ffff)
    );
}

#[test]
fn subsidy_of_the_first_two_intervals() {
    for height in 0..210u64 {
        assert_eq!(block_reward(height), 50 * 100_000_000);
    }
    for height in 210..420u64 {
        assert_eq!(block_reward(height), 25 * 100_000_000);
    }
}

#[test]
fn subsidy_halves_by_integer_division() {
    assert_eq!(block_reward(0), 5_000_000_000);
    assert_eq!(block_reward(420), 1_250_000_000);
    assert_eq!(block_reward(210 * 9), 9_765_625);
    assert_eq!(block_reward(210 * 10), 4_882_812);
    assert_eq!(block_reward(210 * 10 + 209), 4_882_812);
    assert_eq!(block_reward(210 * 32), 1);
    assert_eq!(block_reward(210 * 33), 0);
}

#[test]
fn subsidy_is_zero_beyond_the_last_halving() {
    assert_eq!(block_reward(210 * 63), 0);
    assert_eq!(block_reward(210 * 64), 0);
    assert_eq!(block_reward(210 * 65 + 1), 0);
    assert_eq!(block_reward(u64::MAX), 0);
}

#[test]
fn timestamps_compare_by_seconds_then_nanoseconds() {
    let a = Timestamp::new(10, 999_999_999);
    let b = Timestamp::new(11, 0);
    let c = Timestamp::new(11, 1);
    assert!(a.lt(&b));
    assert!(b.lt(&c));
    assert!(!b.lt(&b));
    assert!(b.le(&b));
    assert!(!c.le(&b));
    assert!(Timestamp::new(-5, 0).lt(&Timestamp::new(-4, 0)));
    assert!(Timestamp::new(i64::MIN, 0).lt(&Timestamp::new(i64::MAX, 0)));
}

#[test]
fn elapsed_seconds_round_towards_zero() {
    let a = Timestamp::new(100, 500_000_000);
    assert_eq!(a.elapsed_seconds(&Timestamp::new(103, 499_999_999)), 2);
    assert_eq!(a.elapsed_seconds(&Timestamp::new(103, 500_000_000)), 3);
    assert_eq!(a.elapsed_seconds(&a), 0);
    assert_eq!(a.elapsed_seconds(&Timestamp::new(100, 0)), 0);
    assert_eq!(a.elapsed_seconds(&Timestamp::new(99, 500_000_000)), -1);
    assert_eq!(a.elapsed_seconds(&Timestamp::new(98, 600_000_000)), -1);
    assert_eq!(
        Timestamp::new(i64::MIN, 0).elapsed_seconds(&Timestamp::new(i64::MAX, 0)),
        u64::MAX as i128
    );
}

#[test]
fn target_is_kept_when_the_interval_took_the_ideal_time() {
    let t = limbs(123_456_789, 77, 0, 0);
    assert_eq!(next_target(t, 500), t);
}

#[test]
fn target_scales_with_the_time_taken() {
    let t = U256::from_u64(1000);
    assert_eq!(next_target(t, 250), U256::from_u64(500));
    assert_eq!(next_target(t, 1000), U256::from_u64(2000));
    assert_eq!(next_target(t, 501), U256::from_u64(1002));
    assert_eq!(next_target(U256::from_u64(999), 333), U256::from_u64(665));
}

#[test]
fn target_moves_by_a_factor_of_four_at_most() {
    let t = U256::from_u64(1000);
    assert_eq!(next_target(t, 1), U256::from_u64(250));
    assert_eq!(next_target(t, 124), U256::from_u64(250));
    assert_eq!(next_target(t, 125), U256::from_u64(250));
    assert_eq!(next_target(t, 126), U256::from_u64(252));
    assert_eq!(next_target(t, 2000), U256::from_u64(4000));
    assert_eq!(next_target(t, 2001), U256::from_u64(4000));
    assert_eq!(next_target(t, 2499), U256::from_u64(4000));
    assert_eq!(next_target(t, 2500), U256::from_u64(4000));
    assert_eq!(next_target(t, i128::MAX), U256::from_u64(4000));
    assert_eq!(next_target(t, 0), U256::from_u64(250));
    assert_eq!(next_target(t, -7), U256::from_u64(250));
    assert_eq!(next_target(U256::from_u64(3), 0), U256::zero());
    assert_eq!(next_target(U256::zero(), 9999), U256::zero());
}

#[test]
fn target_never_exceeds_the_protocol_maximum() {
    let max = min_target();
    assert_eq!(next_target(max, 500), max);
    assert_eq!(next_target(max, 1000), max);
    assert_eq!(next_target(max, 100_000), max);
    let half = limbs(u64::MAX, u64::MAX, u64::MAX, 0x0000_7fff_ffff_ffff);
    assert_eq!(next_target(half, 1000), limbs(u64::MAX - 1, u64::MAX, u64::MAX, 0x0000_ffff_ffff_ffff));
    assert_eq!(next_target(half, 1001), max);
    let above = limbs(0, 0, 0, u64::MAX);
    assert_eq!(next_target(above, 500), max);
    assert_eq!(next_target(max, 125), limbs(u64::MAX, u64::MAX, u64::MAX, 0x0000_3fff_ffff_ffff));
}

#[test]
fn hexadecimal_text_has_no_leading_zeros() {
    assert_eq!(U256::zero().to_hex(), "0");
    assert_eq!(U256::from_u64(1).to_hex(), "1");
    assert_eq!(U256::from_u64(0xabc).to_hex(), "abc");
    assert_eq!(U256::from_u64(0x10).to_hex(), "10");
    assert_eq!(U256::from_u64(u64::MAX).to_hex(), "ffffffffffffffff");
    assert_eq!(limbs(0, 1, 0, 0).to_hex(), "10000000000000000");
    assert_eq!(
        limbs(0x0123_4567_89ab_cdef, 0, 0x5, 0xf0).to_hex(),
        "f0000000000000000500000000000000000123456789abcdef"
    );
    assert_eq!(
        min_target().to_hex(),
        "ffffffffffffffffffffffffffffffffffffffffffffffffffffffffffff"
    );
    for n in [7u64, 16, 255, 256, 4095, 0xdead_beef, 0x0fed_cba9_8765_4321] {
        assert_eq!(U256::from_u64(n).to_hex(), format!("{:x}", n));
    }
}
