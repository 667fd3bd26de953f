use bigdecimal::BigDecimal;
use btclib::chain::next_target;
use btclib::uint256::U256;

/// The target after an interval of `elapsed` seconds, worked out in decimal
/// fractions: the target times the quotient of the elapsed and the ideal
/// time, cut off at the decimal point, held within a factor of four.
fn by_decimal_fractions(target: u128, elapsed: i64) -> u128 {
    let scaled = BigDecimal::parse_bytes(target.to_string().as_bytes(), 10).unwrap()
        * (BigDecimal::from(elapsed) / BigDecimal::from(500u64));
    let text = scaled.to_string();
    let whole: u128 = text.split('.').next().unwrap().parse().unwrap();
    if whole < target / 4 {
        target / 4
    } else if whole > target * 4 {
        target * 4
    } else {
        whole
    }
}

fn number(n: u128) -> U256 {
    U256 { w0: n as u64, w1: (n >> 64) as u64, w2: 0, w3: 0 }
}

#[test]
fn next_target_agrees_with_decimal_fractions() {
    let targets: [u128; 7] = [
        0,
        1,
        3,
        499,
        1_000,
        987_654_321_987_654_321,
        (1u128 << 120) + 12_345,
    ];
    let times: [i64; 14] = [0, 1, 2, 124, 125, 126, 333, 499, 500, 501, 777, 1999, 2000, 2001];
    for target in targets {
        for elapsed in times {
            assert_eq!(
                next_target(number(target), elapsed as i128),
                number(by_decimal_fractions(target, elapsed)),
                "target {} after {} seconds",
                target,
                elapsed
            );
        }
    }
}
