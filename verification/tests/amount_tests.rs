use rand::{thread_rng, Rng};
use rust_decimal::Decimal;
use rust_tx_engine::amount::{Amount, LEDGER_SCALE, MAX_MANTISSA, MAX_SCALE};

fn random_mantissa() -> i128 {
    let mut rng = thread_rng();
    let bits = rng.gen_range(0..=96u32);
    let magnitude = if bits == 0 {
        0
    } else {
        (rng.gen::<u128>() >> (128 - bits)) as i128
    };
    if rng.gen::<bool>() {
        -magnitude
    } else {
        magnitude
    }
}

fn rescaled_by_hand(mantissa: i128, scale: u32, target: u32) -> Amount {
    if scale == target {
        return amount(mantissa, scale);
    }
    if mantissa == 0 {
        return amount(0, target);
    }
    let negative = mantissa < 0;
    let mut magnitude = mantissa.abs();
    let mut digits = scale;
    if scale > target {
        let p = 10i128.pow(scale - target);
        let q = magnitude / p;
        let r = magnitude % p;
        magnitude = if 2 * r >= p { q + 1 } else { q };
        digits = target;
    } else {
        while digits < target && magnitude * 10 <= MAX_MANTISSA {
            magnitude *= 10;
            digits += 1;
        }
    }
    amount(if negative { -magnitude } else { magnitude }, digits)
}

fn amount(mantissa: i128, scale: u32) -> Amount {
    Amount::from_parts(mantissa, scale).unwrap()
}

fn shown(a: Amount) -> String {
    Decimal::from_i128_with_scale(a.mantissa(), a.scale()).to_string()
}

#[test]
fn constants_are_those_of_a_96_bit_decimal() {
    assert_eq!(MAX_MANTISSA, (1i128 << 96) - 1);
    assert_eq!(MAX_SCALE, 28);
    assert_eq!(LEDGER_SCALE, 4);
    assert_eq!(MAX_SCALE, Decimal::MAX_SCALE);
    assert_eq!(Decimal::MAX.mantissa(), MAX_MANTISSA);
}

#[test]
fn new_zero_and_getters() {
    let a = Amount::new(-15, 1);
    assert_eq!(a.mantissa(), -15);
    assert_eq!(a.scale(), 1);
    assert!(a.is_valid());
    assert!(a.is_negative());
    assert!(!Amount::new(15, 1).is_negative());
    assert!(!Amount::zero().is_negative());
    assert_eq!(Amount::zero(), Amount::new(0, 0));
    assert_eq!(shown(Amount::zero()), "0");
}

#[test]
fn from_parts_accepts_exactly_the_valid_range() {
    assert_eq!(
        Amount::from_parts(MAX_MANTISSA, 28),
        Some(Amount {
            mantissa: MAX_MANTISSA,
            scale: 28
        })
    );
    assert_eq!(
        Amount::from_parts(-MAX_MANTISSA, 0),
        Some(Amount {
            mantissa: -MAX_MANTISSA,
            scale: 0
        })
    );
    assert_eq!(Amount::from_parts(MAX_MANTISSA + 1, 0), None);
    assert_eq!(Amount::from_parts(-MAX_MANTISSA - 1, 0), None);
    assert_eq!(Amount::from_parts(1, 29), None);
    assert!(!Amount {
        mantissa: 1,
        scale: 29
    }
    .is_valid());
}

#[test]
fn add_with_equal_scales_adds_the_mantissas() {
    assert_eq!(amount(15000, 4).exact_add(amount(25000, 4)), amount(40000, 4));
    assert_eq!(amount(5, 2).exact_add(amount(-5, 2)), amount(0, 2));
    assert_eq!(amount(5, 2).exact_add(amount(-7, 2)), amount(-2, 2));
    assert_eq!(amount(-5, 2).exact_add(amount(-7, 2)), amount(-12, 2));
    assert_eq!(amount(-5, 2).exact_add(amount(7, 2)), amount(2, 2));
    assert_eq!(
        amount(u32::MAX as i128, 4).exact_add(amount(1, 4)),
        amount(1i128 << 32, 4)
    );
    assert_eq!(
        amount(1i128 << 40, 2).exact_add(amount(1i128 << 50, 2)),
        amount((1i128 << 40) + (1i128 << 50), 2)
    );
    assert_eq!(
        amount(u64::MAX as i128, 3).exact_add(amount(1, 3)),
        amount(1i128 << 64, 3)
    );
    assert_eq!(
        amount(MAX_MANTISSA - 1, 3).exact_add(amount(1, 3)),
        amount(MAX_MANTISSA, 3)
    );
    assert_eq!(
        amount(MAX_MANTISSA, 0).exact_add(amount(-MAX_MANTISSA, 0)),
        amount(0, 0)
    );
    assert_eq!(
        amount(-MAX_MANTISSA + 5, 28).exact_add(amount(-5, 28)),
        amount(-MAX_MANTISSA, 28)
    );
    assert_eq!(
        amount(1i128 << 80, 5).exact_add(amount(-(1i128 << 70), 5)),
        amount((1i128 << 80) - (1i128 << 70), 5)
    );
}

#[test]
fn add_with_a_zero_operand_keeps_the_other() {
    assert_eq!(amount(0, 0).exact_add(amount(100000, 4)), amount(100000, 4));
    assert_eq!(amount(0, 4).exact_add(amount(5, 0)), amount(5, 0));
    assert_eq!(amount(5, 0).exact_add(amount(0, 4)), amount(5, 0));
    assert_eq!(amount(0, 4).exact_add(amount(0, 0)), amount(0, 0));
    assert_eq!(amount(0, 0).exact_add(amount(0, 4)), amount(0, 4));
    assert_eq!(amount(0, 7).exact_add(amount(-MAX_MANTISSA, 2)), amount(-MAX_MANTISSA, 2));
    assert_eq!(amount(1i128 << 70, 7).exact_add(amount(0, 2)), amount(1i128 << 70, 7));
}

#[test]
fn sub_with_equal_scales_subtracts_the_mantissas() {
    assert_eq!(amount(100000, 4).exact_sub(amount(100000, 4)), amount(0, 4));
    assert_eq!(amount(10, 0).exact_sub(amount(5, 0)), amount(5, 0));
    assert_eq!(amount(5, 0).exact_sub(amount(10, 0)), amount(-5, 0));
    assert_eq!(amount(-5, 1).exact_sub(amount(10, 1)), amount(-15, 1));
    assert_eq!(amount(-5, 1).exact_sub(amount(-10, 1)), amount(5, 1));
    assert_eq!(
        amount(1i128 << 64, 3).exact_sub(amount(1, 3)),
        amount(u64::MAX as i128, 3)
    );
    assert_eq!(
        amount(MAX_MANTISSA, 9).exact_sub(amount(MAX_MANTISSA, 9)),
        amount(0, 9)
    );
    assert_eq!(
        amount(-MAX_MANTISSA + 1, 9).exact_sub(amount(1, 9)),
        amount(-MAX_MANTISSA, 9)
    );
    assert_eq!(
        amount(1i128 << 70, 9).exact_sub(amount(1i128 << 90, 9)),
        amount((1i128 << 70) - (1i128 << 90), 9)
    );
}

#[test]
fn sub_with_a_zero_operand() {
    assert_eq!(amount(0, 0).exact_sub(amount(500, 2)), amount(-500, 2));
    assert_eq!(amount(0, 4).exact_sub(amount(-500, 2)), amount(500, 2));
    assert_eq!(amount(0, 4).exact_sub(amount(0, 2)), amount(0, 2));
    assert_eq!(amount(500, 2).exact_sub(amount(0, 4)), amount(500, 2));
    assert_eq!(amount(0, 1).exact_sub(amount(1i128 << 80, 6)), amount(-(1i128 << 80), 6));
}

#[test]
fn exactness_checks() {
    assert!(amount(5, 4).adds_exactly(&amount(7, 4)));
    assert!(amount(0, 0).adds_exactly(&amount(7, 4)));
    assert!(amount(7, 4).adds_exactly(&amount(0, 0)));
    assert!(!amount(5, 0).adds_exactly(&amount(7, 4)));
    assert!(!amount(MAX_MANTISSA, 4).adds_exactly(&amount(1, 4)));
    assert!(amount(MAX_MANTISSA, 4).adds_exactly(&amount(-1, 4)));
    assert!(amount(5, 4).subtracts_exactly(&amount(7, 4)));
    assert!(amount(0, 0).subtracts_exactly(&amount(7, 4)));
    assert!(!amount(5, 0).subtracts_exactly(&amount(7, 4)));
    assert!(!amount(-MAX_MANTISSA, 4).subtracts_exactly(&amount(1, 4)));
    assert!(amount(-MAX_MANTISSA, 4).subtracts_exactly(&amount(-1, 4)));
}

#[test]
fn normalized_adds_fractional_digits() {
    assert_eq!(amount(100, 1).normalized(), amount(100000, 4));
    assert_eq!(amount(15, 1).normalized(), amount(15000, 4));
    assert_eq!(amount(-2, 0).normalized(), amount(-20000, 4));
    assert_eq!(amount(12345, 4).normalized(), amount(12345, 4));
    assert_eq!(amount(123, 3).normalized(), amount(1230, 4));
    assert_eq!(shown(amount(100, 1).normalized()), "10.0000");
}

#[test]
fn normalized_zero_takes_the_ledger_scale() {
    assert_eq!(amount(0, 0).normalized(), amount(0, 4));
    assert_eq!(amount(0, 9).normalized(), amount(0, 4));
    assert_eq!(amount(0, 4).normalized(), amount(0, 4));
}

#[test]
fn normalized_rounds_a_midpoint_away_from_zero() {
    assert_eq!(amount(123455, 5).normalized(), amount(12346, 4));
    assert_eq!(amount(123454, 5).normalized(), amount(12345, 4));
    assert_eq!(amount(-123455, 5).normalized(), amount(-12346, 4));
    assert_eq!(amount(-123454, 5).normalized(), amount(-12345, 4));
    assert_eq!(amount(1234549999, 9).normalized(), amount(12345, 4));
    assert_eq!(amount(1234550000, 9).normalized(), amount(12346, 4));
    assert_eq!(amount(1234650000, 9).normalized(), amount(12347, 4));
    assert_eq!(amount(49999, 9).normalized(), amount(0, 4));
    assert_eq!(amount(50000, 9).normalized(), amount(1, 4));
    assert_eq!(amount(-50000, 9).normalized(), amount(-1, 4));
    assert_eq!(amount(4, 28).normalized(), amount(0, 4));
    assert_eq!(
        amount(MAX_MANTISSA, 28).normalized(),
        amount(79228, 4)
    );
    assert_eq!(
        amount(MAX_MANTISSA, 5).normalized(),
        amount(7_922_816_251_426_433_759_354_395_034, 4)
    );
    assert_eq!(
        amount(-999_995, 5).normalized(),
        amount(-100_000, 4)
    );
}

#[test]
fn normalized_stops_where_the_mantissa_is_full() {
    assert_eq!(amount(MAX_MANTISSA, 0).normalized(), amount(MAX_MANTISSA, 0));
    assert_eq!(
        amount(7_922_816_251_426_433_759_354_395_033, 0).normalized(),
        amount(79_228_162_514_264_337_593_543_950_330, 1)
    );
    assert_eq!(
        amount(7_922_816_251_426_433_759_354_395_034, 0).normalized(),
        amount(7_922_816_251_426_433_759_354_395_034, 0)
    );
    assert_eq!(
        amount(-792_281_625_142_643_375_935_439_503, 2).normalized(),
        amount(-79_228_162_514_264_337_593_543_950_300, 4)
    );
    assert_eq!(
        amount(7_922_816_251_426_433_759_354_395, 0).normalized(),
        amount(79_228_162_514_264_337_593_543_950_000, 4)
    );
    assert_eq!(
        amount(7_922_816_251_426_433_759_354_396, 0).normalized(),
        amount(7_922_816_251_426_433_759_354_396_000, 3)
    );
}

#[test]
fn random_sums_and_differences_match_integer_arithmetic() {
    let mut rng = thread_rng();
    let mut exact = 0;
    for _ in 0..20000 {
        let scale = rng.gen_range(0..=MAX_SCALE);
        let a = amount(random_mantissa(), scale);
        let b = amount(random_mantissa(), scale);
        if a.mantissa() == 0 || b.mantissa() == 0 {
            continue;
        }
        if a.adds_exactly(&b) {
            assert_eq!(a.exact_add(b), amount(a.mantissa() + b.mantissa(), scale));
            exact += 1;
        }
        if a.subtracts_exactly(&b) {
            assert_eq!(a.exact_sub(b), amount(a.mantissa() - b.mantissa(), scale));
            exact += 1;
        }
    }
    assert!(exact > 10000);
}

#[test]
fn random_sums_with_a_zero_operand() {
    let mut rng = thread_rng();
    for _ in 0..5000 {
        let zero = amount(0, rng.gen_range(0..=MAX_SCALE));
        let x = amount(random_mantissa(), rng.gen_range(0..=MAX_SCALE));
        assert!(zero.adds_exactly(&x) && x.adds_exactly(&zero));
        assert!(zero.subtracts_exactly(&x) && x.subtracts_exactly(&zero));
        assert_eq!(zero.exact_add(x), x);
        assert_eq!(zero.exact_sub(x), amount(-x.mantissa(), x.scale()));
        if x.mantissa() != 0 {
            assert_eq!(x.exact_add(zero), x);
            assert_eq!(x.exact_sub(zero), x);
        }
    }
}

#[test]
fn random_amounts_normalize_as_computed_by_hand() {
    let mut rng = thread_rng();
    for _ in 0..20000 {
        let scale = rng.gen_range(0..=MAX_SCALE);
        let a = amount(random_mantissa(), scale);
        let r = a.normalized();
        assert_eq!(r, rescaled_by_hand(a.mantissa(), scale, LEDGER_SCALE));
        assert!(r.is_valid());
    }
}
