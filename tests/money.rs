use bigdecimal::num_bigint::BigInt;
use bigdecimal::{BigDecimal, FromPrimitive};
use order_domain::error::DomainError;
use order_domain::money::{Decimal, Money};

fn dec(v: i64, scale: i64) -> Decimal {
    Decimal { int_bytes: BigInt::from(v).to_signed_bytes_le(), scale }
}

fn money(v: i64, scale: i64) -> Money {
    Money::new(dec(v, scale))
}

fn to_big(d: &Decimal) -> BigDecimal {
    BigDecimal::new(BigInt::from_signed_bytes_le(&d.int_bytes), d.scale)
}

#[test]
fn from_parts_nineteen_ninety_nine() {
    assert_eq!(Money::from_parts(19, 99).display(), "19.99");
}

#[test]
fn from_parts_negative_units_add_positive_cents() {
    assert_eq!(Money::from_parts(-1, 50).display(), "-0.50");
}

#[test]
fn from_parts_negative_whole_units() {
    assert_eq!(Money::from_parts(-3, 0).display(), "-3.00");
}

#[test]
fn from_parts_text_for_many_pairs() {
    for u in [0i64, 1, 7, 42, 1000, 123456789] {
        for c in [0i64, 1, 9, 10, 55, 99] {
            assert_eq!(Money::from_parts(u, c).display(), format!("{}.{:02}", u, c));
        }
    }
}

#[test]
fn from_parts_extreme_units() {
    assert_eq!(Money::from_parts(i64::MAX, 99).display(), format!("{}.99", i64::MAX));
    assert_eq!(Money::from_parts(i64::MIN, 0).display(), format!("{}.00", i64::MIN));
}

#[test]
fn from_parts_keeps_two_places() {
    let d = Money::from_parts(19, 99).value();
    assert_eq!(d.scale, 2);
    assert_eq!(BigInt::from_signed_bytes_le(&d.int_bytes), BigInt::from(1999));
}

#[test]
fn zero_counts_as_greater_than_zero() {
    assert!(Money::zero().is_greater_than_zero());
    assert_eq!(Money::zero().display(), "0.00");
}

#[test]
fn sign_of_amounts() {
    assert!(Money::from_parts(0, 1).is_greater_than_zero());
    assert!(!Money::from_parts(0, -1).is_greater_than_zero());
    assert!(!Money::from_parts(-5, 0).is_greater_than_zero());
    assert!(money(128, 0).is_greater_than_zero());
    assert!(!money(-128, 0).is_greater_than_zero());
    assert!(money(32768, 3).is_greater_than_zero());
}

#[test]
fn add_then_subtract_gives_back() {
    let a = Money::from_parts(10, 25);
    let b = money(3805, 3);
    assert_eq!(a.clone().add(b.clone()).sub(b), a);
}

#[test]
fn add_exact_sum() {
    let s = Money::from_parts(10, 25).add(Money::from_parts(3, 80));
    assert_eq!(s.display(), "14.05");
    assert_eq!(s, money(1405, 2));
}

#[test]
fn add_keeps_larger_scale() {
    let s = money(1, 0).add(money(5, 3));
    let d = s.value();
    assert_eq!(d.scale, 3);
    assert_eq!(to_big(&d), BigDecimal::new(BigInt::from(1005), 3));
}

#[test]
fn subtract_below_zero() {
    let d = Money::from_parts(1, 0).sub(Money::from_parts(2, 50));
    assert_eq!(d.display(), "-1.50");
    assert!(!d.is_greater_than_zero());
}

#[test]
fn multiply_by_integer() {
    assert_eq!(Money::from_parts(2, 50).mul(3).display(), "7.50");
    assert_eq!(Money::from_parts(2, 50).mul(-2).display(), "-5.00");
    assert_eq!(Money::from_parts(2, 50).mul(0), Money::zero());
    assert_eq!(money(1, 0).mul(7).display(), "7.00");
}

#[test]
fn multiply_distributes_over_add() {
    let a = Money::from_parts(4, 10);
    let b = money(-2375, 3);
    for k in [0, 1, -1, 3, 1000, i32::MAX, i32::MIN] {
        let left = a.clone().add(b.clone()).mul(k);
        let right = a.clone().mul(k).add(b.clone().mul(k));
        assert_eq!(left, right);
    }
}

#[test]
fn equality_ignores_scale() {
    assert_eq!(money(15, 1), Money::from_parts(1, 50));
    assert_eq!(money(0, 5), Money::zero());
    assert_ne!(money(15, 1), Money::from_parts(1, 5));
}

#[test]
fn display_rounds_half_to_even() {
    assert_eq!(money(5, 3).display(), "0.00");
    assert_eq!(money(15, 3).display(), "0.02");
    assert_eq!(money(25, 3).display(), "0.02");
    assert_eq!(money(251, 4).display(), "0.03");
    assert_eq!(money(9995, 3).display(), "10.00");
    assert_eq!(money(123456, 4).display(), "12.35");
}

#[test]
fn display_keeps_sign_of_small_negative() {
    assert_eq!(money(-1, 3).display(), "-0.00");
    assert_eq!(money(-125, 3).display(), "-0.12");
}

#[test]
fn display_pads_short_scales() {
    assert_eq!(money(5, 0).display(), "5.00");
    assert_eq!(money(15, 1).display(), "1.50");
}

#[test]
fn try_new_without_decimal_is_invalid() {
    assert!(matches!(Money::try_new(None), Err(DomainError::InvalidMoneyValue)));
}

#[test]
fn try_new_round_trips_float_conversions() {
    for f in [0.1f64, 19.99, -3.25, 0.0, 1e-10, 123456.789] {
        let big = BigDecimal::from_f64(f).unwrap();
        let (i, scale) = big.clone().into_bigint_and_exponent();
        let d = Decimal { int_bytes: i.to_signed_bytes_le(), scale };
        let m = Money::try_new(Some(d)).unwrap();
        assert_eq!(to_big(&m.value()), big);
    }
}

#[test]
fn non_finite_floats_are_invalid_money() {
    for f in [f64::NAN, f64::INFINITY, f64::NEG_INFINITY] {
        let converted = BigDecimal::from_f64(f).map(|big| {
            let (i, scale) = big.into_bigint_and_exponent();
            Decimal { int_bytes: i.to_signed_bytes_le(), scale }
        });
        assert!(matches!(Money::try_new(converted), Err(DomainError::InvalidMoneyValue)));
    }
}

#[test]
fn default_money_is_zero() {
    assert_eq!(Money::default(), Money::zero());
    assert_eq!(Money::default(), Money::from_parts(0, 0));
    assert_eq!(Money::default().display(), "0.00");
}

#[test]
fn display_of_negative_scales() {
    assert_eq!(money(5, -2).display(), "500.00");
    assert_eq!(money(-7, -3).display(), "-7000.00");
    assert_eq!(money(3, -997).display(), format!("3{}.00", "0".repeat(997)));
    assert_eq!(money(12, -998).display(), format!("12{}.00", "0".repeat(998)));
    assert_eq!(money(-12, -1000).display(), format!("-12{}.00", "0".repeat(1000)));
    assert_eq!(money(0, -5000).display(), "0.00");
    assert_eq!(money(0, i64::MIN).display(), "0.00");
}

#[test]
fn operators_match_methods() {
    let a = Money::from_parts(10, 25);
    let b = Money::from_parts(3, 80);
    assert_eq!((a.clone() + b.clone()).display(), "14.05");
    assert_eq!((a.clone() - b.clone()).display(), "6.45");
    assert_eq!((a.clone() * 4).display(), "41.00");
    assert_eq!((a.clone() + b.clone()) - b, a);
}
