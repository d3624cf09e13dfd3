use api::decimal::{Dec, MAX_MANTISSA, MAX_SCALE};

fn dec(m: i128, s: u32) -> Dec {
    Dec::new(m, s).unwrap()
}

fn repr(d: &Dec) -> (i128, u32) {
    (d.mantissa(), d.scale())
}

#[test]
fn exact_sums_align_scales() {
    assert_eq!(repr(&dec(100000, 0).checked_add(&dec(1800000, 2)).unwrap()), (11800000, 2));
    assert_eq!(repr(&dec(0, 0).checked_add(&dec(-5, 1)).unwrap()), (-5, 1));
    assert_eq!(repr(&dec(5, 1).checked_sub(&dec(0, 0)).unwrap()), (5, 1));
    assert_eq!(repr(&dec(0, 0).checked_sub(&dec(25, 1)).unwrap()), (-25, 1));
}

#[test]
fn exact_products_add_scales() {
    assert_eq!(repr(&dec(100000, 0).checked_mul(&dec(18, 2)).unwrap()), (1800000, 2));
    assert_eq!(repr(&dec(0, 3).checked_mul(&dec(18, 2)).unwrap()), (0, 0));
}

#[test]
fn inexact_results_are_refused() {
    assert!(dec(1, 20).checked_mul(&dec(1, 9)).is_none());
    assert!(dec(MAX_MANTISSA, 0).checked_add(&dec(1, 0)).is_none());
    assert!(dec(MAX_MANTISSA, 0).checked_mul(&dec(2, 0)).is_none());
    assert!(Dec::new(1, MAX_SCALE + 1).is_none());
    assert!(Dec::new(MAX_MANTISSA + 1, 0).is_none());
}

#[test]
fn division_by_hundred_and_by_zero() {
    let q = dec(5, 0).checked_div(&dec(100, 0)).unwrap();
    assert_eq!(repr(&q), (5, 2));
    assert!(dec(5, 0).checked_div(&dec(0, 0)).is_none());
}

#[test]
fn comparisons_are_by_value() {
    assert!(dec(50, 1).le(&dec(5, 0)));
    assert!(!dec(50, 1).lt(&dec(5, 0)));
    assert!(dec(-1, 0).lt(&Dec::zero()));
    assert_eq!(repr(&dec(7, 3).neg()), (-7, 3));
    assert_eq!(repr(&Dec::from_int(-12)), (-12, 0));
}
