use capvm::arith::{sat_add, sat_div, sat_mul, sat_sub};
use capvm::bytecode::Condition;

#[test]
fn add_stays_exact_inside_the_bounds() {
    assert_eq!(sat_add(1, 2), 3);
    assert_eq!(sat_add(-5, 3), -2);
    assert_eq!(sat_add(32767, 0), 32767);
    assert_eq!(sat_add(-32768, 0), -32768);
}

#[test]
fn add_saturates_at_both_bounds() {
    assert_eq!(sat_add(32000, 32000), 32767);
    assert_eq!(sat_add(32767, 1), 32767);
    assert_eq!(sat_add(-32000, -32000), -32768);
    assert_eq!(sat_add(-32768, -1), -32768);
}

#[test]
fn sub_saturates_at_both_bounds() {
    assert_eq!(sat_sub(10, 3), 7);
    assert_eq!(sat_sub(-32768, 1), -32768);
    assert_eq!(sat_sub(32767, -1), 32767);
    assert_eq!(sat_sub(0, -32768), 32767);
    assert_eq!(sat_sub(0, 2), -2);
}

#[test]
fn mul_saturates_at_both_bounds() {
    assert_eq!(sat_mul(6, 7), 42);
    assert_eq!(sat_mul(-6, 7), -42);
    assert_eq!(sat_mul(181, 181), 32761);
    assert_eq!(sat_mul(182, 182), 32767);
    assert_eq!(sat_mul(-32768, -32768), 32767);
    assert_eq!(sat_mul(-32768, 32767), -32768);
    assert_eq!(sat_mul(-32768, -1), 32767);
}

#[test]
fn div_rounds_toward_zero() {
    assert_eq!(sat_div(7, 2), 3);
    assert_eq!(sat_div(-7, 2), -3);
    assert_eq!(sat_div(7, -2), -3);
    assert_eq!(sat_div(-7, -2), 3);
    assert_eq!(sat_div(0, 5), 0);
    assert_eq!(sat_div(1, -32768), 0);
}

#[test]
fn div_saturates_the_one_quotient_that_overflows() {
    assert_eq!(sat_div(-32768, -1), 32767);
    assert_eq!(sat_div(-32768, 1), -32768);
    assert_eq!(sat_div(32767, -1), -32767);
}

#[test]
fn div_by_zero_gives_the_bound_on_the_dividends_side() {
    assert_eq!(sat_div(5, 0), 32767);
    assert_eq!(sat_div(32767, 0), 32767);
    assert_eq!(sat_div(-5, 0), -32768);
    assert_eq!(sat_div(-32768, 0), -32768);
    assert_eq!(sat_div(0, 0), 32767);
}

#[test]
fn saturating_operations_agree_with_the_clamped_true_result() {
    let samples: [i16; 9] = [-32768, -32767, -200, -1, 0, 1, 181, 32766, 32767];
    for a in samples {
        for b in samples {
            let clamp = |x: i64| x.clamp(-32768, 32767) as i16;
            assert_eq!(sat_add(a, b), clamp(a as i64 + b as i64));
            assert_eq!(sat_sub(a, b), clamp(a as i64 - b as i64));
            assert_eq!(sat_mul(a, b), clamp(a as i64 * b as i64));
            if b != 0 {
                assert_eq!(sat_div(a, b), clamp(a as i64 / b as i64));
            }
        }
    }
}

#[test]
fn conditions_compare_signed_words() {
    assert!(Condition::L.test(1, 2));
    assert!(!Condition::L.test(2, 2));
    assert!(Condition::L.test(-1, 0));
    assert!(Condition::LE.test(2, 2));
    assert!(!Condition::LE.test(3, 2));
    assert!(Condition::E.test(-7, -7));
    assert!(!Condition::E.test(-7, 7));
    assert!(Condition::GE.test(2, 2));
    assert!(!Condition::GE.test(1, 2));
    assert!(Condition::G.test(3, 2));
    assert!(!Condition::G.test(2, 2));
    assert!(Condition::G.test(0, -32768));
}
