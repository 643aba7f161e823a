use lever_pool::fixed::{
    fixed_div_ceil,
    fixed_div_floor,
    fixed_mul_ceil,
    fixed_mul_floor,
    SCALAR_7,
};

// Each operation must really compute the scaled product or quotient with
// its stated rounding direction: handing an argument back unchanged, or
// rounding the wrong way, fails these.

#[test]
fn mul_floor_rounds_down() {
    assert_eq!(fixed_mul_floor(7, 3, 2), 10);
    assert_eq!(fixed_mul_floor(7, 3, 3), 7);
    assert_eq!(fixed_mul_floor(1_5000000, 2_0000000, SCALAR_7), 3_0000000);
    // A negative product floors away from zero.
    assert_eq!(fixed_mul_floor(-7, 3, 2), -11);
}

#[test]
fn mul_ceil_rounds_up() {
    assert_eq!(fixed_mul_ceil(7, 3, 2), 11);
    assert_eq!(fixed_mul_ceil(7, 3, 3), 7);
    // A negative product ceils toward zero.
    assert_eq!(fixed_mul_ceil(-7, 3, 2), -10);
}

#[test]
fn div_floor_rounds_down() {
    assert_eq!(fixed_div_floor(7, 2, 10), 35);
    assert_eq!(fixed_div_floor(7, 3, 10), 23);
    assert_eq!(fixed_div_floor(1_0000000, 3_0000000, SCALAR_7), 0_3333333);
    assert_eq!(fixed_div_floor(-7, 3, 10), -24);
}

#[test]
fn div_ceil_rounds_up() {
    assert_eq!(fixed_div_ceil(7, 3, 10), 24);
    assert_eq!(fixed_div_ceil(7, 7, 10), 10);
    assert_eq!(fixed_div_ceil(1_0000000, 3_0000000, SCALAR_7), 0_3333334);
    assert_eq!(fixed_div_ceil(-7, 3, 10), -23);
}
