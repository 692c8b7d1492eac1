use catboost_polars::decimal::decimal_string;
use catboost_polars::rounding::f32_value_of_integer;

fn sample_values() -> Vec<i128> {
    let mut values: Vec<i128> = vec![
        0,
        1,
        -1,
        9,
        10,
        99,
        100,
        16_777_215,
        16_777_216,
        16_777_217,
        16_777_218,
        16_777_219,
        -16_777_217,
        -16_777_219,
        33_554_433,
        33_554_435,
        33_554_438,
        (1i128 << 53) + 1,
        i64::MAX as i128,
        i64::MIN as i128,
        i64::MAX as i128 - 1,
        u64::MAX as i128,
        u64::MAX as i128 - 1,
        1i128 << 63,
        (1i128 << 63) - (1i128 << 39),
        (1i128 << 63) - (1i128 << 39) - 1,
    ];
    let mut state: u64 = 0x9E37_79B9_7F4A_7C15;
    for _ in 0..20_000 {
        state = state.wrapping_mul(6364136223846793005).wrapping_add(1442695040888963407);
        let shift = (state >> 58) as u32;
        let magnitude = (state >> 1) >> shift;
        values.push(magnitude as i128);
        values.push(-(magnitude as i128));
        values.push(state as i128);
    }
    values
}

#[test]
fn decimal_matches_std_formatting() {
    for v in [0i128, 1, -1, 7, 10, -10, 12345, -987654321, i64::MAX as i128, i64::MIN as i128, u64::MAX as i128, -(u64::MAX as i128)] {
        assert_eq!(decimal_string(v), format!("{}", v));
    }
}

#[test]
fn decimal_of_many_values() {
    let mut v: i128 = 1;
    for _ in 0..19 {
        assert_eq!(decimal_string(v), v.to_string());
        assert_eq!(decimal_string(-v), (-v).to_string());
        assert_eq!(decimal_string(v - 1), (v - 1).to_string());
        v *= 10;
    }
}

#[test]
fn integer_to_f32_matches_the_cast() {
    for x in sample_values() {
        let expected: f32 = if x < 0 { (x as i64) as f32 } else { (x as u64) as f32 };
        assert_eq!(f32_value_of_integer(x), expected as i128, "value {}", x);
    }
}

#[test]
fn small_integers_are_exact() {
    for x in -20_000i128..20_000 {
        assert_eq!(f32_value_of_integer(x), x);
    }
    assert_eq!(f32_value_of_integer(16_777_216), 16_777_216);
    assert_eq!(f32_value_of_integer(-16_777_216), -16_777_216);
}

#[test]
fn ties_go_to_the_even_significand() {
    assert_eq!(f32_value_of_integer(16_777_217), 16_777_216);
    assert_eq!(f32_value_of_integer(16_777_219), 16_777_220);
    assert_eq!(f32_value_of_integer(-16_777_219), -16_777_220);
    assert_eq!(f32_value_of_integer(33_554_434), 33_554_432);
    assert_eq!(f32_value_of_integer(33_554_438), 33_554_440);
}
