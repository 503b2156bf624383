use pi_status::json::{dec_i64_string, dec_u128_string, dec_u64_string};

#[test]
fn decimal_rendering_hits_the_edges() {
    assert_eq!(dec_u64_string(0), "0");
    assert_eq!(dec_u64_string(7), "7");
    assert_eq!(dec_u64_string(10), "10");
    assert_eq!(dec_u64_string(u64::MAX), "18446744073709551615");
}

#[test]
fn signed_rendering_covers_the_extremes() {
    assert_eq!(dec_i64_string(0), "0");
    assert_eq!(dec_i64_string(-1), "-1");
    assert_eq!(dec_i64_string(i64::MIN), "-9223372036854775808");
    assert_eq!(dec_i64_string(i64::MAX), "9223372036854775807");
}

#[test]
fn wide_rendering_matches_the_narrow_one() {
    assert_eq!(dec_u128_string(123456789), "123456789");
    assert_eq!(
        dec_u128_string(u128::MAX),
        "340282366920938463463374607431768211455"
    );
}
