use wasmrepl::ops::{IntOps, NumOps};

#[test]
fn ops_test_i32_add() {
    assert_eq!(1.add(2), 3);
}

#[test]
fn ops_test_i32_add_overflow() {
    assert_eq!(i32::MAX.add(1), i32::MIN);
}

#[test]
fn ops_test_i32_sub() {
    assert_eq!(1.sub(2), -1i32);
}

#[test]
fn ops_test_i32_sub_overflow() {
    assert_eq!(i32::MIN.sub(1), i32::MAX);
}

#[test]
fn ops_test_i32_mul() {
    assert_eq!(4.mul(2), 8);
}

#[test]
fn ops_test_i32_mul_overflow() {
    assert_eq!(i32::MAX.mul(2), -2);
}

#[test]
fn ops_test_i64_add() {
    assert_eq!(1i64.add(2i64), 3i64);
}

#[test]
fn test_clz() {
    assert_eq!(1i32.clz(), 31);
    assert_eq!(1i64.clz(), 63);
}

#[test]
fn test_ctz() {
    assert_eq!(1024i32.ctz(), 10);
    assert_eq!(2048i64.ctz(), 11);
}

#[test]
fn test_popcnt() {
    assert_eq!(1023i32.popcnt(), 10);
    assert_eq!(1023i64.popcnt(), 10);
}

#[test]
fn ops_test_i32_div_s() {
    assert_eq!(7.div_s(3).unwrap(), 2);
}

#[test]
fn test_i32_div_s_overflow_error() {
    // Pulled from WASM test suite
    assert!(i32::MIN.div_s(-1).is_err());
}

#[test]
fn test_i32_div_s_by_zero() {
    assert!(5i32.div_s(0i32).is_err());
}

#[test]
fn ops_test_i32_div_u() {
    assert_eq!(7.div_s(3).unwrap(), 2);
    // Pulled from WASM test suite
    assert_eq!(i32::MIN.div_u(2).unwrap(), 0x40000000);
}

#[test]
fn test_i32_div_u_div_by_zero_error() {
    assert!(5.div_u(0).is_err());
}

#[test]
fn ops_test_i32_rem_s() {
    assert_eq!(7.rem_s(3).unwrap(), 1);
}

#[test]
fn test_i32_rem_s_overflow_error() {
    assert_eq!(i32::MIN.rem_s(-1).unwrap(), 0);
}

#[test]
fn test_i32_rem_s_by_zero() {
    assert!(5i32.rem_s(0i32).is_err());
}

#[test]
fn ops_test_i32_rem_u() {
    assert_eq!(7.rem_s(3).unwrap(), 1);
    assert_eq!(i32::MIN.rem_u(-1).unwrap(), i32::MIN);
}

#[test]
fn test_i32_rem_u_div_by_zero_error() {
    assert!(5.rem_u(0).is_err());
}

#[test]
fn ops_test_i32_shr_s() {
    assert_eq!(1i32.shr_s(2), 0);
}

#[test]
fn test_i32_shr_s_overflow() {
    assert_eq!(2i32.shr_s(33), 1);
}

#[test]
fn test_i32_shr_s_negative() {
    assert_eq!((-2i32).shr_s(1), -1);
}

#[test]
fn test_i32_shr_s_by_negative() {
    assert_eq!(2i32.shr_s(-31), 1);
}

#[test]
fn ops_test_i32_shr_u() {
    assert_eq!(1i32.shr_u(2), 0);
}

#[test]
fn test_i32_shr_u_overflow() {
    assert_eq!(2i32.shr_u(33), 1);
}

#[test]
fn test_i32_shr_u_negative() {
    assert_eq!((-2i32).shr_u(1), 0x7FFFFFFF);
}

#[test]
fn test_i32_shr_u_by_negative() {
    assert_eq!(2i32.shr_u(-31), 1);
}

#[test]
fn ops_test_i32_rotl() {
    assert_eq!(0x10008002.rotl(37), 0x100042);
}

#[test]
fn ops_test_i32_rotr() {
    assert_eq!(0x100042.rotr(37), 0x10008002);
}

#[test]
fn ops_test_i64_div_s() {
    assert_eq!(1i64.div_s(2i64).unwrap(), 0);
}

#[test]
fn ops_test_i64_div_u() {
    // Pulled from WASM test suite
    assert_eq!(i64::MIN.div_u(2).unwrap(), 0x4000000000000000i64);
}

#[test]
fn ops_test_i64_shr_s() {
    assert_eq!(4i64.shr_s(1), 2i64);
}

#[test]
fn ops_test_i64_shr_u() {
    assert_eq!(1i64.shr_u(2), 0);
}

#[test]
fn ops_test_i64_rotl() {
    assert_eq!(0x10008002i64.rotl(37), 0x10004000000002);
}

#[test]
fn ops_test_i64_rotr() {
    assert_eq!(0x10004000000002i64.rotr(37), 0x10008002i64);
}

#[test]
fn test_i32_eqz() {
    assert_eq!(5i32.eqz(), 0);
    assert_eq!(0i32.eqz(), 1);
}

#[test]
fn test_i64_eqz() {
    assert_eq!(5i64.eqz(), 0);
    assert_eq!(0i64.eqz(), 1);
}

#[test]
fn test_i32_eq() {
    assert_eq!(1i32.eq(1), 1);
    assert_eq!(1i32.eq(2), 0);
}

#[test]
fn test_i64_eq() {
    assert_eq!(1i64.eq(1), 1);
    assert_eq!(1i64.eq(2), 0);
}

#[test]
fn test_i32_ne() {
    assert_eq!(1i32.ne(1), 0);
    assert_eq!(1i32.ne(2), 1);
}

#[test]
fn test_i64_ne() {
    assert_eq!(1i64.ne(1), 0);
    assert_eq!(1i64.ne(2), 1);
}

#[test]
fn test_i32_lt_s() {
    assert_eq!(1i32.lt_s(2), 1);
    assert_eq!(1i32.lt_s(1), 0);
    assert_eq!(2i32.lt_s(1), 0);
    assert_eq!((-1i32).lt_s(1), 1);
}

#[test]
fn test_i64_lt_s() {
    assert_eq!(1i64.lt_s(2), 1);
    assert_eq!(1i64.lt_s(1), 0);
    assert_eq!(2i64.lt_s(1), 0);
    assert_eq!((-1i64).lt_s(1), 1);
}

#[test]
fn test_i32_lt_u() {
    assert_eq!(1i32.lt_u(2), 1);
    assert_eq!(1i32.lt_u(1), 0);
    assert_eq!(2i32.lt_u(1), 0);
    assert_eq!((-1i32).lt_u(1), 0);
}

#[test]
fn test_i64_lt_u() {
    assert_eq!(1i64.lt_u(2), 1);
    assert_eq!(1i64.lt_u(1), 0);
    assert_eq!(2i64.lt_u(1), 0);
    assert_eq!((-1i64).lt_u(1), 0);
}

#[test]
fn test_i32_gt_s() {
    assert_eq!(1i32.gt_s(2), 0);
    assert_eq!(1i32.gt_s(1), 0);
    assert_eq!(2i32.gt_s(1), 1);
    assert_eq!((-1i32).gt_s(1), 0);
}

#[test]
fn test_i64_gt_s() {
    assert_eq!(1i64.gt_s(2), 0);
    assert_eq!(1i64.gt_s(1), 0);
    assert_eq!(2i64.gt_s(1), 1);
    assert_eq!((-1i64).gt_s(1), 0);
}

#[test]
fn test_i32_gt_u() {
    assert_eq!(1i32.gt_u(2), 0);
    assert_eq!(1i32.gt_u(1), 0);
    assert_eq!(2i32.gt_u(1), 1);
    assert_eq!((-1i32).gt_u(1), 1);
}

#[test]
fn test_i64_gt_u() {
    assert_eq!(1i64.gt_u(2), 0);
    assert_eq!(1i64.gt_u(1), 0);
    assert_eq!(2i64.gt_u(1), 1);
    assert_eq!((-1i64).gt_u(1), 1);
}

#[test]
fn test_i32_le_s() {
    assert_eq!(1i32.le_s(2), 1);
    assert_eq!(1i32.le_s(1), 1);
    assert_eq!(2i32.le_s(1), 0);
    assert_eq!((-1i32).le_s(1), 1);
}

#[test]
fn test_i64_le_s() {
    assert_eq!(1i64.le_s(2), 1);
    assert_eq!(1i64.le_s(1), 1);
    assert_eq!(2i64.le_s(1), 0);
    assert_eq!((-1i64).le_s(1), 1);
}

#[test]
fn test_i32_le_u() {
    assert_eq!(1i32.le_u(2), 1);
    assert_eq!(1i32.le_u(1), 1);
    assert_eq!(2i32.le_u(1), 0);
    assert_eq!((-1i32).le_u(1), 0);
}

#[test]
fn test_i64_le_u() {
    assert_eq!(1i64.le_u(2), 1);
    assert_eq!(1i64.le_u(1), 1);
    assert_eq!(2i64.le_u(1), 0);
    assert_eq!((-1i64).le_u(1), 0);
}

#[test]
fn test_i32_ge_s() {
    assert_eq!(1i32.ge_s(2), 0);
    assert_eq!(1i32.ge_s(1), 1);
    assert_eq!(2i32.ge_s(1), 1);
    assert_eq!((-1i32).ge_s(1), 0);
}

#[test]
fn test_i64_ge_s() {
    assert_eq!(1i64.ge_s(2), 0);
    assert_eq!(1i64.ge_s(1), 1);
    assert_eq!(2i64.ge_s(1), 1);
    assert_eq!((-1i64).ge_s(1), 0);
}

#[test]
fn test_i32_ge_u() {
    assert_eq!(1i32.ge_u(2), 0);
    assert_eq!(1i32.ge_u(1), 1);
    assert_eq!(2i32.ge_u(1), 1);
    assert_eq!((-1i32).ge_u(1), 1);
}

#[test]
fn test_i64_ge_u() {
    assert_eq!(1i64.ge_u(2), 0);
    assert_eq!(1i64.ge_u(1), 1);
    assert_eq!(2i64.ge_u(1), 1);
    assert_eq!((-1i64).ge_u(1), 1);
}
