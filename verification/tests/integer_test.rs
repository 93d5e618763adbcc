use wasmrepl::integer::Integer;

#[test]
fn test_leading_zeros() {
    assert_eq!(Integer::I32(1).leading_zeros(), Integer::I32(31));
    assert_eq!(Integer::I64(1).leading_zeros(), Integer::I64(63));
}

#[test]
fn test_trailing_zeros() {
    assert_eq!(Integer::I32(1024).trailing_zeros(), Integer::I32(10));
}

#[test]
fn integer_test_add() {
    assert_eq!(
        Integer::I32(1).add(&Integer::I32(2)).unwrap(),
        Integer::I32(3)
    );
    assert_eq!(
        Integer::I64(1).add(&Integer::I64(2)).unwrap(),
        Integer::I64(3)
    );
}

#[test]
fn integer_test_i32_add_error() {
    assert!(Integer::I32(1).add(&Integer::I64(2)).is_err());
}

#[test]
fn test_sub() {
    assert_eq!(
        Integer::I32(1).sub(&Integer::I32(2)).unwrap(),
        Integer::I32(-1)
    );
}

#[test]
fn test_mul() {
    assert_eq!(
        Integer::I32(1).mul(&Integer::I32(2)).unwrap(),
        Integer::I32(2)
    );
}

#[test]
fn test_div() {
    assert_eq!(
        Integer::I32(1).div(&Integer::I32(2)).unwrap(),
        Integer::I32(0)
    );
    assert_eq!(
        Integer::I64(1).div(&Integer::I64(2)).unwrap(),
        Integer::I64(0)
    );
}

#[test]
fn test_i32_div_error() {
    assert!(Integer::I32(1).div(&Integer::I64(2)).is_err());
}
