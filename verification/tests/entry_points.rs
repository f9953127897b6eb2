use fast_fibonacci::{bigfib_with_mod, fib_with_mod};
use num::FromPrimitive;
use num_bigint::BigUint;

#[test]
fn test_first_few() {
    assert_eq!(fib_with_mod(0, 10), Ok(0));
    assert_eq!(fib_with_mod(1, 10), Ok(1));
    assert_eq!(fib_with_mod(2, 10), Ok(1));
    assert_eq!(fib_with_mod(3, 10), Ok(2));
    assert_eq!(fib_with_mod(4, 10), Ok(3));
    assert_eq!(fib_with_mod(5, 10), Ok(5));
}

#[test]
fn test_modulo() {
    assert_eq!(fib_with_mod(100, 1_000_000_000), Ok(261_915_075));
    assert_eq!(fib_with_mod(100, 1_000_000), Ok(915_075));
    assert_eq!(fib_with_mod(100, 1_000), Ok(75));
    assert_eq!(fib_with_mod(100, 10), Ok(5));
}

#[test]
fn test_big() {
    assert_eq!(fib_with_mod(1_000_000_000_000_000, 1_000_000), Ok(546_875));
    assert_eq!(
        fib_with_mod(1_955_995_342_096_516, u64::MAX),
        Ok(2_886_946_313_980_141_317)
    );
}

#[test]
fn test_bigfib() {
    let ns: Vec<u64> = vec![0, 1, 2, 3, 10, 1_000_000_000_000_000, 1_955_995_342_096_516];
    let modulos: Vec<u64> = vec![10, 10, 20, 30, 100, 1_000_000, u64::MAX];
    let expected_results: Vec<u64> = vec![0, 1, 1, 2, 55, 546_875, 2_886_946_313_980_141_317];

    for i in 0..ns.len() {
        let n: BigUint = FromPrimitive::from_u64(ns[i]).unwrap();
        let modulo: BigUint = FromPrimitive::from_u64(modulos[i]).unwrap();
        let expected: BigUint = FromPrimitive::from_u64(expected_results[i]).unwrap();
        assert_eq!(bigfib_with_mod(&n, &modulo), Ok(expected));
    }
}

#[test]
fn test_large_bigfib() {
    let n: BigUint = BigUint::from_slice(&[100u32, 100, 100, 100, 15129, 12319]);
    let modulo: BigUint = BigUint::from_slice(&[14u32, 12, 1923876123, 12]);
    let expected_result: BigUint =
        BigUint::from_slice(&[2743227343u32, 920986447, 1158660944, 5]);
    assert_eq!(bigfib_with_mod(&n, &modulo), Ok(expected_result));
}
