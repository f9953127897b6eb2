use fast_fibonacci::{bigfib_with_mod, fib_with_mod, FibError};
use num_bigint::BigUint;

/// The residues of F(0), F(1), ..., F(count - 1) by direct iteration.
fn residues_by_iteration(count: usize, modulo: &BigUint) -> Vec<BigUint> {
    let mut residues: Vec<BigUint> = Vec::new();
    let mut current: BigUint = BigUint::from(0u64);
    let mut next: BigUint = BigUint::from(1u64);
    for _ in 0..count {
        residues.push(&current % modulo);
        let sum: BigUint = &current + &next;
        current = next;
        next = sum;
    }
    residues
}

fn moduli() -> Vec<u64> {
    vec![1, 2, 3, 7, 10, 1_000, 1_000_000_007, 1 << 32, (1 << 63) + 5, u64::MAX - 1, u64::MAX]
}

#[test]
fn index_zero_gives_zero_and_index_one_gives_one() {
    for modulo in moduli() {
        assert_eq!(fib_with_mod(0, modulo), Ok(0));
        assert_eq!(fib_with_mod(1, modulo), Ok(1));
        let big_modulo: BigUint = BigUint::from(modulo);
        assert_eq!(bigfib_with_mod(&BigUint::from(0u64), &big_modulo), Ok(BigUint::from(0u64)));
        assert_eq!(bigfib_with_mod(&BigUint::from(1u64), &big_modulo), Ok(BigUint::from(1u64)));
    }
}

#[test]
fn modulus_one_reduces_everything_from_index_two_on() {
    assert_eq!(fib_with_mod(0, 1), Ok(0));
    assert_eq!(fib_with_mod(1, 1), Ok(1));
    assert_eq!(fib_with_mod(2, 1), Ok(0));
    assert_eq!(fib_with_mod(3, 1), Ok(0));
    assert_eq!(fib_with_mod(u64::MAX, 1), Ok(0));
    let one: BigUint = BigUint::from(1u64);
    assert_eq!(bigfib_with_mod(&one, &one), Ok(BigUint::from(1u64)));
    assert_eq!(bigfib_with_mod(&BigUint::from(2u64), &one), Ok(BigUint::from(0u64)));
    assert_eq!(bigfib_with_mod(&BigUint::from(77u64), &one), Ok(BigUint::from(0u64)));
}

#[test]
fn each_residue_is_the_reduced_sum_of_the_two_before() {
    for modulo in moduli() {
        for n in 2..200u64 {
            let value: u128 = fib_with_mod(n, modulo).unwrap() as u128;
            let previous: u128 = fib_with_mod(n - 1, modulo).unwrap() as u128;
            let before: u128 = fib_with_mod(n - 2, modulo).unwrap() as u128;
            assert_eq!(value, (previous + before) % (modulo as u128));
        }
    }
}

#[test]
fn fixed_width_matches_direct_iteration() {
    for modulo in moduli() {
        let expected: Vec<BigUint> = residues_by_iteration(300, &BigUint::from(modulo));
        for n in 2..300usize {
            let value: u64 = fib_with_mod(n as u64, modulo).unwrap();
            assert_eq!(BigUint::from(value), expected[n]);
        }
    }
}

#[test]
fn exact_values() {
    assert_eq!(fib_with_mod(10, 1_000), Ok(55));
    assert_eq!(fib_with_mod(50, 1_000_000_007), Ok(586_268_941));
    assert_eq!(fib_with_mod(90, u64::MAX), Ok(2_880_067_194_370_816_120));
    assert_eq!(fib_with_mod(93, u64::MAX), Ok(12_200_160_415_121_876_738));
    assert_eq!(fib_with_mod(94, u64::MAX), Ok(1_293_530_146_158_671_552));
    assert_eq!(fib_with_mod(200, u64::MAX - 58), Ok(16_396_205_603_450_552_684));
    assert_eq!(fib_with_mod(u64::MAX, u64::MAX), Ok(4_093_298_358_055_684_510));
    assert_eq!(fib_with_mod(u64::MAX, u64::MAX - 1), Ok(124_121_123_467_573_954));
}

#[test]
fn entry_points_agree_on_64_bit_inputs() {
    let indices: Vec<u64> = vec![
        0,
        1,
        2,
        3,
        4,
        5,
        63,
        64,
        93,
        94,
        1_000,
        999_999_999_999,
        1_955_995_342_096_516,
        u64::MAX - 1,
        u64::MAX,
    ];
    for modulo in moduli() {
        for n in indices.iter() {
            let small: u64 = fib_with_mod(*n, modulo).unwrap();
            let big: BigUint =
                bigfib_with_mod(&BigUint::from(*n), &BigUint::from(modulo)).unwrap();
            assert_eq!(BigUint::from(small), big);
        }
    }
}

#[test]
fn repeated_calls_give_the_same() {
    for modulo in moduli() {
        let first: Result<u64, FibError> = fib_with_mod(123_456_789, modulo);
        let second: Result<u64, FibError> = fib_with_mod(123_456_789, modulo);
        assert_eq!(first, second);
        let n: BigUint = BigUint::from(123_456_789u64);
        let big_modulo: BigUint = BigUint::from(modulo);
        assert_eq!(bigfib_with_mod(&n, &big_modulo), bigfib_with_mod(&n, &big_modulo));
    }
    assert_eq!(fib_with_mod(5, 0), fib_with_mod(5, 0));
}

#[test]
fn results_are_residues() {
    for modulo in moduli() {
        for n in 2..100u64 {
            let value: u64 = fib_with_mod(n, modulo).unwrap();
            assert!(value < modulo);
            assert_eq!(value % modulo, value);
        }
    }
    assert_eq!(fib_with_mod(0, 1), Ok(0));
    assert_eq!(fib_with_mod(1, 2), Ok(1));
}

#[test]
fn zero_modulus_is_rejected() {
    assert_eq!(fib_with_mod(0, 0), Err(FibError::InvalidModulus));
    assert_eq!(fib_with_mod(1, 0), Err(FibError::InvalidModulus));
    assert_eq!(fib_with_mod(2, 0), Err(FibError::InvalidModulus));
    assert_eq!(fib_with_mod(u64::MAX, 0), Err(FibError::InvalidModulus));
    let zero: BigUint = BigUint::from(0u64);
    assert_eq!(bigfib_with_mod(&zero, &zero), Err(FibError::InvalidModulus));
    assert_eq!(bigfib_with_mod(&BigUint::from(1u64), &zero), Err(FibError::InvalidModulus));
    assert_eq!(bigfib_with_mod(&BigUint::from(2u64), &zero), Err(FibError::InvalidModulus));
    let large: BigUint = BigUint::from_slice(&[1u32, 2, 3, 4]);
    assert_eq!(bigfib_with_mod(&large, &zero), Err(FibError::InvalidModulus));
}

#[test]
fn arbitrary_precision_matches_direct_iteration_beyond_64_bits() {
    // The modulus 2^70 + 7 does not fit in 64 bits.
    let modulo: BigUint = BigUint::from_slice(&[7u32, 0, 64]);
    let expected: Vec<BigUint> = residues_by_iteration(400, &modulo);
    for n in 0..400usize {
        let value: BigUint = bigfib_with_mod(&BigUint::from(n as u64), &modulo).unwrap();
        assert_eq!(value, expected[n]);
    }
    let value: BigUint = bigfib_with_mod(&BigUint::from(300u64), &modulo).unwrap();
    assert_eq!(value.to_string(), "386123524990871141846");
}

#[test]
fn arbitrary_precision_index_and_modulus_beyond_64_bits() {
    // n = 2^100 + 12345 and m = 2^80 + 13.
    let n: BigUint = BigUint::from_slice(&[12345u32, 0, 0, 16]);
    let modulo: BigUint = BigUint::from_slice(&[13u32, 0, 65536]);
    let expected: BigUint = BigUint::from_slice(&[972527242u32, 600327192, 9199]);
    assert_eq!(bigfib_with_mod(&n, &modulo), Ok(expected));
}

#[test]
fn arbitrary_precision_index_follows_the_period_of_the_residues() {
    // Modulo 10 the sequence repeats every 60 indices, and
    // 2^64 + 5 leaves 21 when divided by 60; F(21) = 10946.
    let n: BigUint = BigUint::from_slice(&[5u32, 0, 1]);
    let ten: BigUint = BigUint::from(10u64);
    assert_eq!(bigfib_with_mod(&n, &ten), Ok(BigUint::from(6u64)));
    assert_eq!(fib_with_mod(21, 10), Ok(6));
}

#[test]
fn arguments_are_left_as_they_were() {
    let n: BigUint = BigUint::from_slice(&[100u32, 7]);
    let modulo: BigUint = BigUint::from_slice(&[9u32, 0, 3]);
    let n_before: BigUint = n.clone();
    let modulo_before: BigUint = modulo.clone();
    let first: Result<BigUint, FibError> = bigfib_with_mod(&n, &modulo);
    assert_eq!(n, n_before);
    assert_eq!(modulo, modulo_before);
    assert_eq!(bigfib_with_mod(&n, &modulo), first);
}
