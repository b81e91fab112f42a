use r1cs_circuits::field::{add_mod, mul_mod, from_u32};

const M: u64 = 1_000_000_007;

#[test]
fn add_mod_reduces() {
    assert_eq!(add_mod(7, 6, 5), 4);
    assert_eq!(add_mod(7, 0, 0), 0);
    assert_eq!(add_mod(M, M - 1, 1), 0);
    assert_eq!(add_mod(M, M - 1, M - 1), M - 2);
}

#[test]
fn mul_mod_reduces() {
    assert_eq!(mul_mod(7, 6, 5), 2);
    assert_eq!(mul_mod(7, 1, 6), 6);
    assert_eq!(mul_mod(M, M - 1, M - 1), 1);
    assert_eq!(mul_mod(u64::MAX, u64::MAX - 1, u64::MAX - 1), 1);
}

#[test]
fn from_u32_canonicalizes() {
    assert_eq!(from_u32(7, 10), 3);
    assert_eq!(from_u32(7, 5), 5);
    assert_eq!(from_u32(2, 5), 1);
    assert_eq!(from_u32(M, 5), 5);
}
