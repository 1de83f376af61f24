use stark_circuits::tx_validate::{generate_tx_validate_trace_with_inv, TxValidateAir};

#[test]
fn test_tx_validate_simple() {
    // A single transaction pads to 4 rows; the zero padding rows fall on
    // checked transition rows and cannot satisfy amount * inv = 1, so a
    // single-transaction trace fails as generated.
    let txs = [[1u32, 2, 10, 0]];
    let (trace, height) = generate_tx_validate_trace_with_inv(&txs);
    assert_eq!(height, 4);
    let air = TxValidateAir { num_rows: height };
    assert!(!air.check_trace(&trace));
}

#[test]
fn test_tx_validate_multiple() {
    // Three transactions with nonzero amounts: rows 0..3 are checked,
    // the single padding row is last and unchecked, so the batch verifies.
    let txs = [[0u32, 1, 5, 0], [1, 2, 3, 1], [2, 0, 1, 2]];
    let (trace, height) = generate_tx_validate_trace_with_inv(&txs);
    assert_eq!(height, 4);
    let air = TxValidateAir { num_rows: height };
    assert!(air.check_trace(&trace));
}

#[test]
fn test_tx_validate_zero() {
    // A zero amount has no inverse: the product constraint fails.
    let txs = [[0u32, 1, 0, 0], [1, 2, 3, 1], [2, 0, 1, 2]];
    let (trace, height) = generate_tx_validate_trace_with_inv(&txs);
    let air = TxValidateAir { num_rows: height };
    assert!(!air.check_trace(&trace));
}

#[test]
fn test_tx_validate_inverse_column() {
    // The generated inverse of 2 modulo 2^31 - 1 is 2^30: a genuine field
    // inversion, not the amount handed back.
    let txs = [[9u32, 8, 2, 7], [1, 2, 3, 1], [2, 0, 1, 2]];
    let (trace, _height) = generate_tx_validate_trace_with_inv(&txs);
    assert_eq!(trace.get(0, 0), 9);
    assert_eq!(trace.get(0, 1), 8);
    assert_eq!(trace.get(0, 2), 2);
    assert_eq!(trace.get(0, 3), 7);
    assert_eq!(trace.get(0, 4), 1u32 << 30);
    // inverse of 3 is (2 * P + 1) / 3 = 1431655765 with P = 2^31 - 1
    assert_eq!(trace.get(1, 4), 1431655765);
    assert_eq!(3u64 * 1431655765 % 0x7fff_ffff, 1);
    // inverse of 1 is 1
    assert_eq!(trace.get(2, 4), 1);
}

#[test]
fn test_tx_validate_wrong_inverse_fails() {
    // Tampering with the inverse column of a checked row must fail
    // verification: the supplied inverse no longer multiplies to one.
    let txs = [[0u32, 1, 5, 0], [1, 2, 3, 1], [2, 0, 1, 2]];
    let (mut trace, height) = generate_tx_validate_trace_with_inv(&txs);
    trace.values[5 * 1 + 4] = 123;
    let air = TxValidateAir { num_rows: height };
    assert!(!air.check_trace(&trace));
}

#[test]
fn test_tx_validate_zero_amount_any_inverse_fails() {
    // A zero-amount row rejects every claimed inverse: 0 * x is never 1.
    let txs = [[3u32, 1, 0, 0], [1, 2, 3, 1], [2, 0, 1, 2]];
    let (mut trace, height) = generate_tx_validate_trace_with_inv(&txs);
    let air = TxValidateAir { num_rows: height };
    for claimed in [0u32, 1, 2, 0x7fff_fffe] {
        trace.values[4] = claimed;
        assert!(!air.check_trace(&trace));
    }
}

#[test]
fn test_tx_validate_amount_equal_to_prime_is_zero() {
    // An amount equal to the Mersenne prime reduces to field zero, so its
    // inverse column is zero and the row fails the product constraint.
    let txs = [[1u32, 2, 0x7fff_ffff, 0], [1, 2, 3, 1], [2, 0, 1, 2]];
    let (trace, height) = generate_tx_validate_trace_with_inv(&txs);
    assert_eq!(trace.get(0, 2), 0);
    assert_eq!(trace.get(0, 4), 0);
    let air = TxValidateAir { num_rows: height };
    assert!(!air.check_trace(&trace));
}

#[test]
fn test_tx_validate_deterministic() {
    let txs = [[0u32, 1, 5, 0], [1, 2, 3, 1], [2, 0, 1, 2], [4, 4, 9, 9]];
    let (t1, h1) = generate_tx_validate_trace_with_inv(&txs);
    let (t2, h2) = generate_tx_validate_trace_with_inv(&txs);
    assert_eq!(h1, h2);
    assert_eq!(t1.values, t2.values);
}
