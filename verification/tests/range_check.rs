use stark_circuits::range_check::{generate_range_check_trace, RangeCheckAir};
use stark_circuits::range_check_strict;

#[test]
fn test_range_check_success() {
    // Boundary value 2^31 - 1 must pass in both variants.
    let val: u32 = (1u32 << 31) - 1;
    let (trace, height) = generate_range_check_trace(&[val]);
    let air = RangeCheckAir { num_rows: height };
    assert!(
        air.check_trace(&trace),
        "range check should pass for max valid value {}",
        val
    );
    let (strace, _sheight) = range_check_strict::generate_range_check_trace(val);
    let sair = range_check_strict::RangeCheckAir { value: val };
    assert!(
        sair.check_trace(&strace),
        "strict range check should pass for max valid value {}",
        val
    );
}

#[test]
fn test_range_check_small_values() {
    let vals = [0u32, 1, 100, 1024];
    for val in vals {
        let (trace, height) = generate_range_check_trace(&[val]);
        let air = RangeCheckAir { num_rows: height };
        assert!(
            air.check_trace(&trace),
            "range check should pass for value {}",
            val
        );
        let (strace, _h) = range_check_strict::generate_range_check_trace(val);
        let sair = range_check_strict::RangeCheckAir { value: val };
        assert!(
            sair.check_trace(&strace),
            "strict range check should pass for value {}",
            val
        );
    }
}

#[test]
fn test_range_check_fail() {
    // 2^31 lies outside [0, 2^31) and must fail in both variants.
    let val: u32 = 1u32 << 31;
    let (trace, height) = generate_range_check_trace(&[val]);
    let air = RangeCheckAir { num_rows: height };
    assert!(
        !air.check_trace(&trace),
        "range check should fail for out-of-bounds value {} (2^31)",
        val
    );
    let (strace, _h) = range_check_strict::generate_range_check_trace(val);
    let sair = range_check_strict::RangeCheckAir { value: val };
    assert!(
        !sair.check_trace(&strace),
        "strict range check should fail for out-of-bounds value {} (2^31)",
        val
    );
}

#[test]
fn test_range_check_batch() {
    // A batch of three values pads to 4 rows; every real row is checked.
    let vals = [7u32, 0x7fff_fffe, 42];
    let (trace, height) = generate_range_check_trace(&vals);
    assert_eq!(height, 4);
    let air = RangeCheckAir { num_rows: height };
    assert!(air.check_trace(&trace));
}

#[test]
fn test_range_check_batch_bad_value_checked() {
    // An out-of-range value in a checked row fails the whole batch.
    let vals = [7u32, 1u32 << 31, 42];
    let (trace, height) = generate_range_check_trace(&vals);
    let air = RangeCheckAir { num_rows: height };
    assert!(!air.check_trace(&trace));
}

#[test]
fn test_range_check_batch_last_row_unchecked() {
    // With exactly 4 values no padding row exists, and the constraint is
    // only evaluated on transition rows: an out-of-range value in the very
    // last row escapes the check.
    let vals = [7u32, 8, 42, 1u32 << 31];
    let (trace, height) = generate_range_check_trace(&vals);
    assert_eq!(height, 4);
    let air = RangeCheckAir { num_rows: height };
    assert!(air.check_trace(&trace));
}

#[test]
fn test_range_check_empty() {
    // An empty batch produces the minimum-size all-zero padded trace,
    // which verifies.
    let vals: Vec<u32> = vec![];
    let (trace, height) = generate_range_check_trace(&vals);
    assert_eq!(height, 4);
    assert_eq!(trace.width, 32);
    assert_eq!(trace.values.len(), 4 * 32);
    for v in &trace.values {
        assert_eq!(*v, 0);
    }
    let air = RangeCheckAir { num_rows: height };
    assert!(air.check_trace(&trace));
}

#[test]
fn test_range_check_bit_layout() {
    // The row holds the value then its 31 bits, little-endian.
    let val: u32 = 0b1011;
    let (trace, _height) = generate_range_check_trace(&[val]);
    assert_eq!(trace.get(0, 0), val);
    assert_eq!(trace.get(0, 1), 1);
    assert_eq!(trace.get(0, 2), 1);
    assert_eq!(trace.get(0, 3), 0);
    assert_eq!(trace.get(0, 4), 1);
    for c in 5..32 {
        assert_eq!(trace.get(0, c), 0);
    }
}

#[test]
fn test_range_check_deterministic() {
    let vals = [3u32, 0x1234_5678];
    let (t1, _h1) = generate_range_check_trace(&vals);
    let (t2, _h2) = generate_range_check_trace(&vals);
    assert_eq!(t1.values, t2.values);
    let (s1, _x) = range_check_strict::generate_range_check_trace(0xdead_beef);
    let (s2, _y) = range_check_strict::generate_range_check_trace(0xdead_beef);
    assert_eq!(s1.values, s2.values);
}

#[test]
fn test_range_check_strict_bit_layout() {
    // The strict variant stores the 32 bits most significant first, and
    // pads with zero rows to the minimum height of 4.
    let val: u32 = 0x8000_0001;
    let (trace, height) = range_check_strict::generate_range_check_trace(val);
    assert_eq!(height, 4);
    assert_eq!(trace.width, 32);
    assert_eq!(trace.get(0, 0), 1);
    assert_eq!(trace.get(0, 31), 1);
    for c in 1..31 {
        assert_eq!(trace.get(0, c), 0);
    }
    for r in 1..4 {
        for c in 0..32 {
            assert_eq!(trace.get(r, c), 0);
        }
    }
}

#[test]
fn test_range_check_strict_tampered_row_fails() {
    // Forcing a nonzero entry into a padding row breaks the row-sum
    // constraint of the strict variant.
    let val: u32 = 12345;
    let (mut trace, _height) = range_check_strict::generate_range_check_trace(val);
    trace.values[32 + 5] = 1;
    let air = range_check_strict::RangeCheckAir { value: val };
    assert!(!air.check_trace(&trace));
}
