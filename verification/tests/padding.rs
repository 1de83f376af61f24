use stark_circuits::trace::pad_to_pow2;

#[test]
fn test_pad_to_pow2_minimum_height() {
    // Two rows of width 3 are padded up to the floor of 4 rows.
    let data = vec![1u32, 2, 3, 4, 5, 6];
    let (trace, height) = pad_to_pow2(data, 3);
    assert_eq!(height, 4);
    assert_eq!(trace.width, 3);
    assert_eq!(trace.values.len(), 12);
    assert_eq!(&trace.values[..6], &[1, 2, 3, 4, 5, 6]);
    assert_eq!(&trace.values[6..], &[0, 0, 0, 0, 0, 0]);
}

#[test]
fn test_pad_to_pow2_next_power() {
    // Five rows of width 2 are padded up to 8 rows.
    let data = vec![9u32; 10];
    let (trace, height) = pad_to_pow2(data, 2);
    assert_eq!(height, 8);
    assert_eq!(trace.values.len(), 16);
    for k in 0..10 {
        assert_eq!(trace.values[k], 9);
    }
    for k in 10..16 {
        assert_eq!(trace.values[k], 0);
    }
}

#[test]
fn test_pad_to_pow2_exact_power_unchanged() {
    // Four rows of width 1 already sit on a power-of-two boundary: no
    // padding row is added.
    let data = vec![1u32, 2, 3, 4];
    let (trace, height) = pad_to_pow2(data, 1);
    assert_eq!(height, 4);
    assert_eq!(trace.values, vec![1, 2, 3, 4]);
}

#[test]
fn test_pad_to_pow2_empty() {
    // An empty input still yields the minimum 4 rows, all zero.
    let data: Vec<u32> = vec![];
    let (trace, height) = pad_to_pow2(data, 7);
    assert_eq!(height, 4);
    assert_eq!(trace.values, vec![0u32; 28]);
}

#[test]
fn test_trace_accessors() {
    let data = vec![10u32, 20, 30, 40];
    let (trace, _height) = pad_to_pow2(data, 2);
    assert_eq!(trace.num_rows(), 4);
    assert_eq!(trace.get(0, 0), 10);
    assert_eq!(trace.get(0, 1), 20);
    assert_eq!(trace.get(1, 0), 30);
    assert_eq!(trace.get(1, 1), 40);
    assert_eq!(trace.get(2, 0), 0);
    assert_eq!(trace.get(3, 1), 0);
}
