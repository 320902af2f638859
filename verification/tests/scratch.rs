use gguf_quant::scratch::{max_scratch_bytes_for_k, pad, MATRIX_ROW_PADDING};

#[test]
fn pad_rounds_up_to_the_next_multiple() {
    assert_eq!(pad(0, 512), 0);
    assert_eq!(pad(1, 512), 512);
    assert_eq!(pad(511, 512), 512);
    assert_eq!(pad(512, 512), 512);
    assert_eq!(pad(513, 512), 1024);
    assert_eq!(pad(7, 3), 9);
    assert_eq!(pad(usize::MAX, 1), usize::MAX);
}

#[test]
fn max_scratch_bytes_follow_the_formula() {
    assert_eq!(max_scratch_bytes_for_k(0), 576);
    assert_eq!(max_scratch_bytes_for_k(4096), 5184);
    assert_eq!(max_scratch_bytes_for_k(4097), 5184);
    assert_eq!(max_scratch_bytes_for_k(5120), 6336);
}

#[test]
fn max_scratch_bytes_cover_every_shorter_row() {
    let max = max_scratch_bytes_for_k(3000);
    for k in 0..=3000 {
        assert!(pad(k, MATRIX_ROW_PADDING) / 32 * 36 <= max);
    }
}
