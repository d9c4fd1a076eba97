use chroma::vis::{compress_row, decompress_row, decompress_vis};

#[test]
fn literal_then_zero_run_stops_at_leaf_count() {
    let data = vec![0x0Fu8, 0x00, 0x03];
    // Four leafs fit in one row byte: the literal covers them all.
    let row = decompress_vis(&data, Some(0), 4);
    assert_eq!(row, vec![0x0F]);
    let visible: u32 = row.iter().map(|b| b.count_ones()).sum();
    assert_eq!(visible, 4);
}

#[test]
fn zero_run_skips_three_groups_of_eight() {
    let data = vec![0x0Fu8, 0x00, 0x03];
    let row = decompress_vis(&data, Some(0), 32);
    assert_eq!(row, vec![0x0F, 0, 0, 0]);
}

#[test]
fn zero_run_is_cut_at_the_row_end() {
    let data = vec![0x00u8, 0xFF];
    let row = decompress_row(&data, 0, 3);
    assert_eq!(row, vec![0, 0, 0]);
}

#[test]
fn no_visibility_data_sees_everything() {
    let row = decompress_vis(&[], None, 10);
    assert_eq!(row, vec![0xFF, 0xFF]);
}

#[test]
fn truncated_data_leaves_the_rest_invisible() {
    let row = decompress_row(&[0x81u8], 0, 3);
    assert_eq!(row, vec![0x81, 0, 0]);
    let row = decompress_row(&[0x05u8, 0x00], 0, 3);
    assert_eq!(row, vec![0x05, 0, 0]);
}

#[test]
fn zero_count_byte_emits_nothing() {
    let row = decompress_row(&[0x00u8, 0x00, 0x07], 0, 1);
    assert_eq!(row, vec![0x07]);
}

#[test]
fn decoding_starts_at_the_offset() {
    let data = vec![0x11u8, 0x22, 0x00, 0x01, 0x33];
    assert_eq!(decompress_row(&data, 1, 3), vec![0x22, 0x00, 0x33]);
}

#[test]
fn compress_canonical_form() {
    assert_eq!(compress_row(&[0x0F, 0, 0, 0]), vec![0x0F, 0x00, 0x03]);
    assert_eq!(compress_row(&[]), Vec::<u8>::new());
    assert_eq!(compress_row(&[1, 2, 3]), vec![1, 2, 3]);
    assert_eq!(compress_row(&[0, 5, 0, 0]), vec![0, 1, 5, 0, 2]);
}

#[test]
fn compress_splits_long_zero_runs() {
    let row = vec![0u8; 300];
    assert_eq!(compress_row(&row), vec![0, 255, 0, 45]);
}

#[test]
fn round_trip_is_byte_identical() {
    let rows: Vec<Vec<u8>> = vec![
        vec![0x0F, 0, 0, 0],
        vec![0; 600],
        vec![1, 0, 2, 0, 0, 3, 0xFF],
        vec![0, 0, 0, 0, 0, 9],
        vec![],
    ];
    for row in rows {
        let blob = compress_row(&row);
        let back = decompress_row(&blob, 0, row.len());
        assert_eq!(back, row);
        assert_eq!(compress_row(&back), blob);
    }
}
