use buddhabrot::image::normalize_image;
use buddhabrot::image::ImageError;

#[test]
fn normalize_rejects_an_all_zero_histogram() {
    let data: Vec<u64> = vec![0, 0, 0, 0];
    assert_eq!(normalize_image(&data), Err(ImageError::ZeroMaximum));
}

#[test]
fn normalize_maps_the_maximal_cell_to_full_scale() {
    let data: Vec<u64> = vec![5, 10];
    let out = normalize_image(&data).unwrap();
    // 5 * 65535 / 10 == 32767 == 0x7fff, big-endian, three channels each.
    let expected: Vec<u8> = vec![
        0x7f, 0xff, 0x7f, 0xff, 0x7f, 0xff, // first cell
        0xff, 0xff, 0xff, 0xff, 0xff, 0xff, // maximal cell
    ];
    assert_eq!(out, expected);
}

#[test]
fn normalize_single_cell_is_full_scale() {
    let data: Vec<u64> = vec![123456789];
    let out = normalize_image(&data).unwrap();
    assert_eq!(out, vec![0xff; 6]);
}

#[test]
fn normalize_scales_linearly() {
    let data: Vec<u64> = vec![0, 1, 2, 4];
    let out = normalize_image(&data).unwrap();
    assert_eq!(out.len(), 24);
    let sample = |k: usize| -> u32 { ((out[6 * k] as u32) << 8) | out[6 * k + 1] as u32 };
    assert_eq!(sample(0), 0);
    assert_eq!(sample(1), 65535 / 4);
    assert_eq!(sample(2), 65535 * 2 / 4);
    assert_eq!(sample(3), 65535);
}
