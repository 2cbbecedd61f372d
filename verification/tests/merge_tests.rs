use buddhabrot::archive::write_bundle_archive;
use buddhabrot::codec::BundleError;
use buddhabrot::merge::gather_data;

fn bundle(max_iters: u32, width: u32, height: u32, payload: Vec<u32>) -> Vec<u8> {
    write_bundle_archive(max_iters, width, height, &payload).unwrap()
}

#[test]
fn merge_single_identity() {
    let archives = vec![bundle(40, 2, 2, vec![1, 2, 3, 4])];
    let (width, height, max_iters, data) = gather_data(&archives).unwrap();
    assert_eq!((width, height, max_iters), (2, 2, 40));
    assert_eq!(data, vec![1u64, 2, 3, 4]);
}

#[test]
fn merge_pair_sums_cells() {
    let archives = vec![
        bundle(100, 2, 2, vec![1, 2, 3, 4]),
        bundle(100, 2, 2, vec![10, 20, 30, 40]),
    ];
    let (width, height, _, data) = gather_data(&archives).unwrap();
    assert_eq!((width, height), (2, 2));
    assert_eq!(data, vec![11u64, 22, 33, 44]);
}

#[test]
fn merge_takes_iterations_from_last_input() {
    let archives = vec![
        bundle(100, 1, 1, vec![5]),
        bundle(900, 1, 1, vec![6]),
    ];
    let (_, _, max_iters, data) = gather_data(&archives).unwrap();
    assert_eq!(max_iters, 900);
    assert_eq!(data, vec![11u64]);
}

#[test]
fn merge_widens_past_the_narrow_range() {
    let archives = vec![
        bundle(1, 1, 1, vec![u32::MAX]),
        bundle(1, 1, 1, vec![u32::MAX]),
        bundle(1, 1, 1, vec![2]),
    ];
    let (_, _, _, data) = gather_data(&archives).unwrap();
    assert_eq!(data, vec![2 * (u32::MAX as u64) + 2]);
}

#[test]
fn merge_rejects_differing_width() {
    let archives = vec![
        bundle(5, 2, 2, vec![1, 2, 3, 4]),
        bundle(5, 4, 1, vec![1, 2, 3, 4]),
    ];
    assert_eq!(gather_data(&archives), Err(BundleError::GeometryMismatch));
}

#[test]
fn merge_rejects_differing_height() {
    let archives = vec![
        bundle(5, 2, 2, vec![1, 2, 3, 4]),
        bundle(5, 2, 3, vec![1, 2, 3, 4, 5, 6]),
    ];
    assert_eq!(gather_data(&archives), Err(BundleError::GeometryMismatch));
}

#[test]
fn merge_propagates_decode_failure() {
    let archives = vec![bundle(5, 1, 1, vec![1]), vec![0, 1, 2, 3]];
    assert_eq!(gather_data(&archives), Err(BundleError::ArchiveRead));
}
