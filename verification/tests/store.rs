use sn_inference::ann::AnnIndex;
use sn_inference::device_info::{metal_device_info_from, MetalDeviceInfo, MetalDeviceInfoRaw};
use sn_inference::error::Error;

fn raw(name: &[u8]) -> MetalDeviceInfoRaw {
    let mut architecture = [0u8; 256];
    architecture[..name.len()].copy_from_slice(name);
    MetalDeviceInfoRaw { architecture, max_buffer_length: 1 << 30, max_recommended_working_set_size: 1 << 33, memory_size: 1 << 34 }
}

#[test]
fn insert_checks_dimension_then_duplicates() {
    let mut index = AnnIndex::new(3, 2, 8, 8);
    assert_eq!(index.insert_node(10, 2), Err(Error::AnnInvalidEmbedding { id: 10, expected_dim: 3, actual_dim: 2 }));
    assert_eq!(index.len(), 0);
    assert_eq!(index.insert_node(10, 3), Ok(0));
    assert_eq!(index.insert_node(10, 3), Err(Error::AnnDuplicateInsertId(10)));
    assert_eq!(index.insert_node(11, 3), Ok(1));
    assert_eq!(index.len(), 2);
    assert_eq!(index.position_of(11), Some(1));
    assert_eq!(index.position_of(12), None);
    assert_eq!(index.entry(), Some(0));
}

#[test]
fn first_node_becomes_the_entry() {
    let mut index = AnnIndex::new(1, 2, 4, 4);
    assert_eq!(index.entry(), None);
    index.insert_node(7, 1).unwrap();
    assert_eq!(index.entry(), Some(0));
    assert_eq!(index.id_at(0), 7);
}

#[test]
fn linking_is_both_ways_and_reports_full_lists() {
    let mut index = AnnIndex::new(1, 2, 4, 4);
    for id in 0..4 {
        index.insert_node(id, 1).unwrap();
    }
    assert_eq!(index.link(1, &vec![0]), Vec::<usize>::new());
    assert_eq!(index.link(2, &vec![0, 1]), Vec::<usize>::new());
    assert_eq!(index.neighbors_of(0), &vec![1, 2]);
    // Node 0 already holds two neighbours: a third makes its list too long.
    // Only the first `m` candidates are linked.
    assert_eq!(index.link(3, &vec![0, 2, 1]), vec![0, 2]);
    assert_eq!(index.neighbors_of(3), &vec![0, 2]);
    assert_eq!(index.neighbors_of(0), &vec![1, 2, 3]);
    assert_eq!(index.neighbors_of(2), &vec![0, 1, 3]);
    assert_eq!(index.neighbors_of(1), &vec![0, 2]);
}

#[test]
fn pruning_keeps_the_best_ranked() {
    let mut index = AnnIndex::new(1, 2, 4, 4);
    for id in 0..4 {
        index.insert_node(id, 1).unwrap();
    }
    index.link(1, &vec![0]);
    index.link(2, &vec![0]);
    index.link(3, &vec![0]);
    assert_eq!(index.neighbors_of(0), &vec![1, 2, 3]);
    index.keep_best_neighbors(0, vec![3, 1, 2]);
    assert_eq!(index.neighbors_of(0), &vec![3, 1]);
}

#[test]
fn lookups_skip_unknown_ids() {
    let mut index = AnnIndex::new(2, 4, 4, 4);
    index.insert_node(5, 2).unwrap();
    index.insert_node(9, 2).unwrap();
    assert_eq!(index.positions_of(&[9, 1, 5, 9]), vec![1, 0, 1]);
    assert_eq!(index.ids_at(&vec![1, 0]), vec![9, 5]);
}

#[test]
fn device_name_ends_at_nul() {
    let info = MetalDeviceInfo::try_from(raw(b"applegpu_g15s")).unwrap();
    assert_eq!(info.architecture, "applegpu_g15s");
    assert_eq!(info.max_buffer_length, 1 << 30);
    assert_eq!(info.memory_size, 1 << 34);
    let full = MetalDeviceInfoRaw { architecture: [b'a'; 256], max_buffer_length: 0, max_recommended_working_set_size: 0, memory_size: 0 };
    assert_eq!(MetalDeviceInfo::try_from(full).unwrap().architecture.len(), 256);
}

#[test]
fn device_name_must_be_utf8() {
    assert!(matches!(MetalDeviceInfo::try_from(raw(&[0x61, 0xff])), Err(Error::Utf8Error(_))));
    match metal_device_info_from(raw(&[0xc3])) {
        Err(Error::MlxFunctionLoadFailure(msg)) => assert!(msg.starts_with("UTF-8 decoding error: ")),
        other => panic!("unexpected {:?}", other),
    }
    assert_eq!(metal_device_info_from(raw("é".as_bytes())).unwrap().architecture, "é");
}
