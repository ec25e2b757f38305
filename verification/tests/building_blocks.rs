use segment_store::bytes::{decode_all, encode_into, push_word, read_word, to_halves, to_wholes};
use segment_store::common::{saturating_bytes, HardwareCounterCell, VectorStorageDatatype};
use segment_store::paths::join;
use segment_store::ragged::Ragged;
use segment_store::sorted::{contains_sorted, insert_sorted, lower_bound, remove_sorted, sorted_set};
use segment_store::text::{chars_of, from_codes, string_of, to_codes};
use segment_store::vector_storage::chunked::{
    default_capacity, ArrayFiles, ChunkedVectors, DEFAULT_CHUNK_BYTES,
};
use segment_store::vector_storage::element::{from_raw_vec, one_of, ones, to_raw_vec};
use segment_store::vector_storage::files::{chunk_file_name, file_names, StorageKind};
use segment_store::vector_storage::run_store::RunStore;
use segment_store::vector_storage::vectors::SparseVector;

#[test]
fn numbers_as_little_endian_bytes() {
    let mut out = vec![0xaa];
    push_word(&mut out, 0x0403_0201, 4);
    push_word(&mut out, 0x0403_0201, 2);
    push_word(&mut out, 0x0403_0201, 1);
    assert_eq!(out, vec![0xaa, 1, 2, 3, 4, 1, 2, 1]);
    assert_eq!(read_word(&out, 1, 4), 0x0403_0201);
    assert_eq!(read_word(&out, 5, 2), 0x0201);
    assert_eq!(read_word(&out, 7, 1), 1);
    let mut bytes = Vec::new();
    encode_into(&mut bytes, &[1.5f32.to_bits(), 7], 4);
    assert_eq!(&bytes[0..4], &1.5f32.to_le_bytes());
    assert_eq!(&bytes[4..8], &[7, 0, 0, 0]);
    assert_eq!(decode_all(&bytes, 4), Some(vec![1.5f32.to_bits(), 7]));
    assert_eq!(decode_all(&bytes[..7], 4), None);
    assert_eq!(decode_all(&[0x00, 0x3c, 0xff, 0xff], 2), Some(vec![0x3c00, 0xffff]));
    assert_eq!(decode_all(&[], 4), Some(vec![]));
    let wide = vec![0x1122_3344_5566_7788u64, 5];
    assert_eq!(to_halves(&wide), vec![0x5566_7788, 0x1122_3344, 5, 0]);
    assert_eq!(to_wholes(&to_halves(&wide)), wide);
}

#[test]
fn counters_saturate() {
    assert_eq!(saturating_bytes(3, 4), 12);
    assert_eq!(saturating_bytes(usize::MAX, 4), u64::MAX);
    let mut hw = HardwareCounterCell::new();
    hw.incr_vector_io_read(5);
    hw.incr_vector_io_write(u64::MAX);
    hw.incr_vector_io_write(1);
    hw.incr_payload_index_io_write(2);
    hw.incr_payload_index_io_write(3);
    assert_eq!(hw.vector_io_read, 5);
    assert_eq!(hw.vector_io_write, u64::MAX);
    assert_eq!(hw.payload_index_io_write, 5);
    assert_eq!(VectorStorageDatatype::Float32.size(), 4);
    assert_eq!(VectorStorageDatatype::Float16.size(), 2);
    assert_eq!(VectorStorageDatatype::Uint8.size(), 1);
}

#[test]
fn elements_and_raw_numbers() {
    assert_eq!(one_of(VectorStorageDatatype::Float32), 1.0f32.to_bits());
    assert_eq!(one_of(VectorStorageDatatype::Float16), 0x3c00);
    assert_eq!(one_of(VectorStorageDatatype::Uint8), 1);
    assert_eq!(ones(VectorStorageDatatype::Uint8, 3), vec![1, 1, 1]);
    assert_eq!(from_raw_vec::<u8>(&[0, 255]), Some(vec![0u8, 255]));
    assert_eq!(from_raw_vec::<u8>(&[0, 256]), None);
    assert_eq!(from_raw_vec::<u16>(&[65535]), Some(vec![65535u16]));
    assert_eq!(from_raw_vec::<u16>(&[65536]), None);
    assert_eq!(from_raw_vec::<u32>(&[u32::MAX]), Some(vec![u32::MAX]));
    assert_eq!(to_raw_vec::<u16>(&[7, 9]), vec![7, 9]);
}

#[test]
fn sorted_lists() {
    let mut list = Vec::new();
    assert!(insert_sorted(&mut list, 5));
    assert!(insert_sorted(&mut list, 1));
    assert!(insert_sorted(&mut list, 9));
    assert!(!insert_sorted(&mut list, 5));
    assert_eq!(list, vec![1, 5, 9]);
    assert_eq!(lower_bound(&list, 0), 0);
    assert_eq!(lower_bound(&list, 5), 1);
    assert_eq!(lower_bound(&list, 6), 2);
    assert_eq!(lower_bound(&list, 10), 3);
    assert!(contains_sorted(&list, 9));
    assert!(!contains_sorted(&list, 2));
    assert!(remove_sorted(&mut list, 5));
    assert!(!remove_sorted(&mut list, 5));
    assert_eq!(list, vec![1, 9]);
    assert_eq!(sorted_set(&vec![3, 1, 3, 2, 1]), vec![1, 2, 3]);
    assert_eq!(sorted_set(&vec![]), Vec::<u32>::new());
}

#[test]
fn sparse_pairs() {
    let vector = SparseVector { indices: vec![1, 5], values: vec![10, 50] };
    assert!(vector.is_valid());
    assert_eq!(vector.to_pairs(), vec![1, 10, 5, 50]);
    assert_eq!(SparseVector::from_pairs(&[1, 10, 5, 50]), vector);
    assert_eq!(SparseVector::from_pairs(&[1, 10, 5]).indices, vec![1]);
    assert!(SparseVector::empty().is_valid());
    assert!(!SparseVector { indices: vec![2, 2], values: vec![0, 0] }.is_valid());
    assert!(!SparseVector { indices: vec![3, 2], values: vec![0, 0] }.is_valid());
    assert!(!SparseVector { indices: vec![1], values: vec![] }.is_valid());
}

#[test]
fn rows_of_varying_length() {
    let mut rows = Ragged::new();
    assert_eq!(rows.rows(), 0);
    rows.push_row(&[1, 2, 3]);
    rows.push_row(&[]);
    rows.push_row(&[4]);
    assert_eq!(rows.rows(), 3);
    assert_eq!(rows.total(), 4);
    assert_eq!(rows.row(0), &[1, 2, 3]);
    assert_eq!(rows.row(1), &[] as &[u32]);
    assert_eq!(rows.row(2), &[4]);
    assert_eq!(rows.start_of(2), 3);
    assert_eq!(rows.start_of(3), 4);
    assert_eq!(rows.data(), &vec![1, 2, 3, 4]);
    assert_eq!(rows.offsets(), &vec![0, 3, 3, 4]);
    let same = Ragged::from_parts(vec![1, 2, 3, 4], vec![0, 3, 3, 4]).unwrap();
    assert_eq!(same.row(2), &[4]);
    assert!(Ragged::from_parts(vec![1, 2], vec![0, 3]).is_none());
    assert!(Ragged::from_parts(vec![1, 2], vec![1, 2]).is_none());
    assert!(Ragged::from_parts(vec![1, 2], vec![0, 2, 1, 2]).is_none());
    assert!(Ragged::from_parts(vec![], vec![]).is_none());
    assert!(Ragged::from_parts(vec![], vec![0]).is_some());
}

#[test]
fn characters_and_their_numbers() {
    assert_eq!(chars_of("aß€"), vec!['a', 'ß', '€']);
    assert_eq!(string_of(&['a', 'ß', '€']), "aß€");
    assert_eq!(to_codes("aß€"), vec![0x61, 0xdf, 0x20ac]);
    assert_eq!(from_codes(&[0x61, 0xdf, 0x20ac]), Some("aß€".to_string()));
    assert_eq!(from_codes(&[0x61, 0xd800]), None);
    assert_eq!(from_codes(&[0x11_0000]), None);
    assert_eq!(from_codes(&[]), Some(String::new()));
}

#[test]
fn names_of_files() {
    assert_eq!(join("a/b", "c.d"), "a/b/c.d");
    assert_eq!(chunk_file_name("chunks/", 0, ".vec"), "chunks/0000.vec");
    assert_eq!(chunk_file_name("chunks/", 42, ".vec"), "chunks/0042.vec");
    assert_eq!(chunk_file_name("chunks/", 9999, ".vec"), "chunks/9999.vec");
    assert_eq!(chunk_file_name("blob/", 12345, ".bin"), "blob/12345.bin");
    assert_eq!(
        file_names("dir", StorageKind::MultiDense, 1, 2),
        vec![
            "dir/chunks/0000.vec",
            "dir/offsets/0000.off",
            "dir/offsets/0001.off",
            "dir/layout.json",
            "dir/deleted.bits",
            "dir/meta.json",
        ]
    );
    assert_eq!(file_names("dir", StorageKind::Dense, 0, 0).len(), 3);
}

#[test]
fn chunked_array_fills_chunks_and_keeps_runs_whole() {
    let mut array = ChunkedVectors::<u16>::new(2, 3);
    assert_eq!(array.len(), 0);
    assert_eq!(array.push_run(&[1, 2], 1), Ok(0));
    assert_eq!(array.push_run(&[3, 4], 1), Ok(1));
    // two records do not fit into what is left of the chunk
    assert_eq!(array.push_run(&[5, 6, 7, 8], 2), Ok(3));
    assert_eq!(array.len(), 5);
    assert_eq!(array.get(1), &[3, 4]);
    assert_eq!(array.get(2), &[0, 0]);
    assert_eq!(array.get_run(3, 2), &[5, 6, 7, 8]);
    array.set_record(0, &[9, 9]);
    assert_eq!(array.get_run(0, 3), &[9, 9, 3, 4, 0, 0]);
    array.grow_to(8);
    assert_eq!(array.len(), 8);
    assert_eq!(array.get(7), &[0, 0]);
    assert_eq!((array.dim(), array.capacity()), (2, 3));
    let files = array.to_files();
    assert_eq!((files.dim, files.capacity, files.len), (2, 3, 8));
    assert_eq!(files.chunks.len(), 3);
    assert_eq!(files.chunks[0], vec![9, 0, 9, 0, 3, 0, 4, 0, 0, 0, 0, 0]);
    assert_eq!(files.chunks[2].len(), 8);
    let read = ChunkedVectors::<u16>::from_files(&files).unwrap();
    assert_eq!(read.len(), 8);
    for key in 0..8 {
        assert_eq!(read.get(key), array.get(key));
    }
    let mut missing = files.clone();
    missing.chunks.pop();
    assert!(ChunkedVectors::<u16>::from_files(&missing).is_none());
    let none = ArrayFiles { dim: 0, capacity: 3, len: 0, chunks: Vec::new() };
    assert!(ChunkedVectors::<u16>::from_files(&none).is_none());
}

#[test]
fn default_chunks_hold_thirty_two_mebibytes() {
    assert_eq!(DEFAULT_CHUNK_BYTES, 32 * 1024 * 1024);
    assert_eq!(default_capacity(128, 4), 65_536);
    assert_eq!(default_capacity(3, 4), 2_796_202);
    assert_eq!(default_capacity(usize::MAX, 4), 1);
    assert_eq!(default_capacity(16 * 1024 * 1024, 4), 1);
    assert_eq!(default_capacity(0, 4), 1);
}

#[test]
fn run_store_points_entries_at_runs() {
    let mut store = RunStore::<u8>::new(1, 2, 2).unwrap();
    assert!(RunStore::<u8>::new(0, 2, 2).is_err());
    assert!(store.check_room(2));
    store.insert(3, &[7, 8], 2);
    store.insert(0, &[9], 1);
    store.insert(1, &[], 0);
    assert_eq!(store.len(), 4);
    assert_eq!(store.stored(), 3);
    assert_eq!(store.get(3), &[7, 8]);
    assert_eq!(store.get(0), &[9]);
    assert_eq!(store.get(1), &[] as &[u8]);
    assert_eq!(store.get(2), &[] as &[u8]);
    // the second chunk has one place left: a run of two opens a third
    store.insert(2, &[5, 6], 2);
    assert_eq!(store.stored(), 6);
    assert_eq!(store.get(2), &[5, 6]);
    assert_eq!(store.chunk_counts(), (3, 2));
    assert_eq!((store.dim(), store.capacity()), (1, 2));
    let (elements, table) = store.to_files();
    let read = RunStore::<u8>::from_files(&elements, &table).unwrap();
    for key in 0..4 {
        assert_eq!(read.get(key), store.get(key));
    }
    let mut broken = table.clone();
    // an entry that points past the end of the element array
    broken.chunks[0][0] = 200;
    assert!(RunStore::<u8>::from_files(&elements, &broken).is_none());
}
