use std::sync::atomic::AtomicBool;

use segment_store::common::{
    Distance, HardwareCounterCell, OperationError, StorageMedium, VectorStorageDatatype,
};
use segment_store::vector_storage::dense::DenseBacking;
use segment_store::vector_storage::traits::{DenseVectorStorage, VectorStorage};
use segment_store::vector_storage::storage_enum::VectorStorageEnum;
use segment_store::vector_storage::vectors::{SparseVector, VectorInternal};

fn bits(values: &[f32]) -> Vec<u32> {
    values.iter().map(|v| v.to_bits()).collect()
}

fn dense(values: &[f32]) -> VectorInternal {
    VectorInternal::Dense(bits(values))
}

fn volatile(dim: usize, capacity: usize) -> VectorStorageEnum {
    VectorStorageEnum::DenseVolatile(
        DenseBacking::<u32>::new(
            StorageMedium::Volatile,
            String::new(),
            dim,
            Distance::Cosine,
            capacity,
            false,
        )
        .unwrap(),
    )
}

fn appendable(path: &str, dim: usize, capacity: usize) -> VectorStorageEnum {
    VectorStorageEnum::DenseAppendableMemmap(
        DenseBacking::<u32>::new(
            StorageMedium::AppendableMemmap,
            path.to_string(),
            dim,
            Distance::Dot,
            capacity,
            false,
        )
        .unwrap(),
    )
}

#[test]
fn dense_insert_delete_reopen() {
    let mut storage = appendable("segment/vectors", 3, 2);
    let mut hw = HardwareCounterCell::new();
    storage.insert_vector(0, &dense(&[1.0, 2.0, 3.0]), &mut hw).unwrap();
    storage.insert_vector(1, &dense(&[4.0, 5.0, 6.0]), &mut hw).unwrap();
    storage.insert_vector(2, &dense(&[7.0, 8.0, 9.0]), &mut hw).unwrap();
    assert_eq!(storage.delete_vector(1), Ok(true));

    let flusher = storage.flusher();
    assert!(flusher.files.is_empty());
    let files = flusher.storage.unwrap();
    assert_eq!(files.meta.total, 3);
    assert_eq!(files.meta.deleted, 1);
    assert_eq!(files.data.chunks.len(), 2);
    assert_eq!(files.data.chunks[0].len(), 24);
    assert_eq!(files.data.chunks[1].len(), 12);
    assert_eq!(&files.data.chunks[1][0..4], &7.0f32.to_le_bytes());
    assert_eq!(files.deleted_bits, vec![0b0000_0010u8]);

    let reopened = VectorStorageEnum::open(
        "segment/vectors".to_string(),
        &files,
        StorageMedium::AppendableMemmap,
        false,
    )
    .unwrap();
    assert!(matches!(reopened, VectorStorageEnum::DenseAppendableMemmap(_)));
    assert_eq!(reopened.total_vector_count(), 3);
    assert_eq!(reopened.deleted_vector_count(), 1);
    assert_eq!(reopened.available_vector_count(), 2);
    assert_eq!(reopened.get_vector(0), dense(&[1.0, 2.0, 3.0]));
    assert_eq!(reopened.get_vector(2), dense(&[7.0, 8.0, 9.0]));
    assert!(reopened.is_deleted_vector(1));
    assert!(!reopened.is_deleted_vector(0));
    assert_eq!(reopened.distance(), Distance::Dot);
    assert_eq!(reopened.datatype(), VectorStorageDatatype::Float32);
}

#[test]
fn dense_total_is_high_water_and_last_write_wins() {
    let mut storage = volatile(2, 2);
    let mut hw = HardwareCounterCell::new();
    assert_eq!(storage.total_vector_count(), 0);
    storage.insert_vector(4, &dense(&[1.0, 1.5]), &mut hw).unwrap();
    assert_eq!(storage.total_vector_count(), 5);
    storage.insert_vector(1, &dense(&[2.0, 2.5]), &mut hw).unwrap();
    assert_eq!(storage.total_vector_count(), 5);
    storage.insert_vector(4, &dense(&[3.0, 3.5]), &mut hw).unwrap();
    assert_eq!(storage.total_vector_count(), 5);
    assert_eq!(storage.get_vector(4), dense(&[3.0, 3.5]));
    assert_eq!(storage.get_vector(1), dense(&[2.0, 2.5]));
    // offsets that were never written hold blank vectors
    assert_eq!(storage.get_vector(0), VectorInternal::Dense(vec![0, 0]));
    assert_eq!(storage.get_vector(3), VectorInternal::Dense(vec![0, 0]));
    assert_eq!(storage.get_vector_sequential(4), dense(&[3.0, 3.5]));
    assert_eq!(storage.get_vector_opt(4), Some(dense(&[3.0, 3.5])));
    assert_eq!(storage.get_vector_opt(5), None);
    assert_eq!(storage.deleted_vector_count(), 0);
    assert_eq!(hw.vector_io_write, 24);
    assert_eq!(hw.vector_io_read, 0);
}

#[test]
fn dense_delete_is_idempotent() {
    let mut storage = volatile(1, 4);
    let mut hw = HardwareCounterCell::new();
    storage.insert_vector(0, &dense(&[1.0]), &mut hw).unwrap();
    storage.insert_vector(1, &dense(&[2.0]), &mut hw).unwrap();
    assert!(!storage.is_deleted_vector(1));
    assert_eq!(storage.delete_vector(1), Ok(true));
    assert!(storage.is_deleted_vector(1));
    assert_eq!(storage.delete_vector(1), Ok(false));
    assert!(storage.is_deleted_vector(1));
    assert_eq!(storage.deleted_vector_count(), 1);
    // the data stays where it is
    assert_eq!(storage.get_vector(1), dense(&[2.0]));
    // an offset that is not in use has nothing to delete
    assert_eq!(storage.delete_vector(7), Ok(false));
    assert!(!storage.is_deleted_vector(7));
    assert_eq!(storage.deleted_vector_count(), 1);
}

#[test]
fn dense_available_is_total_minus_deleted() {
    let mut storage = volatile(1, 2);
    let mut hw = HardwareCounterCell::new();
    for key in 0..5u32 {
        storage.insert_vector(key, &dense(&[key as f32]), &mut hw).unwrap();
    }
    storage.delete_vector(0).unwrap();
    storage.delete_vector(3).unwrap();
    assert_eq!(storage.total_vector_count(), 5);
    assert_eq!(storage.deleted_vector_count(), 2);
    assert_eq!(storage.available_vector_count(), 3);
    assert_eq!(storage.size_of_available_vectors_in_bytes(), 3 * 1 * 4);
    let bitmap = storage.deleted_vector_bitslice();
    assert!(bitmap.is_set(0));
    assert!(!bitmap.is_set(1));
    assert!(bitmap.is_set(3));
    assert!(!bitmap.is_set(100));
    assert_eq!(bitmap.count(), 2);
}

#[test]
fn dense_refuses_wrong_vectors_without_change() {
    let mut storage = volatile(3, 2);
    let mut hw = HardwareCounterCell::new();
    assert_eq!(
        storage.insert_vector(0, &dense(&[1.0, 2.0]), &mut hw),
        Err(OperationError::DimensionMismatch { expected: 3, received: 2 })
    );
    assert_eq!(
        storage.insert_vector(0, &VectorInternal::Sparse(SparseVector::empty()), &mut hw),
        Err(OperationError::WrongVector)
    );
    assert_eq!(
        storage.insert_vector(u32::MAX, &dense(&[1.0, 2.0, 3.0]), &mut hw),
        Err(OperationError::OutOfRange)
    );
    assert_eq!(storage.total_vector_count(), 0);
    assert_eq!(hw.vector_io_write, 0);
}

#[test]
fn byte_and_half_storages_keep_their_precision() {
    let mut bytes = VectorStorageEnum::DenseVolatileByte(
        DenseBacking::<u8>::new(
            StorageMedium::Volatile,
            String::new(),
            2,
            Distance::Euclid,
            4,
            false,
        )
        .unwrap(),
    );
    let mut hw = HardwareCounterCell::new();
    bytes.insert_vector(0, &VectorInternal::Dense(vec![7, 255]), &mut hw).unwrap();
    assert_eq!(
        bytes.insert_vector(1, &VectorInternal::Dense(vec![7, 256]), &mut hw),
        Err(OperationError::WrongVector)
    );
    assert_eq!(bytes.get_vector(0), VectorInternal::Dense(vec![7, 255]));
    assert_eq!(bytes.datatype(), VectorStorageDatatype::Uint8);
    assert_eq!(bytes.default_vector(), VectorInternal::Dense(vec![1, 1]));
    assert_eq!(hw.vector_io_write, 2);
    assert_eq!(bytes.size_of_available_vectors_in_bytes(), 2);

    let half = VectorStorageEnum::DenseVolatileHalf(
        DenseBacking::<u16>::new(
            StorageMedium::Volatile,
            String::new(),
            3,
            Distance::Manhattan,
            4,
            false,
        )
        .unwrap(),
    );
    assert_eq!(half.datatype(), VectorStorageDatatype::Float16);
    assert_eq!(half.default_vector(), VectorInternal::Dense(vec![0x3c00, 0x3c00, 0x3c00]));
    assert_eq!(half.distance(), Distance::Manhattan);

    let single = volatile(2, 2);
    assert_eq!(single.default_vector(), dense(&[1.0, 1.0]));
    assert!(single.try_multi_vector_config().is_none());
}

#[test]
fn dense_batch_equals_single_reads() {
    let mut backing = DenseBacking::<u32>::new(
        StorageMedium::Volatile,
        String::new(),
        2,
        Distance::Cosine,
        3,
        false,
    )
    .unwrap();
    let mut hw = HardwareCounterCell::new();
    for key in 0..10u32 {
        backing
            .insert_vector(key, &dense(&[key as f32, key as f32 + 0.5]), &mut hw)
            .unwrap();
    }
    let keys = [9u32, 0, 4, 4, 7];
    let batch = backing.get_dense_batch(&keys);
    assert_eq!(batch.len(), keys.len());
    for (slice, key) in batch.iter().zip(keys.iter()) {
        assert_eq!(*slice, backing.get_dense(*key));
        assert_eq!(*slice, backing.get_dense_sequential(*key));
    }
    assert_eq!(backing.get_dense(4), &bits(&[4.0, 4.5])[..]);
    assert_eq!(backing.vector_dim(), 2);
    // a batch holds at most 128 vectors
    let many: Vec<u32> = (0..200u32).map(|i| i % 10).collect();
    assert_eq!(backing.get_dense_batch(&many).len(), 128);
}

#[test]
fn update_from_appends_in_order() {
    let mut storage = volatile(1, 2);
    let mut hw = HardwareCounterCell::new();
    storage.insert_vector(0, &dense(&[9.0]), &mut hw).unwrap();
    let items = vec![(dense(&[1.0]), false), (dense(&[2.0]), true), (dense(&[3.0]), false)];
    let stopped = AtomicBool::new(false);
    assert_eq!(storage.update_from(&items, &stopped), Ok(1..4));
    assert_eq!(storage.total_vector_count(), 4);
    assert_eq!(storage.get_vector(1), dense(&[1.0]));
    assert_eq!(storage.get_vector(3), dense(&[3.0]));
    assert!(storage.is_deleted_vector(2));
    assert!(!storage.is_deleted_vector(1));
    assert_eq!(storage.deleted_vector_count(), 1);
}

#[test]
fn update_from_cancel() {
    let mut storage = volatile(1, 4);
    let mut hw = HardwareCounterCell::new();
    storage.insert_vector(0, &dense(&[0.5]), &mut hw).unwrap();
    let items: Vec<(VectorInternal, bool)> =
        (0..10).map(|i| (dense(&[i as f32]), false)).collect();
    let start = storage.total_vector_count() as u32;
    // the stop flag is raised once four vectors were handed over
    let mut outcome = Ok(start..start);
    for (yielded, (vector, deleted)) in items.iter().enumerate() {
        let stopped = yielded >= 4;
        match storage.update_record(start, vector, *deleted, stopped) {
            Ok(offset) => outcome = Ok(start..offset + 1),
            Err(error) => {
                outcome = Err(error);
                break;
            }
        }
    }
    assert_eq!(outcome, Err(OperationError::Cancelled { start, end: start + 4 }));
    assert_eq!(storage.total_vector_count(), start as usize + 4);
    assert_eq!(storage.get_vector(start + 3), dense(&[3.0]));
    // a flag that is set before the first record lets nothing in
    let stopped = AtomicBool::new(true);
    assert_eq!(
        storage.update_from(&items, &stopped),
        Err(OperationError::Cancelled { start: start + 4, end: start + 4 })
    );
    assert_eq!(storage.total_vector_count(), start as usize + 4);
    // the next update goes on from the new high-water mark
    let stopped = AtomicBool::new(false);
    assert_eq!(storage.update_from(&items, &stopped), Ok(start + 4..start + 14));
    assert_eq!(storage.total_vector_count(), start as usize + 14);
}

#[test]
fn update_from_stops_at_a_refused_vector() {
    let mut storage = volatile(1, 4);
    let items = vec![(dense(&[1.0]), false), (dense(&[1.0, 2.0]), false), (dense(&[3.0]), false)];
    let stopped = AtomicBool::new(false);
    assert_eq!(
        storage.update_from(&items, &stopped),
        Err(OperationError::DimensionMismatch { expected: 1, received: 2 })
    );
    assert_eq!(storage.total_vector_count(), 1);
}

#[test]
fn storage_files_and_cache_advice() {
    let mut storage = appendable("seg", 1, 2);
    let mut hw = HardwareCounterCell::new();
    for key in 0..3u32 {
        storage.insert_vector(key, &dense(&[1.0]), &mut hw).unwrap();
    }
    let expected = vec![
        "seg/chunks/0000.vec".to_string(),
        "seg/chunks/0001.vec".to_string(),
        "seg/layout.json".to_string(),
        "seg/deleted.bits".to_string(),
        "seg/meta.json".to_string(),
    ];
    assert_eq!(storage.files(), expected);
    assert!(storage.immutable_files().is_empty());
    assert!(storage.versioned_files().is_empty());
    assert!(storage.is_on_disk());
    let request = storage.populate().unwrap();
    assert_eq!(request.files, expected);
    let request = storage.clear_cache().unwrap();
    assert_eq!(request.files, expected);

    let memory = volatile(1, 2);
    assert!(memory.files().is_empty());
    assert!(!memory.is_on_disk());
    assert!(memory.populate().unwrap().files.is_empty());
    assert!(memory.clear_cache().unwrap().files.is_empty());
    assert!(memory.flusher().storage.is_none());

    let in_ram = VectorStorageEnum::DenseAppendableInRam(
        DenseBacking::<u32>::new(
            StorageMedium::AppendableInRam,
            "ram".to_string(),
            1,
            Distance::Dot,
            2,
            false,
        )
        .unwrap(),
    );
    assert_eq!(in_ram.files().len(), 3);
    assert!(!in_ram.is_on_disk());
    assert!(in_ram.populate().unwrap().files.is_empty());
    assert!(in_ram.flusher().storage.is_some());
}

#[test]
fn open_refuses_files_that_do_not_fit() {
    let mut storage = appendable("seg", 2, 2);
    let mut hw = HardwareCounterCell::new();
    storage.insert_vector(0, &dense(&[1.0, 2.0]), &mut hw).unwrap();
    let files = storage.flusher().storage.unwrap();

    let mut wrong_version = files.clone();
    wrong_version.meta.format_version = 2;
    assert!(matches!(
        VectorStorageEnum::open("seg".to_string(), &wrong_version, StorageMedium::Memmap, false),
        Err(OperationError::FormatMismatch)
    ));
    let mut short_chunk = files.clone();
    short_chunk.data.chunks[0].pop();
    assert!(matches!(
        VectorStorageEnum::open("seg".to_string(), &short_chunk, StorageMedium::Memmap, false),
        Err(OperationError::FormatMismatch)
    ));
    // a flag for an offset that holds no vector is left behind
    let mut stray_flag = files.clone();
    stray_flag.deleted_bits = vec![0b0000_0101];
    let tolerant =
        VectorStorageEnum::open("seg".to_string(), &stray_flag, StorageMedium::Memmap, false)
            .unwrap();
    assert_eq!(tolerant.total_vector_count(), 1);
    assert_eq!(tolerant.deleted_vector_count(), 1);
    assert!(tolerant.is_deleted_vector(0));
    assert!(!tolerant.is_deleted_vector(2));
    assert_eq!(tolerant.available_vector_count(), 0);
    let reopened =
        VectorStorageEnum::open("seg".to_string(), &files, StorageMedium::Memmap, true).unwrap();
    assert!(matches!(reopened, VectorStorageEnum::DenseMemmap(_)));
    assert!(!reopened.is_on_disk());
}
