use segment_store::common::{
    Distance, HardwareCounterCell, MultiVectorComparator, MultiVectorConfig, OperationError,
    StorageMedium, VectorStorageDatatype,
};
use segment_store::vector_storage::multi_dense::MultiDenseBacking;
use segment_store::vector_storage::sparse::SparseBacking;
use segment_store::vector_storage::traits::{MultiVectorStorage, SparseVectorStorage, VectorStorage};
use segment_store::vector_storage::storage_enum::VectorStorageEnum;
use segment_store::vector_storage::vectors::{MultiDenseVectorInternal, SparseVector, VectorInternal};

fn bits(values: &[f32]) -> Vec<u32> {
    values.iter().map(|v| v.to_bits()).collect()
}

fn sparse(indices: &[u32], values: &[f32]) -> VectorInternal {
    VectorInternal::Sparse(SparseVector { indices: indices.to_vec(), values: bits(values) })
}

fn multi(rows: &[&[f32]], dim: usize) -> VectorInternal {
    let mut flat = Vec::new();
    for row in rows {
        flat.extend(bits(row));
    }
    VectorInternal::MultiDense(MultiDenseVectorInternal { flattened_vectors: flat, dim })
}

const CONFIG: MultiVectorConfig = MultiVectorConfig { comparator: MultiVectorComparator::MaxSim };

fn multi_backing(medium: StorageMedium, capacity: usize) -> MultiDenseBacking<u32> {
    MultiDenseBacking::<u32>::new(medium, "multi".to_string(), 2, Distance::Dot, CONFIG, capacity, 4, false)
        .unwrap()
}

#[test]
fn sparse_insert_delete() {
    let mut storage = VectorStorageEnum::SparseVolatile(
        SparseBacking::new(StorageMedium::Volatile, String::new(), 8, 4, false).unwrap(),
    );
    let mut hw = HardwareCounterCell::new();
    storage.insert_vector(0, &sparse(&[1, 5, 9], &[0.1, 0.5, 0.9]), &mut hw).unwrap();
    storage.insert_vector(1, &sparse(&[2, 3], &[1.0, 2.0]), &mut hw).unwrap();
    assert_eq!(storage.delete_vector(0), Ok(true));
    match storage.get_vector(1) {
        VectorInternal::Sparse(vector) => {
            assert_eq!(vector.indices, vec![2, 3]);
            assert_eq!(vector.values, bits(&[1.0, 2.0]));
        }
        other => panic!("a sparse storage gave {:?}", other),
    }
    assert_eq!(storage.get_vector(0), sparse(&[1, 5, 9], &[0.1, 0.5, 0.9]));
    assert_eq!(storage.total_vector_count(), 2);
    assert_eq!(storage.deleted_vector_count(), 1);
    assert_eq!(storage.available_vector_count(), 1);
    assert_eq!(storage.datatype(), VectorStorageDatatype::Float32);
    assert_eq!(storage.distance(), Distance::Dot);
    assert_eq!(storage.default_vector(), VectorInternal::Sparse(SparseVector::empty()));
    assert_eq!(hw.vector_io_write, 6 * 4 + 4 * 4);
    // five pairs are kept, 40 bytes, of which the available half counts
    assert_eq!(storage.size_of_available_vectors_in_bytes(), 20);
}

#[test]
fn sparse_refuses_invalid_vectors() {
    let mut backing = SparseBacking::new(StorageMedium::Volatile, String::new(), 4, 4, false).unwrap();
    let mut hw = HardwareCounterCell::new();
    assert_eq!(
        backing.insert_vector(0, &sparse(&[5, 1], &[0.5, 0.1]), &mut hw),
        Err(OperationError::InvalidSparse)
    );
    assert_eq!(
        backing.insert_vector(0, &sparse(&[1, 1], &[0.5, 0.1]), &mut hw),
        Err(OperationError::InvalidSparse)
    );
    assert_eq!(
        backing.insert_vector(0, &sparse(&[1, 2], &[0.5]), &mut hw),
        Err(OperationError::InvalidSparse)
    );
    assert_eq!(
        backing.insert_vector(0, &VectorInternal::Dense(vec![1]), &mut hw),
        Err(OperationError::WrongVector)
    );
    // more entries than a chunk holds
    assert_eq!(
        backing.insert_vector(0, &sparse(&[1, 2, 3, 4, 5], &[0.0; 5]), &mut hw),
        Err(OperationError::OutOfRange)
    );
    assert_eq!(backing.total_vector_count(), 0);
    backing.insert_vector(2, &sparse(&[4], &[1.5]), &mut hw).unwrap();
    assert_eq!(backing.total_vector_count(), 3);
    assert_eq!(backing.get_sparse(2).unwrap().indices, vec![4]);
    assert_eq!(backing.get_sparse_sequential(2).unwrap().values, bits(&[1.5]));
    assert_eq!(backing.get_sparse(0).unwrap(), SparseVector::empty());
    assert_eq!(backing.get_sparse_opt(3), Ok(None));
    assert!(backing.get_sparse_opt(2).unwrap().is_some());
}

#[test]
fn sparse_reopen_keeps_vectors() {
    let mut backing =
        SparseBacking::new(StorageMedium::Memmap, "sparse".to_string(), 3, 2, false).unwrap();
    let mut hw = HardwareCounterCell::new();
    backing.insert_vector(0, &sparse(&[1, 5], &[0.1, 0.5]), &mut hw).unwrap();
    backing.insert_vector(1, &sparse(&[2, 3], &[1.0, 2.0]), &mut hw).unwrap();
    backing.insert_vector(2, &sparse(&[7], &[3.0]), &mut hw).unwrap();
    backing.delete_vector(1).unwrap();
    let storage = VectorStorageEnum::SparseMmap(backing);
    let files = storage.flusher().storage.unwrap();
    assert_eq!(
        storage.files(),
        vec![
            "sparse/blob/0000.bin",
            "sparse/blob/0001.bin",
            "sparse/index/0000.idx",
            "sparse/index/0001.idx",
            "sparse/layout.json",
            "sparse/deleted.bits",
            "sparse/meta.json",
        ]
    );
    let reopened =
        VectorStorageEnum::open("sparse".to_string(), &files, StorageMedium::Memmap, false)
            .unwrap();
    assert!(matches!(reopened, VectorStorageEnum::SparseMmap(_)));
    assert_eq!(reopened.total_vector_count(), 3);
    assert_eq!(reopened.deleted_vector_count(), 1);
    for key in 0..3u32 {
        assert_eq!(reopened.get_vector(key), storage.get_vector(key));
        assert_eq!(reopened.is_deleted_vector(key), storage.is_deleted_vector(key));
    }
    assert!(matches!(
        VectorStorageEnum::open(
            "sparse".to_string(),
            &files,
            StorageMedium::AppendableInRam,
            false
        ),
        Err(OperationError::FormatMismatch)
    ));
}

#[test]
fn multi_dense_insert_counts() {
    let mut backing = multi_backing(StorageMedium::Volatile, 4);
    let mut hw = HardwareCounterCell::new();
    backing.insert_vector(0, &multi(&[&[1.0, 2.0], &[3.0, 4.0]], 2), &mut hw).unwrap();
    backing.insert_vector(1, &multi(&[&[5.0, 6.0]], 2), &mut hw).unwrap();
    let first = backing.get_multi(0);
    assert_eq!(first.flattened_vectors.len() / first.dim, 2);
    assert_eq!(first.flattened_vectors, &bits(&[1.0, 2.0, 3.0, 4.0])[..]);
    let second = backing.get_multi(1);
    assert_eq!(second.flattened_vectors.len() / second.dim, 1);
    assert_eq!(second.flattened_vectors, &bits(&[5.0, 6.0])[..]);
    assert!(backing.get_multi_opt(2).is_none());
    assert!(backing.get_multi_opt_sequential(1).is_some());
    assert_eq!(MultiVectorStorage::vector_dim(&backing), 2);
    assert_eq!(*backing.multi_vector_config(), CONFIG);
    let inner = backing.iterate_inner_vectors();
    assert_eq!(inner.len(), 3);
    assert_eq!(inner[1], &bits(&[3.0, 4.0])[..]);
    assert_eq!(inner[2], &bits(&[5.0, 6.0])[..]);
    let batch = backing.get_batch_multi(&[1, 0]);
    assert_eq!(batch.len(), 2);
    assert_eq!(batch[0].flattened_vectors, backing.get_multi(1).flattened_vectors);
    assert_eq!(batch[1].flattened_vectors, backing.get_multi(0).flattened_vectors);
    assert_eq!(hw.vector_io_write, 16 + 8);

    let storage = VectorStorageEnum::MultiDenseVolatile(backing);
    assert_eq!(storage.get_vector(0), multi(&[&[1.0, 2.0], &[3.0, 4.0]], 2));
    assert_eq!(storage.try_multi_vector_config(), Some(&CONFIG));
    assert_eq!(storage.default_vector(), multi(&[&[1.0, 1.0]], 2));
    // three inner vectors of eight bytes, all multi-vectors available
    assert_eq!(storage.size_of_available_vectors_in_bytes(), 24);
}

#[test]
fn multi_dense_reinsert_orphans_the_old_run() {
    let mut backing = multi_backing(StorageMedium::Volatile, 2);
    let mut hw = HardwareCounterCell::new();
    backing.insert_vector(0, &multi(&[&[1.0, 2.0]], 2), &mut hw).unwrap();
    // does not fit into what is left of the first chunk: the run opens a new one
    backing.insert_vector(1, &multi(&[&[3.0, 4.0], &[5.0, 6.0]], 2), &mut hw).unwrap();
    backing.insert_vector(0, &multi(&[&[7.0, 8.0]], 2), &mut hw).unwrap();
    assert_eq!(backing.get_multi(0).flattened_vectors, &bits(&[7.0, 8.0])[..]);
    assert_eq!(backing.get_multi(1).flattened_vectors, &bits(&[3.0, 4.0, 5.0, 6.0])[..]);
    assert_eq!(backing.total_vector_count(), 2);
    backing.delete_vector(1).unwrap();
    // five inner vectors are kept, one blank and one out of reach among
    // them: 40 bytes, of which the available half counts
    assert_eq!(MultiVectorStorage::size_of_available_vectors_in_bytes(&backing), 20);
}

#[test]
fn multi_dense_refuses_wrong_vectors() {
    let mut backing = multi_backing(StorageMedium::Volatile, 2);
    let mut hw = HardwareCounterCell::new();
    assert_eq!(
        backing.insert_vector(0, &multi(&[], 2), &mut hw),
        Err(OperationError::WrongVector)
    );
    assert_eq!(
        backing.insert_vector(0, &multi(&[&[1.0, 2.0, 3.0]], 3), &mut hw),
        Err(OperationError::DimensionMismatch { expected: 2, received: 3 })
    );
    assert_eq!(
        backing.insert_vector(
            0,
            &VectorInternal::MultiDense(MultiDenseVectorInternal {
                flattened_vectors: bits(&[1.0, 2.0, 3.0]),
                dim: 2
            }),
            &mut hw
        ),
        Err(OperationError::WrongVector)
    );
    // more inner vectors than a chunk holds
    assert_eq!(
        backing.insert_vector(0, &multi(&[&[1.0, 2.0], &[1.0, 2.0], &[1.0, 2.0]], 2), &mut hw),
        Err(OperationError::WrongVector)
    );
    assert_eq!(backing.total_vector_count(), 0);
}

#[test]
fn multi_dense_reopen_keeps_vectors() {
    let mut backing = multi_backing(StorageMedium::AppendableInRam, 3);
    let mut hw = HardwareCounterCell::new();
    backing.insert_vector(0, &multi(&[&[1.0, 2.0], &[3.0, 4.0]], 2), &mut hw).unwrap();
    backing.insert_vector(2, &multi(&[&[5.0, 6.0]], 2), &mut hw).unwrap();
    backing.delete_vector(0).unwrap();
    let storage = VectorStorageEnum::MultiDenseAppendableInRam(backing);
    let files = storage.flusher().storage.unwrap();
    assert_eq!(files.meta.multi_vector_config, Some(CONFIG));
    assert_eq!(files.meta.dim, Some(2));
    let reopened = VectorStorageEnum::open(
        "multi".to_string(),
        &files,
        StorageMedium::AppendableInRam,
        true,
    )
    .unwrap();
    assert!(matches!(reopened, VectorStorageEnum::MultiDenseAppendableInRam(_)));
    assert_eq!(reopened.total_vector_count(), 3);
    assert_eq!(reopened.deleted_vector_count(), 1);
    for key in 0..3u32 {
        assert_eq!(reopened.get_vector(key), storage.get_vector(key));
    }
    assert_eq!(reopened.try_multi_vector_config(), Some(&CONFIG));
    assert!(matches!(
        VectorStorageEnum::open("multi".to_string(), &files, StorageMedium::Memmap, false),
        Err(OperationError::FormatMismatch)
    ));
}
