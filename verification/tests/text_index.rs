use segment_store::bitmap::DeletionBitmap;
use segment_store::common::{HardwareCounterCell, OperationError};
use segment_store::full_text_index::immutable_inverted_index::ImmutableInvertedIndex;
use segment_store::full_text_index::mutable_inverted_index::{Document, MutableInvertedIndex, TokenSet};
use segment_store::full_text_index::mmap_inverted_index::{IndexFiles, MmapInvertedIndex};
use segment_store::full_text_index::mmap_text_index::{FullTextIndex, FullTextMmapIndexBuilder, MmapFullTextIndex};
use segment_store::paths::CacheAdvice;
use segment_store::full_text_index::tokenizer::{TextIndexParams, Tokenizer, TokenizerType};
use serde_json::Value;

fn params(kind: TokenizerType, phrase_matching: bool) -> TextIndexParams {
    TextIndexParams {
        tokenizer: kind,
        min_token_len: None,
        max_token_len: None,
        lowercase: Some(true),
        phrase_matching: Some(phrase_matching),
        stopwords: Vec::new(),
        on_disk: None,
    }
}

fn tokens(config: &TextIndexParams, text: &str) -> Vec<String> {
    let mut out = Vec::new();
    Tokenizer::new(config).tokenize_doc(text, &mut out);
    out
}

fn content(index: &FullTextIndex) -> &ImmutableInvertedIndex {
    match index {
        FullTextIndex::Mmap(index) => index.inverted_index().content(),
        FullTextIndex::Immutable(index) => &index.inverted_index,
    }
}

fn postings(index: &FullTextIndex, token: &str) -> Vec<u32> {
    let content = content(index);
    let id = content.get_token_id(token).unwrap();
    content.postings(id).to_vec()
}

#[test]
fn text_index_without_phrases() {
    let mut config = params(TokenizerType::Word, false);
    config.min_token_len = Some(3);
    let mut builder = FullTextMmapIndexBuilder::new("idx".to_string(), config.clone(), true);
    let mut hw = HardwareCounterCell::new();
    assert_eq!(builder.init(), Ok(()));
    builder.add_many(0, vec!["the quick brown fox".to_string()], &mut hw).unwrap();
    builder.add_many(1, vec!["quick brown dog".to_string()], &mut hw).unwrap();
    let (index, files) = builder.finalize().unwrap();
    assert!(matches!(index, FullTextIndex::Mmap(_)));
    let content = content(&index);
    assert_eq!(content.vocab_len(), 5);
    let vocab: Vec<String> = (0..5).map(|id| content.token(id)).collect();
    assert_eq!(vocab, vec!["the", "quick", "brown", "fox", "dog"]);
    assert_eq!(postings(&index, "quick"), vec![0, 1]);
    assert_eq!(postings(&index, "fox"), vec![0]);
    assert_eq!(postings(&index, "dog"), vec![1]);
    assert_eq!(postings(&index, "the"), vec![0]);
    assert_eq!(content.get_token_id("cat"), None);
    assert!(!content.has_positions());
    assert_eq!(content.points_count(), 2);
    assert_eq!(files.meta.version, 1);
    assert_eq!(files.meta.num_tokens, 5);
    assert_eq!(files.meta.num_points, 2);
    assert!(!files.meta.has_positions);
    assert!(files.positions_dat.is_none());
    assert_eq!(&files.vocab_dat[0..8], b"FTXTVOCB");
    assert_eq!(&files.postings_dat[0..8], b"FTXTPOST");
    // four bytes for each of four and three tokens
    assert_eq!(hw.payload_index_io_write, 16 + 12);
}

#[test]
fn text_index_drops_short_tokens() {
    let mut config = params(TokenizerType::Word, false);
    config.min_token_len = Some(4);
    assert_eq!(tokens(&config, "the quick brown fox"), vec!["quick", "brown"]);
    config.max_token_len = Some(4);
    assert_eq!(tokens(&config, "the quick brown fox jump"), vec!["jump"]);
}

#[test]
fn text_index_with_phrases() {
    let config = params(TokenizerType::Word, true);
    let mut builder = FullTextMmapIndexBuilder::new("idx".to_string(), config, false);
    let mut hw = HardwareCounterCell::new();
    builder.add_many(0, vec!["a b a c".to_string()], &mut hw).unwrap();
    let (index, files) = builder.finalize().unwrap();
    assert!(matches!(index, FullTextIndex::Immutable(_)));
    let content = content(&index);
    assert!(content.has_positions());
    let a = content.get_token_id("a").unwrap();
    let b = content.get_token_id("b").unwrap();
    let c = content.get_token_id("c").unwrap();
    assert_eq!((a, b, c), (0, 1, 2));
    assert_eq!(content.postings(a), &[0]);
    assert_eq!(content.positions(a, 0), vec![0, 2]);
    assert_eq!(content.positions(b, 0), vec![1]);
    assert_eq!(content.positions(c, 0), vec![3]);
    assert!(files.meta.has_positions);
    assert_eq!(&files.positions_dat.as_ref().unwrap()[0..8], b"FTXTPOSN");
    // four tokens of the text, and three of the token set
    assert_eq!(hw.payload_index_io_write, 16 + 12);
    match &index {
        FullTextIndex::Immutable(index) => {
            assert!(!index.storage.is_on_disk());
            assert!(index.storage.load());
            assert_eq!(index.storage.inverted_index().content().positions(a, 0), vec![0, 2]);
        }
        FullTextIndex::Mmap(_) => panic!("an index held in memory was asked for"),
    }
}

#[test]
fn text_index_reads_back_from_its_files() {
    let config = params(TokenizerType::Whitespace, true);
    let mut builder = FullTextMmapIndexBuilder::new("dir".to_string(), config.clone(), true);
    let mut hw = HardwareCounterCell::new();
    builder.add_many(3, vec!["Grüße, Welt".to_string(), "welt again".to_string()], &mut hw).unwrap();
    builder.add_many(7, vec!["again".to_string()], &mut hw).unwrap();
    let (_, files) = builder.finalize().unwrap();

    let mut index = MmapFullTextIndex::open("dir".to_string(), &files, config.clone(), true).unwrap();
    assert!(index.load());
    assert!(index.is_on_disk());
    assert_eq!(index.path(), "dir");
    let content = index.inverted_index().content();
    assert_eq!(content.vocab_len(), 3);
    assert_eq!(content.token(0), "grüße,");
    assert_eq!(content.token(1), "welt");
    assert_eq!(content.token(2), "again");
    assert_eq!(content.postings(1), &[3]);
    assert_eq!(content.postings(2), &[3, 7]);
    assert_eq!(content.positions(1, 0), vec![1, 2]);
    assert_eq!(content.positions(2, 1), vec![0]);
    let names = vec![
        "dir/vocab.dat",
        "dir/vocab.idx",
        "dir/postings.dat",
        "dir/postings.idx",
        "dir/positions.dat",
        "dir/positions.idx",
        "dir/meta.json",
        "dir/deleted.bits",
    ];
    assert_eq!(index.files(), names);
    assert_eq!(index.immutable_files(), &names[..7]);
    let request = index.populate().unwrap();
    assert_eq!(request.advice, CacheAdvice::Populate);
    assert_eq!(request.files, names);
    let request = index.clear_cache().unwrap();
    assert_eq!(request.advice, CacheAdvice::Clear);
    assert_eq!(request.files, names);

    assert!(!index.is_removed(7));
    index.remove_point(7);
    assert!(index.is_removed(7));
    assert!(!index.is_removed(3));
    // the postings stay as they are
    assert_eq!(index.inverted_index().content().postings(2), &[3, 7]);
    let flusher = index.flusher();
    assert_eq!(flusher.files.len(), 1);
    assert_eq!(flusher.files[0].path, "dir/deleted.bits");
    assert_eq!(flusher.files[0].bytes, vec![0b1000_0000u8]);
    assert!(flusher.storage.is_none());

    let mut flushed = files.clone();
    flushed.deleted_bits = flusher.files[0].bytes.clone();
    let reopened = MmapFullTextIndex::open("dir".to_string(), &flushed, config, false).unwrap();
    assert!(reopened.is_removed(7));
    assert!(!reopened.is_on_disk());

    let plan = index.wipe().unwrap();
    assert_eq!(plan.files, names);
    assert_eq!(plan.directory, "dir");
}

#[test]
fn open_refuses_other_versions_and_tolerates_broken_data() {
    let config = params(TokenizerType::Word, false);
    let mut builder = FullTextMmapIndexBuilder::new("dir".to_string(), config.clone(), true);
    let mut hw = HardwareCounterCell::new();
    builder.add_many(0, vec!["one two".to_string()], &mut hw).unwrap();
    let (_, files) = builder.finalize().unwrap();

    let mut other_version: IndexFiles = files.clone();
    other_version.meta.version = 2;
    assert!(matches!(
        MmapFullTextIndex::open("dir".to_string(), &other_version, config.clone(), true),
        Err(OperationError::FormatMismatch)
    ));
    assert!(matches!(
        MmapFullTextIndex::open(
            "dir".to_string(),
            &files,
            params(TokenizerType::Word, true),
            true
        ),
        Err(OperationError::FormatMismatch)
    ));
    let mut bad_tag = files.clone();
    bad_tag.vocab_dat[0] = b'X';
    let index = MmapFullTextIndex::open("dir".to_string(), &bad_tag, config.clone(), true).unwrap();
    assert!(!index.load());
    assert_eq!(index.inverted_index().content().vocab_len(), 0);
    let mut cut = files.clone();
    cut.postings_idx.pop();
    let index = MmapInvertedIndex::open("dir".to_string(), &cut, false, false).unwrap();
    assert!(!index.load());
    let mut miscounted = files.clone();
    miscounted.meta.num_tokens = 3;
    let index = MmapInvertedIndex::open("dir".to_string(), &miscounted, false, false).unwrap();
    assert!(!index.load());
    let index = MmapInvertedIndex::open("dir".to_string(), &files, false, false).unwrap();
    assert!(index.load());
}

#[test]
fn token_ids_are_stable() {
    let mut index = MutableInvertedIndex::new(false);
    let first = index.register_tokens(&vec!["b".to_string(), "a".to_string(), "b".to_string()]);
    assert_eq!(first, vec![0, 1, 0]);
    let second = index.register_tokens(&vec!["c".to_string(), "a".to_string()]);
    assert_eq!(second, vec![2, 1]);
    let again = index.register_tokens(&vec!["b".to_string(), "a".to_string()]);
    assert_eq!(again, vec![0, 1]);
    assert_eq!(index.vocab_len(), 3);
    assert_eq!(index.get_token_id("c"), Some(2));
    assert_eq!(index.get_token_id("d"), None);
    assert_eq!(index.token(1), "a");
}

#[test]
fn mutable_index_keeps_postings_and_token_sets_together() {
    let mut index = MutableInvertedIndex::new(true);
    let mut hw = HardwareCounterCell::new();
    let ids = index.register_tokens(&vec!["x".to_string(), "y".to_string(), "x".to_string()]);
    index.index_document(5, Document::new(ids.clone()), &mut hw).unwrap();
    index.index_tokens(5, TokenSet::from_tokens(&ids), &mut hw).unwrap();
    let ids = index.register_tokens(&vec!["y".to_string(), "z".to_string()]);
    index.index_document(2, Document::new(ids.clone()), &mut hw).unwrap();
    index.index_tokens(2, TokenSet::from_tokens(&ids), &mut hw).unwrap();
    assert_eq!(index.posting(0), &vec![5]);
    assert_eq!(index.posting(1), &vec![2, 5]);
    assert_eq!(index.posting(2), &vec![2]);
    assert_eq!(index.token_set(5), Some(&vec![0, 1]));
    assert_eq!(index.document(5), Some(&vec![0, 1, 0]));
    assert_eq!(index.positions(5, 0), vec![0, 2]);
    assert_eq!(index.positions(5, 1), vec![1]);
    assert_eq!(index.positions(5, 2), Vec::<u32>::new());
    assert_eq!(index.positions(4, 0), Vec::<u32>::new());
    assert_eq!(index.points_count(), 2);
    assert_eq!(index.points_len(), 6);
    assert_eq!(hw.payload_index_io_write, 12 + 8 + 8 + 8);

    assert!(index.remove(5));
    assert!(!index.remove(5));
    assert!(!index.remove(100));
    assert_eq!(index.posting(0), &Vec::<u32>::new());
    assert_eq!(index.posting(1), &vec![2]);
    assert_eq!(index.token_set(5), None);
    assert_eq!(index.document(5), None);
    assert_eq!(index.points_count(), 1);
    // the vocabulary stays as it is
    assert_eq!(index.vocab_len(), 3);
    assert_eq!(index.get_token_id("x"), Some(0));

    assert_eq!(
        index.index_tokens(1, TokenSet::from_tokens(&vec![9]), &mut hw),
        Err(OperationError::BuildFailure)
    );
    assert_eq!(
        index.index_tokens(u32::MAX, TokenSet::from_tokens(&vec![0]), &mut hw),
        Err(OperationError::OutOfRange)
    );
    assert_eq!(
        index.index_document(1, Document::new(vec![0, 7]), &mut hw),
        Err(OperationError::BuildFailure)
    );
    assert_eq!(
        index.index_document(u32::MAX, Document::new(vec![0]), &mut hw),
        Err(OperationError::OutOfRange)
    );
    let set = TokenSet::from_tokens(&vec![3, 1, 3, 2]);
    assert_eq!(set.tokens(), &vec![1, 2, 3]);
    assert!(set.contains(2));
    assert!(!set.contains(0));
}

#[test]
fn builder_takes_points_out_and_in_again() {
    let config = params(TokenizerType::Word, false);
    let mut builder = FullTextMmapIndexBuilder::new("idx".to_string(), config, true);
    let mut hw = HardwareCounterCell::new();
    let first = Value::String("Red Green".to_string());
    let list = Value::Array(vec![
        Value::String("blue".to_string()),
        Value::Bool(true),
        Value::String("red".to_string()),
    ]);
    let number = Value::Bool(false);
    builder.add_point(0, &[&first], &mut hw).unwrap();
    builder.add_point(1, &[&list, &number], &mut hw).unwrap();
    // indexing a point anew replaces what it held
    builder.add_point(0, &[&Value::String("green".to_string())], &mut hw).unwrap();
    assert_eq!(builder.remove_point(9), Ok(()));
    assert_eq!(
        builder.add_many(u32::MAX, vec!["x".to_string()], &mut hw),
        Err(OperationError::OutOfRange)
    );
    assert_eq!(builder.add_many(u32::MAX, Vec::new(), &mut hw), Ok(()));
    let (index, _) = builder.finalize().unwrap();
    assert_eq!(postings(&index, "red"), vec![1]);
    assert_eq!(postings(&index, "green"), vec![0]);
    assert_eq!(postings(&index, "blue"), vec![1]);
    assert_eq!(content(&index).vocab_len(), 3);
    assert_eq!(FullTextMmapIndexBuilder::get_value(&first), Some("Red Green".to_string()));
    assert_eq!(FullTextMmapIndexBuilder::get_value(&list), None);
    assert_eq!(FullTextMmapIndexBuilder::get_value(&Value::Null), None);
}

#[test]
fn tokenizer_kinds() {
    let word = params(TokenizerType::Word, false);
    assert_eq!(tokens(&word, "Hello, World! x2"), vec!["hello", "world", "x2"]);
    assert_eq!(tokens(&word, "  ...  "), Vec::<String>::new());
    assert_eq!(tokens(&word, ""), Vec::<String>::new());
    let multilingual = params(TokenizerType::Multilingual, false);
    assert_eq!(tokens(&multilingual, "Привет, мир"), vec!["привет", "мир"]);
    let whitespace = params(TokenizerType::Whitespace, false);
    assert_eq!(tokens(&whitespace, "Hello,\tWorld!\nx"), vec!["hello,", "world!", "x"]);
    let mut cased = params(TokenizerType::Word, false);
    cased.lowercase = Some(false);
    assert_eq!(tokens(&cased, "Hello World"), vec!["Hello", "World"]);
    cased.lowercase = None;
    assert_eq!(tokens(&cased, "Hello World"), vec!["hello", "world"]);
    let mut stopped = params(TokenizerType::Word, false);
    stopped.stopwords = vec!["the".to_string(), "a".to_string()];
    assert_eq!(tokens(&stopped, "The cat and a dog"), vec!["cat", "and", "dog"]);
    let mut prefix = params(TokenizerType::Prefix, false);
    assert_eq!(tokens(&prefix, "abc"), vec!["a", "ab", "abc"]);
    prefix.min_token_len = Some(2);
    prefix.max_token_len = Some(3);
    assert_eq!(tokens(&prefix, "hello Ab x"), vec!["he", "hel", "ab", "x"]);
    prefix.min_token_len = Some(3);
    prefix.max_token_len = Some(2);
    assert_eq!(tokens(&prefix, "hello"), Vec::<String>::new());
}

#[test]
fn deletion_bitmap_grows_by_doubling() {
    let mut bitmap = DeletionBitmap::new();
    assert_eq!(bitmap.len(), 0);
    assert!(!bitmap.is_set(0));
    assert!(bitmap.mark(2));
    assert_eq!(bitmap.len(), 3);
    assert!(!bitmap.mark(2));
    assert!(bitmap.mark(3));
    assert_eq!(bitmap.len(), 6);
    assert!(bitmap.mark(100));
    assert_eq!(bitmap.len(), 101);
    assert!(bitmap.mark(0));
    assert_eq!(bitmap.len(), 101);
    assert_eq!(bitmap.count(), 4);
    assert!(bitmap.is_set(0) && bitmap.is_set(2) && bitmap.is_set(3) && bitmap.is_set(100));
    assert!(!bitmap.is_set(1) && !bitmap.is_set(99) && !bitmap.is_set(101));
    assert!(bitmap.get(100) && !bitmap.get(4));
    assert!(!bitmap.clear_from(100));
    assert!(bitmap.clear_from(101));
    let mut cut = DeletionBitmap::from_bytes(&bitmap.to_bytes()).unwrap();
    cut.cut_to(200);
    assert_eq!(cut.len(), 104);
    cut.cut_to(4);
    assert_eq!(cut.len(), 4);
    assert_eq!(cut.count(), 3);
    assert!(cut.is_set(3) && !cut.is_set(100));
    let bytes = bitmap.to_bytes();
    assert_eq!(bytes.len(), 13);
    assert_eq!(bytes[0], 0b0000_1101);
    assert_eq!(bytes[12], 0b0001_0000);
    let read = DeletionBitmap::from_bytes(&bytes).unwrap();
    assert_eq!(read.len(), 104);
    assert_eq!(read.count(), 4);
    for id in 0..110u32 {
        assert_eq!(read.is_set(id), bitmap.is_set(id));
    }
}
