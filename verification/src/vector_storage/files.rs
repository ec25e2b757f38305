//! A vector storage as it lies in its files, and the names of those files.

use vstd::prelude::*;
use crate::common::{Distance, MultiVectorConfig, VectorStorageDatatype};
use crate::paths::{join, joined};
use crate::text::{string_of, strings_view};
use crate::vector_storage::chunked::{ArrayFiles, ArrayFilesView};

verus! {

/// The version of the file format that is written and read.
pub const STORAGE_FORMAT_VERSION: u32 = 1;

/// The shape of the vectors in the files of a storage.
#[derive(Clone, Copy, Debug, PartialEq, Eq, Structural)]
pub enum StorageKind {
    Dense,
    Sparse,
    MultiDense,
}

/// What the file `meta.json` of a vector storage says.
#[derive(Clone, Copy, Debug, PartialEq, Eq, Structural)]
pub struct StorageMeta {
    pub format_version: u32,
    pub kind: StorageKind,
    pub element: VectorStorageDatatype,
    /// Number of elements in a vector; nothing for sparse vectors.
    pub dim: Option<u64>,
    pub distance: Distance,
    /// Number of vectors, deleted ones included.
    pub total: u64,
    /// Number of vectors flagged as deleted.
    pub deleted: u64,
    /// The configuration of a multi-vector storage.
    pub multi_vector_config: Option<MultiVectorConfig>,
}

/// The files of a vector storage, each with what it holds: the meta data,
/// the chunks of the data array, the chunks of the table of runs where the
/// storage has one, and the deletion flags.
#[derive(Clone, Debug, PartialEq, Eq)]
pub struct StorageFiles {
    pub meta: StorageMeta,
    pub data: ArrayFiles,
    pub table: Option<ArrayFiles>,
    pub deleted_bits: Vec<u8>,
}

/// What the files of a vector storage hold.
pub struct StorageFilesView {
    pub meta: StorageMeta,
    pub data: ArrayFilesView,
    pub table: Option<ArrayFilesView>,
    pub deleted_bits: Seq<u8>,
}

impl View for StorageFiles {
    type V = StorageFilesView;

    open spec fn view(&self) -> StorageFilesView {
        StorageFilesView {
            meta: self.meta,
            data: self.data@,
            table: match self.table {
                Some(table) => Some(table@),
                None => None,
            },
            deleted_bits: self.deleted_bits@,
        }
    }
}

/// The character of the digit `digit`.
pub open spec fn digit_char(digit: nat) -> char {
    if digit == 0 {
        '0'
    } else if digit == 1 {
        '1'
    } else if digit == 2 {
        '2'
    } else if digit == 3 {
        '3'
    } else if digit == 4 {
        '4'
    } else if digit == 5 {
        '5'
    } else if digit == 6 {
        '6'
    } else if digit == 7 {
        '7'
    } else if digit == 8 {
        '8'
    } else {
        '9'
    }
}

/// The decimal digits of `number`, highest first.
pub open spec fn decimal(number: nat) -> Seq<char>
    decreases number,
{
    if number < 10 {
        seq![digit_char(number)]
    } else {
        decimal(number / 10).push(digit_char(number % 10))
    }
}

/// The decimal digits of `number`, with zeros in front where they are fewer
/// than four.
pub open spec fn padded(number: nat) -> Seq<char> {
    if decimal(number).len() >= 4 {
        decimal(number)
    } else {
        Seq::new((4 - decimal(number).len()) as nat, |i: int| '0') + decimal(number)
    }
}

/// The name of the file of chunk `index`: the name of a directory, the
/// number of the chunk, and a suffix.
pub open spec fn chunk_name(prefix: Seq<char>, index: nat, suffix: Seq<char>) -> Seq<char> {
    prefix + padded(index) + suffix
}

/// The directory and the suffix of the files of the data array.
pub open spec fn data_naming(kind: StorageKind) -> (Seq<char>, Seq<char>) {
    match kind {
        StorageKind::Sparse => ("blob/"@, ".bin"@),
        _ => ("chunks/"@, ".vec"@),
    }
}

/// The directory and the suffix of the files of the table of runs.
pub open spec fn table_naming(kind: StorageKind) -> (Seq<char>, Seq<char>) {
    match kind {
        StorageKind::Sparse => ("index/"@, ".idx"@),
        _ => ("offsets/"@, ".off"@),
    }
}

/// The names of `count` chunk files in the directory `path`.
pub open spec fn chunk_names(
    path: Seq<char>,
    naming: (Seq<char>, Seq<char>),
    count: nat,
) -> Seq<Seq<char>> {
    Seq::new(count, |index: int| joined(path, chunk_name(naming.0, index as nat, naming.1)))
}

/// The names of the files of a storage in the directory `path`: the chunks
/// of the data array, the chunks of the table, and behind them the layout of the chunks,
/// the deletion flags and the meta data.
pub open spec fn storage_file_names(
    path: Seq<char>,
    kind: StorageKind,
    data_chunks: nat,
    table_chunks: nat,
) -> Seq<Seq<char>> {
    chunk_names(path, data_naming(kind), data_chunks) + chunk_names(
        path,
        table_naming(kind),
        table_chunks,
    ) + seq![
        joined(path, "layout.json"@),
        joined(path, "deleted.bits"@),
        joined(path, "meta.json"@),
    ]
}

/// The character of the digit `digit`.
fn digit_of(digit: usize) -> (r: char)
    requires
        digit < 10,
    ensures
        r == digit_char(digit as nat),
{
    if digit == 0 {
        '0'
    } else if digit == 1 {
        '1'
    } else if digit == 2 {
        '2'
    } else if digit == 3 {
        '3'
    } else if digit == 4 {
        '4'
    } else if digit == 5 {
        '5'
    } else if digit == 6 {
        '6'
    } else if digit == 7 {
        '7'
    } else if digit == 8 {
        '8'
    } else {
        '9'
    }
}

/// Appends the decimal digits of `number` to `out`.
fn push_decimal(out: &mut Vec<char>, number: usize)
    ensures
        final(out)@ == old(out)@ + decimal(number as nat),
    decreases number,
{
    if number >= 10 {
        push_decimal(out, number / 10);
    }
    out.push(digit_of(number % 10));
    assert(out@ =~= old(out)@ + decimal(number as nat));
}

/// The name of the file of chunk `index`.
pub fn chunk_file_name(prefix: &str, index: usize, suffix: &str) -> (name: String)
    ensures
        name@ == chunk_name(prefix@, index as nat, suffix@),
{
    let mut digits: Vec<char> = Vec::new();
    push_decimal(&mut digits, index);
    assert(digits@ =~= decimal(index as nat));
    let mut chars: Vec<char> = crate::text::chars_of(prefix);
    let mut zeros: usize = digits.len();
    let ghost front = chars@;
    while zeros < 4
        invariant
            digits@.len() <= zeros,
            zeros <= 4 || zeros == digits@.len(),
            chars@ == front + Seq::new((zeros - digits@.len()) as nat, |i: int| '0'),
        decreases 4 - zeros,
    {
        chars.push('0');
        zeros += 1;
        assert(chars@ =~= front + Seq::new((zeros - digits@.len()) as nat, |i: int| '0'));
    }
    let ghost padding = chars@;
    let mut i: usize = 0;
    while i < digits.len()
        invariant
            i <= digits@.len(),
            chars@ == padding + digits@.take(i as int),
        decreases digits.len() - i,
    {
        chars.push(digits[i]);
        i += 1;
        assert(chars@ =~= padding + digits@.take(i as int));
    }
    assert(digits@.take(i as int) =~= digits@);
    let tail = crate::text::chars_of(suffix);
    let ghost numbered = chars@;
    let mut k: usize = 0;
    while k < tail.len()
        invariant
            k <= tail@.len(),
            chars@ == numbered + tail@.take(k as int),
        decreases tail.len() - k,
    {
        chars.push(tail[k]);
        k += 1;
        assert(chars@ =~= numbered + tail@.take(k as int));
    }
    assert(tail@.take(k as int) =~= tail@);
    assert(chars@ =~= chunk_name(prefix@, index as nat, suffix@));
    string_of(chars.as_slice())
}

/// Appends the names of `count` chunk files in the directory `path` to `names`.
fn push_chunk_names(names: &mut Vec<String>, path: &str, prefix: &str, suffix: &str, count: usize)
    ensures
        strings_view(final(names)@) == strings_view(old(names)@) + chunk_names(
            path@,
            (prefix@, suffix@),
            count as nat,
        ),
{
    let ghost before = strings_view(names@);
    let mut index: usize = 0;
    assert(before + chunk_names(path@, (prefix@, suffix@), 0) =~= before);
    while index < count
        invariant
            index <= count,
            strings_view(names@) == before + chunk_names(path@, (prefix@, suffix@), index as nat),
        decreases count - index,
    {
        let name = chunk_file_name(prefix, index, suffix);
        let ghost held = strings_view(names@);
        let joined_name = join(path, name.as_str());
        let ghost added = joined_name@;
        names.push(joined_name);
        proof {
            let shorter = chunk_names(path@, (prefix@, suffix@), index as nat);
            let longer = chunk_names(path@, (prefix@, suffix@), (index + 1) as nat);
            assert(longer =~= shorter.push(added));
            assert(strings_view(names@) =~= held.push(added));
            assert(strings_view(names@) =~= before + longer);
        }
        index += 1;
    }
}

/// The names of the files of a storage in the directory `path`.
pub fn file_names(
    path: &str,
    kind: StorageKind,
    data_chunks: usize,
    table_chunks: usize,
) -> (names: Vec<String>)
    ensures
        strings_view(names@) == storage_file_names(
            path@,
            kind,
            data_chunks as nat,
            table_chunks as nat,
        ),
{
    let mut names: Vec<String> = Vec::new();
    assert(strings_view(names@) =~= Seq::<Seq<char>>::empty());
    match kind {
        StorageKind::Sparse => {
            push_chunk_names(&mut names, path, "blob/", ".bin", data_chunks);
            push_chunk_names(&mut names, path, "index/", ".idx", table_chunks);
        },
        _ => {
            push_chunk_names(&mut names, path, "chunks/", ".vec", data_chunks);
            push_chunk_names(&mut names, path, "offsets/", ".off", table_chunks);
        },
    }
    let ghost chunks = strings_view(names@);
    names.push(join(path, "layout.json"));
    names.push(join(path, "deleted.bits"));
    names.push(join(path, "meta.json"));
    assert(strings_view(names@) =~= chunks + seq![
        joined(path@, "layout.json"@),
        joined(path@, "deleted.bits"@),
        joined(path@, "meta.json"@),
    ]);
    names
}

} // verus!
