//! File names below the directory of a storage or an index.

use vstd::prelude::*;
use vstd::string::StringExecFns;

verus! {

/// The path of the file `name` in the directory `directory`.
pub open spec fn joined(directory: Seq<char>, name: Seq<char>) -> Seq<char> {
    directory + seq!['/'] + name
}

/// The path of the file `name` in the directory `directory`.
pub fn join(directory: &str, name: &str) -> (path: String)
    ensures
        path@ == joined(directory@, name@),
{
    let mut path = String::from_str(directory);
    proof {
        reveal_strlit("/");
    }
    path.append("/");
    assert("/"@ =~= seq!['/']);
    path.append(name);
    path
}

/// A file as it lies, or is to lie, on disk.
#[derive(Clone, Debug, PartialEq, Eq)]
pub struct FileImage {
    pub path: String,
    pub bytes: Vec<u8>,
}

/// What a file image holds.
pub struct FileImageView {
    pub path: Seq<char>,
    pub bytes: Seq<u8>,
}

impl View for FileImage {
    type V = FileImageView;

    open spec fn view(&self) -> FileImageView {
        FileImageView { path: self.path@, bytes: self.bytes@ }
    }
}

/// What a flush is to write: loose files, and the files of a vector storage
/// where the flush is that of one. The caller writes each file beside its
/// place, syncs it, and puts it into its place.
#[derive(Clone, Debug, PartialEq, Eq)]
pub struct Flusher {
    pub files: Vec<FileImage>,
    pub storage: Option<crate::vector_storage::files::StorageFiles>,
}

/// A request to the caller to make the pages of files resident, or to let
/// them go.
#[derive(Clone, Copy, Debug, PartialEq, Eq, Structural)]
pub enum CacheAdvice {
    /// Read every page in.
    Populate,
    /// Drop the pages from the cache.
    Clear,
}

/// The files that a piece of advice is about.
#[derive(Clone, Debug, PartialEq, Eq)]
pub struct CacheRequest {
    pub advice: CacheAdvice,
    pub files: Vec<String>,
}

} // verus!
