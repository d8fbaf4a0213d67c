//! Descriptions of the files offered in a transfer.
use vstd::prelude::*;
use crate::error::ApiError;
use crate::keyed::Keyed;
use crate::outside::{fresh_id, sha256_hex, sha256_hex_of};
use crate::text::{base_name, basename, extension, extension_of, is_plain_component, is_plain_name};

verus! {

/// Timestamps a sender may attach to a file.
#[derive(Clone, Debug)]
pub struct FileExtraMetadata {
    pub modified: Option<String>,
    pub accessed: Option<String>,
}

/// One file of a transfer. `id` is scoped to its session; `file_name` comes
/// from the sender and is not trusted.
#[derive(Clone, Debug)]
pub struct FileMetadata {
    pub id: String,
    pub file_name: String,
    pub size: u64,
    pub file_type: String,
    pub sha256: Option<String>,
    pub preview: Option<String>,
    pub metadata: Option<FileExtraMetadata>,
}

impl Keyed for FileMetadata {
    open spec fn key(&self) -> Seq<char> {
        self.id@
    }
}

impl FileMetadata {
    pub fn new(
        id: String,
        file_name: String,
        size: u64,
        file_type: String,
        sha256: Option<String>,
        preview: Option<String>,
        metadata: Option<FileExtraMetadata>,
    ) -> (r: FileMetadata)
        ensures
            r == (FileMetadata { id, file_name, size, file_type, sha256, preview, metadata }),
    {
        FileMetadata { id, file_name, size, file_type, sha256, preview, metadata }
    }

    /// Describes the file at `path` under the given id, from its size and
    /// contents: its name is the last component of the path, its type the
    /// name's extension, and its digest the SHA-256 of the contents. A path
    /// whose last component names no file gives `NotAFile`.
    pub fn describe(id: String, path: &str, size: u64, contents: &Vec<u8>) -> (r: Result<FileMetadata, ApiError>)
        ensures
            !is_plain_component(basename(path@)) ==> r == Err::<FileMetadata, ApiError>(ApiError::NotAFile),
            is_plain_component(basename(path@)) ==> r.is_ok() && {
                let m = r.unwrap();
                &&& m.id == id
                &&& m.file_name@ == basename(path@)
                &&& m.size == size
                &&& m.file_type@ == extension(basename(path@))
                &&& m.sha256.is_some() && m.sha256.unwrap()@ == sha256_hex_of(contents@)
                &&& m.preview.is_none()
                &&& m.metadata.is_none()
            },
    {
        let file_name = base_name(path);
        if !is_plain_name(file_name.as_str()) {
            return Err(ApiError::NotAFile);
        }
        let file_type = extension_of(file_name.as_str());
        let digest = sha256_hex(contents);
        Ok(FileMetadata::new(id, file_name, size, file_type, Some(digest), None, None))
    }

    /// Describes the file at `path` under a freshly drawn id.
    pub fn from_contents(path: &str, size: u64, contents: &Vec<u8>) -> (r: Result<FileMetadata, ApiError>)
        ensures
            !is_plain_component(basename(path@)) ==> r == Err::<FileMetadata, ApiError>(ApiError::NotAFile),
            is_plain_component(basename(path@)) ==> r.is_ok() && {
                let m = r.unwrap();
                &&& m.id@.len() == 36
                &&& m.file_name@ == basename(path@)
                &&& m.size == size
                &&& m.file_type@ == extension(basename(path@))
                &&& m.sha256.is_some() && m.sha256.unwrap()@ == sha256_hex_of(contents@)
            },
    {
        FileMetadata::describe(fresh_id(), path, size, contents)
    }
}

} // verus!
