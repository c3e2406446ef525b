//! Requests and answers of archive extraction.

use vstd::prelude::*;

verus! {

/// A request to extract an archive.
#[derive(Debug)]
pub struct ExtractRequest {
    /// The archive.
    pub src_path: String,
    /// The directory to extract into.
    pub dst_path: String,
    /// The archive's password, if any.
    pub password: Option<String>,
    /// Only this part of the archive, if given.
    pub inner_path: Option<String>,
    /// The encoding of the entry names.
    pub encoding: String,
    /// Extract into a new directory named after the archive.
    pub put_into_new_dir: bool,
    /// Replace existing files.
    pub overwrite: bool,
    /// Skip the free-space check.
    pub force: bool,
}

/// The encoding assumed for entry names when none is given.
pub fn default_encoding() -> (r: String)
    ensures
        r@ == "utf-8"@,
{
    String::from_str("utf-8")
}

/// The answer to an extraction request.
#[derive(Debug)]
pub struct ExtractResponse {
    pub task_id: String,
    pub message: String,
}

/// A storage and its mount path.
#[derive(Debug)]
pub struct MountInfo {
    pub id: String,
    pub mount_path: String,
}

/// The archive formats that can be extracted.
#[derive(Debug, Clone, Copy, PartialEq, Eq)]
pub enum ArchiveFormat {
    Zip,
    Tar,
    TarGz,
    TarBz2,
    SevenZip,
}

} // verus!
