//! The filesystem collaborator's value types.  Reading and writing files is
//! I/O and happens outside this crate; the handlers in here only map the
//! outcomes to responses, and this module gives those outcomes their shape.

use vstd::prelude::*;
use crate::tokens::{slash, slash_bytes};

verus! {

/// Why a file operation failed.
#[derive(Debug)]
pub enum FileManagerError {
    /// The file does not exist: answered `404 Not Found`.
    NotFound,
    /// Any other failure, with its description: answered `500 Internal
    /// Server Error`.
    Unknown(String),
}

/// A successful read: the file's bytes and how many were read.
pub struct ReadResult {
    pub content: Vec<u8>,
    pub bytes_read: usize,
}

/// Marker type the file operations hang off.
#[derive(Debug)]
pub struct FileManager;

impl FileManager {
    /// Join a directory and a file name with a single `/`.
    pub fn join_path(directory: &[u8], filename: &[u8]) -> (r: Vec<u8>)
        ensures
            r@ == directory@ + slash() + filename@,
    {
        let mut out = vstd::slice::slice_to_vec(directory);
        let sl = slash_bytes();
        out.extend_from_slice(sl.as_slice());
        out.extend_from_slice(filename);
        proof {
            assert(out@ =~= directory@ + slash() + filename@);
        }
        out
    }
}

} // verus!
