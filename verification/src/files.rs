//! What is asked of the file system about a file that is read whole.
use vstd::prelude::*;

verus! {

/// What the file system says of an open file.
#[derive(Clone, Copy, Debug, PartialEq, Eq, Structural)]
pub struct FileMetadata {
    pub is_file: bool,
    pub len: u64,
}

/// Whether a file of a declared length can be read whole: one byte more must
/// be countable, in a file and in memory.
pub open spec fn readable_len(declared_len: u64) -> bool {
    declared_len + 1 <= u64::MAX && declared_len + 1 <= usize::MAX
}

/// How many bytes to ask for of a file of a declared length: one more than
/// declared, so that a file that grew is noticed.
pub fn read_limit(declared_len: u64) -> (limit: Option<u64>)
    ensures
        match limit {
            Some(limit) => readable_len(declared_len) && limit == declared_len + 1,
            None => !readable_len(declared_len),
        },
{
    match declared_len.checked_add(1) {
        Some(limit) => {
            if limit <= usize::MAX as u64 {
                Some(limit)
            } else {
                None
            }
        },
        None => None,
    }
}

} // verus!
