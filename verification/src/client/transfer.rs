//! File transfer coordination: the decision whether a file's chunks are
//! compressed before they are encrypted and sent.

use vstd::prelude::*;

verus! {

/// Coordinates outgoing and incoming file transfers.
pub struct TransferManager;

impl TransferManager {
    /// Whether an outgoing file is sent compressed: only a file with at least
    /// one chunk, and only when trial compression of its first chunk paid off.
    /// `first_chunk_compressible` is that trial's verdict; it is ignored for an
    /// empty file, whose first chunk is never read.
    pub fn compression_decision(chunk_count: u32, first_chunk_compressible: bool) -> (compressed: bool)
        ensures
            compressed == (chunk_count > 0 && first_chunk_compressible),
    {
        if chunk_count > 0 {
            first_chunk_compressible
        } else {
            false
        }
    }
}

} // verus!
