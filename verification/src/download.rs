//! Progress of a streamed download.

use vstd::prelude::*;

verus! {

/// Bytes received so far, and the size announced by the server, where it
/// sent one.
#[derive(Clone, Copy)]
pub struct DownloadProgress {
    pub downloaded: u64,
    pub total: Option<u64>,
}

impl DownloadProgress {
    /// Nothing received yet of a download of announced size `total`.
    pub fn new(total: Option<u64>) -> (p: Self)
        ensures
            p.downloaded == 0,
            p.total == total,
    {
        DownloadProgress { downloaded: 0, total }
    }

    /// Records a received chunk of `len` bytes.
    pub fn record_chunk(&mut self, len: u64)
        requires
            old(self).downloaded + len <= u64::MAX,
        ensures
            final(self).downloaded == old(self).downloaded + len,
            final(self).total == old(self).total,
    {
        self.downloaded = self.downloaded + len;
    }
}

} // verus!
