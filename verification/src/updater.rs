//! What is told of the download of an update.

use vstd::prelude::*;

verus! {

/// A step of a download.
#[derive(PartialEq, Eq, Structural, Clone, Copy, Debug)]
pub enum DownloadEvent {
    /// The download began; the size of the whole is given where it is known.
    Started { content_length: Option<u64> },
    /// A part arrived.
    Progress { chunk_length: usize },
    /// The download is complete.
    Finished,
}

/// The event for a part that arrived: the part that comes with the size of
/// the whole starts the download.
pub fn download_event(chunk_length: usize, content_length: Option<u64>) -> (r: DownloadEvent)
    ensures
        r == if content_length is Some {
            DownloadEvent::Started { content_length }
        } else {
            DownloadEvent::Progress { chunk_length }
        },
{
    if content_length.is_some() {
        DownloadEvent::Started { content_length }
    } else {
        DownloadEvent::Progress { chunk_length }
    }
}

} // verus!
