//! Downloads: the progress reported chunk by chunk, the completion notice,
//! and the handle through which a running download is cancelled.

use vstd::prelude::*;

verus! {

/// A progress notification: bytes written so far, and the advertised total
/// (0 when the server did not say).
pub struct ProgressPayload {
    pub model_filename: String,
    pub progress: u64,
    pub total: u64,
}

/// Why a download stopped.
pub enum Error {
    /// Writing the file failed, with the message.
    Io(String),
    /// The request or the transfer failed, with the message.
    Request(String),
}

impl Error {
    /// The message that the caller shows.
    pub fn message(&self) -> (r: String)
        ensures
            r@ == match self {
                Error::Io(m) => m@,
                Error::Request(m) => m@,
            },
    {
        match self {
            Error::Io(m) => m.clone(),
            Error::Request(m) => m.clone(),
        }
    }
}

/// The progress of one download.
pub struct DownloadProgress {
    pub filename: String,
    pub total: u64,
    pub progress: u64,
    pub finished: bool,
}

/// Bytes in all the chunks.
pub open spec fn bytes_in(chunks: Seq<u64>) -> int
    decreases chunks.len(),
{
    if chunks.len() == 0 {
        0
    } else {
        bytes_in(chunks.drop_last()) + chunks.last()
    }
}

/// The cumulative values that the progress notifications carry, one per
/// chunk.
pub open spec fn progress_values(chunks: Seq<u64>) -> Seq<int> {
    Seq::new(chunks.len(), |i: int| bytes_in(chunks.subrange(0, i + 1)))
}

impl DownloadProgress {
    /// A download whose response advertised `content_length` (or nothing).
    pub fn new(filename: String, content_length: Option<u64>) -> (r: DownloadProgress)
        ensures
            r.filename == filename,
            r.total == match content_length {
                Some(n) => n,
                None => 0,
            },
            r.progress == 0,
            !r.finished,
    {
        let total = match content_length {
            Some(n) => n,
            None => 0,
        };
        DownloadProgress { filename, total, progress: 0, finished: false }
    }

    /// Counts a chunk of `len` bytes that was written to the file, and gives
    /// the notification to emit.
    pub fn record_chunk(&mut self, len: u64) -> (r: ProgressPayload)
        requires
            !old(self).finished,
            old(self).progress + len <= u64::MAX,
        ensures
            final(self).progress == old(self).progress + len,
            final(self).total == old(self).total,
            final(self).filename == old(self).filename,
            !final(self).finished,
            r.model_filename == old(self).filename,
            r.progress == final(self).progress,
            r.total == old(self).total,
    {
        self.progress = self.progress + len;
        ProgressPayload {
            model_filename: self.filename.clone(),
            progress: self.progress,
            total: self.total,
        }
    }

    /// Tells whether a chunk of `len` bytes can still be counted.
    pub fn can_record(&self, len: u64) -> (r: bool)
        ensures
            r == (self.progress + len <= u64::MAX),
    {
        len <= u64::MAX - self.progress
    }

    /// Ends the download once the whole body is written, and gives the
    /// completion notice to emit. Only this gives one, and only once.
    pub fn finish(&mut self, notice: &str) -> (r: Option<String>)
        ensures
            final(self).progress == old(self).progress,
            final(self).total == old(self).total,
            final(self).filename == old(self).filename,
            final(self).finished,
            old(self).finished ==> r is None,
            !old(self).finished ==> (r matches Some(n) && n@ == notice@),
    {
        if self.finished {
            None
        } else {
            self.finished = true;
            Some(String::from_str(notice))
        }
    }
}

proof fn lemma_bytes_in_prefix(chunks: Seq<u64>, i: int, j: int)
    requires
        0 <= i <= j <= chunks.len(),
    ensures
        0 <= bytes_in(chunks.subrange(0, i)) <= bytes_in(chunks.subrange(0, j)),
    decreases j,
{
    if j > 0 {
        let cj = chunks.subrange(0, j);
        assert(cj.drop_last() =~= chunks.subrange(0, j - 1));
        if i < j {
            lemma_bytes_in_prefix(chunks, i, j - 1);
        } else {
            lemma_bytes_in_prefix(chunks, i - 1, j - 1);
            assert(chunks.subrange(0, i).drop_last() =~= chunks.subrange(0, i - 1));
        }
    } else {
        assert(chunks.subrange(0, i) =~= Seq::<u64>::empty());
    }
}

/// Over the chunks of one download, the cumulative byte count that the
/// progress notifications carry never decreases, and the last one is the
/// number of bytes written.
pub proof fn lemma_progress_monotonic(chunks: Seq<u64>)
    ensures
        forall|i: int, j: int|
            0 <= i <= j < chunks.len() ==> #[trigger] progress_values(chunks)[i]
                <= #[trigger] progress_values(chunks)[j],
        chunks.len() > 0 ==> progress_values(chunks)[chunks.len() - 1] == bytes_in(chunks),
{
    assert forall|i: int, j: int| 0 <= i <= j < chunks.len() implies #[trigger] progress_values(
        chunks,
    )[i] <= #[trigger] progress_values(chunks)[j] by {
        lemma_bytes_in_prefix(chunks, i + 1, j + 1);
    }
    if chunks.len() > 0 {
        assert(chunks.subrange(0, chunks.len() as int) =~= chunks);
    }
}

/// The progress of a download after its chunks are counted one by one from
/// a fresh start: each call's notification carries the running total of
/// bytes, which is `bytes_in` of the chunks so far.
pub proof fn lemma_recorded_progress(chunks: Seq<u64>, k: int)
    requires
        0 <= k < chunks.len(),
    ensures
        progress_values(chunks)[k] == bytes_in(chunks.subrange(0, k)) + chunks[k],
{
    let s = chunks.subrange(0, k + 1);
    assert(s.drop_last() =~= chunks.subrange(0, k));
}

/// A download cut off before its completion notice has written the chunks
/// that came before the cut, no more; when the body is no longer than the
/// advertised total, neither is what was written.
pub proof fn lemma_cancelled_download_within_total(chunks: Seq<u64>, cut: int, total: u64)
    requires
        0 <= cut <= chunks.len(),
        bytes_in(chunks) <= total,
    ensures
        bytes_in(chunks.subrange(0, cut)) <= total,
{
    lemma_bytes_in_prefix(chunks, cut, chunks.len() as int);
    assert(chunks.subrange(0, chunks.len() as int) =~= chunks);
}

/// The handle of the running download, through which it is cancelled.
pub struct DownloadState<H> {
    pub tokio_handle: Option<H>,
}

impl<H> DownloadState<H> {
    /// No download registered.
    pub fn new() -> (r: DownloadState<H>)
        ensures
            r.tokio_handle is None,
    {
        DownloadState { tokio_handle: None }
    }

    /// Registers the handle of a download that starts. The handle it replaces
    /// is handed back: that download is not stopped, only no longer
    /// reachable by a cancel.
    pub fn start(&mut self, handle: H) -> (r: Option<H>)
        ensures
            final(self).tokio_handle == Some(handle),
            r == old(self).tokio_handle,
    {
        let previous = self.tokio_handle.take();
        self.tokio_handle = Some(handle);
        previous
    }

    /// The handle to abort on a cancel request; `None` makes the request a
    /// no-op.
    pub fn to_cancel(&self) -> (r: Option<&H>)
        ensures
            r == match self.tokio_handle {
                Some(h) => Some(&h),
                None => None::<&H>,
            },
    {
        match &self.tokio_handle {
            Some(h) => Some(h),
            None => None,
        }
    }
}

} // verus!
