//! The download engine's decisions: naming and placing a download, and the
//! notifications that one transfer gives while it runs.
use vstd::prelude::*;
use crate::entry::new_id;
use crate::error::LibraryError;
use crate::text::{is_blank, opt_view, trim};

verus! {

/// The last segment of a URL's path, as `url` gives it, or none where the URL does not
/// parse or has no hierarchical path.
pub uninterp spec fn url_last_segment(url: Seq<char>) -> Option<Seq<char>>;

/// Relies on url::Url::parse and Url::path_segments: the last `/`-separated segment of the
/// parsed URL's path, which holds no `/`.
#[verifier::external_body]
fn last_path_segment(url: &str) -> (r: Option<String>)
    ensures
        opt_view(r) == url_last_segment(url@),
        r matches Some(s) ==> !s@.contains('/'),
{
    let parsed = url::Url::parse(url).ok()?;
    let last = parsed.path_segments()?.last()?;
    Some(last.to_string())
}

/// The display name of a download: the given name where it is not blank, else the URL's
/// last path segment where that is not empty, else `download-` followed by the job id.
pub open spec fn file_name_of(given: Option<Seq<char>>, segment: Option<Seq<char>>, id: Seq<char>) -> Seq<char> {
    if given is Some && trim(given->0).len() > 0 {
        given->0
    } else if segment is Some && segment->0.len() > 0 {
        segment->0
    } else {
        "download-"@ + id
    }
}

/// Picks the display name from the given name and the URL's last path segment.
pub fn choose_file_name(given: Option<String>, segment: Option<String>, id: &str) -> (r: String)
    ensures
        r@ == file_name_of(opt_view(given), opt_view(segment), id@),
{
    if let Some(name) = given {
        if !is_blank(name.as_str()) {
            return name;
        }
    }
    if let Some(last) = segment {
        if last.as_str().unicode_len() > 0 {
            return last;
        }
    }
    let mut name = String::from_str("download-");
    name.append(id);
    name
}

/// The display name of a download of `url` with job id `id`.
pub fn resolve_file_name(given: Option<String>, url: &str, id: &str) -> (r: String)
    ensures
        r@ == file_name_of(opt_view(given), url_last_segment(url@), id@),
{
    choose_file_name(given, last_path_segment(url), id)
}

/// A download accepted for transfer.
#[derive(Debug, Clone)]
pub struct QueuedDownload {
    pub id: String,
    pub file_name: String,
    /// Whether the file goes inside the destination, under `file_name`, rather than at the
    /// destination itself.
    pub inside_destination: bool,
}

/// Accepts a download: `InvalidArgument` where the URL or the destination is blank;
/// else a new job id, the display name, and whether the file goes inside the destination,
/// which it does where the destination is a directory or has no extension.
pub fn queue_download(
    url: &str,
    destination: &str,
    file_name: Option<String>,
    destination_is_dir: bool,
    destination_has_extension: bool,
) -> (r: Result<QueuedDownload, LibraryError>)
    ensures
        r is Err <==> trim(url@).len() == 0 || trim(destination@).len() == 0,
        r is Err ==> r == Err::<QueuedDownload, LibraryError>(LibraryError::InvalidArgument),
        r matches Ok(q) ==> {
            &&& q.id@.len() == 36
            &&& q.file_name@ == file_name_of(opt_view(file_name), url_last_segment(url@), q.id@)
            &&& q.inside_destination == (destination_is_dir || !destination_has_extension)
        },
{
    if is_blank(url) {
        return Err(LibraryError::InvalidArgument);
    }
    if is_blank(destination) {
        return Err(LibraryError::InvalidArgument);
    }
    let id = new_id();
    let name = resolve_file_name(file_name, url, id.as_str());
    Ok(QueuedDownload {
        id,
        file_name: name,
        inside_destination: destination_is_dir || !destination_has_extension,
    })
}

/// What a running transfer reports.
#[derive(Debug, Clone, Copy, PartialEq, Eq, Structural)]
pub enum Notice {
    /// Bytes written so far, and the size the server declared, if it did.
    Progress { processed: u64, total: Option<u64> },
    /// The whole body was written.
    Complete,
    /// The transfer stopped on this failure.
    Error(LibraryError),
}

/// What happens next in a transfer.
#[derive(Debug, Clone, Copy, PartialEq, Eq, Structural)]
pub enum JobEvent {
    /// A read gave this many bytes, which were written; zero is the end of the body.
    Chunk(u64),
    /// The file was flushed after the end of the body.
    Flushed,
    /// A read, write or flush failed.
    Failed(LibraryError),
}

/// The state of one transfer.
#[derive(Debug, Clone, Copy, PartialEq, Eq, Structural)]
pub struct DownloadJob {
    pub processed: u64,
    pub total: Option<u64>,
    pub finished: bool,
}

/// A status of the 2xx class.
pub open spec fn is_success(status: u16) -> bool {
    200 <= status && status <= 299
}

/// The job after an event, and what it reports.
pub open spec fn step_spec(j: DownloadJob, e: JobEvent) -> (DownloadJob, Option<Notice>) {
    match e {
        JobEvent::Chunk(n) => if n == 0 {
            (j, None)
        } else {
            let p = if j.processed + n <= u64::MAX { (j.processed + n) as u64 } else { u64::MAX };
            (DownloadJob { processed: p, ..j }, Some(Notice::Progress { processed: p, total: j.total }))
        },
        JobEvent::Flushed => (DownloadJob { finished: true, ..j }, Some(Notice::Complete)),
        JobEvent::Failed(err) => (DownloadJob { finished: true, ..j }, Some(Notice::Error(err))),
    }
}

/// Everything a job reports over a series of events; nothing after it has finished.
pub open spec fn transcript(j: DownloadJob, events: Seq<JobEvent>) -> Seq<Notice>
    decreases events.len(),
{
    if events.len() == 0 || j.finished {
        Seq::empty()
    } else {
        let (next, notice) = step_spec(j, events[0]);
        let rest = transcript(next, events.drop_first());
        match notice {
            Some(n) => seq![n] + rest,
            None => rest,
        }
    }
}

impl DownloadJob {
    /// A job for a response with this status and declared size: running where the status
    /// is a success, else finished at once with `DownloadFailed(status)`.
    pub fn start(status: u16, total: Option<u64>) -> (r: (DownloadJob, Option<Notice>))
        ensures
            is_success(status) ==> r == (DownloadJob { processed: 0, total, finished: false }, None::<Notice>),
            !is_success(status) ==> r == (DownloadJob { processed: 0, total, finished: true }, Some(
                Notice::Error(LibraryError::DownloadFailed(status)),
            )),
    {
        if 200 <= status && status <= 299 {
            (DownloadJob { processed: 0, total, finished: false }, None)
        } else {
            (DownloadJob { processed: 0, total, finished: true }, Some(Notice::Error(LibraryError::DownloadFailed(status))))
        }
    }

    /// Takes one event of a running job and says what to report.
    pub fn step(&mut self, event: JobEvent) -> (r: Option<Notice>)
        requires
            !old(self).finished,
        ensures
            (*final(self), r) == step_spec(*old(self), event),
    {
        match event {
            JobEvent::Chunk(n) => {
                if n == 0 {
                    None
                } else {
                    self.processed = if n <= u64::MAX - self.processed { self.processed + n } else { u64::MAX };
                    Some(Notice::Progress { processed: self.processed, total: self.total })
                }
            },
            JobEvent::Flushed => {
                self.finished = true;
                Some(Notice::Complete)
            },
            JobEvent::Failed(err) => {
                self.finished = true;
                Some(Notice::Error(err))
            },
        }
    }
}

/// All chunks are non-empty.
pub open spec fn all_non_empty_chunks(chunks: Seq<u64>) -> bool {
    forall|i: int| 0 <= i < chunks.len() ==> #[trigger] chunks[i] > 0
}

/// Reading these chunks, then the end of the body, then the flush.
pub open spec fn success_events(chunks: Seq<u64>) -> Seq<JobEvent> {
    chunks.map_values(|n: u64| JobEvent::Chunk(n)) + seq![JobEvent::Chunk(0), JobEvent::Flushed]
}

/// A transfer that reads non-empty chunks and then ends reports one progress notice per
/// chunk, then exactly one completion, and no error.
pub proof fn lemma_successful_transfer(j: DownloadJob, chunks: Seq<u64>)
    requires
        !j.finished,
        all_non_empty_chunks(chunks),
    ensures
        transcript(j, success_events(chunks)).len() == chunks.len() + 1,
        forall|i: int| 0 <= i < chunks.len() ==> (#[trigger] transcript(j, success_events(chunks))[i]) is Progress,
        transcript(j, success_events(chunks)).last() == Notice::Complete,
    decreases chunks.len(),
{
    let ev = success_events(chunks);
    if chunks.len() == 0 {
        assert(ev == seq![JobEvent::Chunk(0), JobEvent::Flushed]);
        let (n1, _) = step_spec(j, ev[0]);
        assert(ev.drop_first() == seq![JobEvent::Flushed]);
        assert(ev.drop_first().drop_first() == Seq::<JobEvent>::empty());
        let (n2, _) = step_spec(n1, JobEvent::Flushed);
        assert(transcript(n2, ev.drop_first().drop_first()) == Seq::<Notice>::empty());
        assert(ev.drop_first()[0] == JobEvent::Flushed);
        assert(transcript(n1, ev.drop_first()) == seq![Notice::Complete]);
    } else {
        let rest = chunks.drop_first();
        assert(ev.drop_first() == success_events(rest));
        assert(ev[0] == JobEvent::Chunk(chunks[0]));
        let (next, notice) = step_spec(j, ev[0]);
        assert forall|i: int| 0 <= i < rest.len() implies #[trigger] rest[i] > 0 by {
            assert(rest[i] == chunks[i + 1]);
        }
        lemma_successful_transfer(next, rest);
        let t = transcript(j, ev);
        let tr = transcript(next, success_events(rest));
        assert(t == seq![notice->0] + tr);
        assert forall|i: int| 0 <= i < chunks.len() implies (#[trigger] t[i]) is Progress by {
            if i > 0 {
                assert(t[i] == tr[i - 1]);
            }
        }
    }
}

/// A job started on a status that is not a success is finished at once, so no later event
/// reports anything: the error that `start` gives is the only notice.
pub proof fn lemma_failed_status(status: u16, total: Option<u64>, events: Seq<JobEvent>)
    requires
        !is_success(status),
    ensures
        transcript(DownloadJob { processed: 0, total, finished: true }, events).len() == 0,
{
}

} // verus!
