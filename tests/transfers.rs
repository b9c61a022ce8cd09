use game_library::download::{choose_file_name, queue_download, resolve_file_name, DownloadJob, JobEvent, Notice};
use game_library::error::LibraryError;
use game_library::size::{size_from_scan, PathKind};

#[test]
fn size_of_directory_sums_files() {
    assert_eq!(size_from_scan(PathKind::Directory, &vec![10, 20]), Ok(30));
    assert_eq!(size_from_scan(PathKind::File, &vec![123]), Ok(123));
    assert_eq!(size_from_scan(PathKind::Directory, &vec![]), Ok(0));
    assert_eq!(size_from_scan(PathKind::Directory, &vec![u64::MAX, 1]), Ok(u64::MAX));
}

#[test]
fn size_errors() {
    assert_eq!(size_from_scan(PathKind::Missing, &vec![]), Err(LibraryError::PathNotFound));
    assert_eq!(size_from_scan(PathKind::Other, &vec![]), Err(LibraryError::UnsupportedPathType));
}

#[test]
fn blank_url_or_destination_is_invalid() {
    assert_eq!(queue_download("  ", "/tmp", None, true, false).unwrap_err(), LibraryError::InvalidArgument);
    assert_eq!(queue_download("https://e.com/a.zip", "\t", None, true, false).unwrap_err(), LibraryError::InvalidArgument);
}

#[test]
fn destination_placement() {
    let url = "https://example.com/files/game.zip";
    let dir = queue_download(url, "/downloads", None, true, false).unwrap();
    assert!(dir.inside_destination);
    assert_eq!(dir.file_name, "game.zip");
    let no_ext = queue_download(url, "/downloads/new", None, false, false).unwrap();
    assert!(no_ext.inside_destination);
    let with_ext = queue_download(url, "/downloads/x.bin", None, false, true).unwrap();
    assert!(!with_ext.inside_destination);
    assert_eq!(with_ext.id.len(), 36);
}

#[test]
fn file_name_priority() {
    assert_eq!(resolve_file_name(Some(" mine.iso".to_string()), "https://e.com/a.zip", "id1"), " mine.iso");
    assert_eq!(resolve_file_name(Some("  ".to_string()), "https://e.com/dir/a.zip?x=1", "id1"), "a.zip");
    assert_eq!(resolve_file_name(None, "https://e.com/dir/", "id1"), "download-id1");
    assert_eq!(resolve_file_name(None, "not a url", "id2"), "download-id2");
    assert_eq!(choose_file_name(None, Some(String::new()), "z"), "download-z");
}

#[test]
fn successful_transfer_notices() {
    let (mut job, first) = DownloadJob::start(200, Some(300));
    assert_eq!(first, None);
    let mut notices = Vec::new();
    for ev in [JobEvent::Chunk(131072), JobEvent::Chunk(100), JobEvent::Chunk(0), JobEvent::Flushed] {
        if let Some(n) = job.step(ev) {
            notices.push(n);
        }
    }
    assert_eq!(
        notices,
        vec![
            Notice::Progress { processed: 131072, total: Some(300) },
            Notice::Progress { processed: 131172, total: Some(300) },
            Notice::Complete,
        ]
    );
    assert!(job.finished);
}

#[test]
fn failed_status_gives_one_error() {
    let (job, first) = DownloadJob::start(404, None);
    assert!(job.finished);
    assert_eq!(first, Some(Notice::Error(LibraryError::DownloadFailed(404))));
}

#[test]
fn transfer_failures_are_terminal() {
    let (mut job, _) = DownloadJob::start(204, None);
    assert_eq!(job.step(JobEvent::Chunk(5)), Some(Notice::Progress { processed: 5, total: None }));
    assert_eq!(job.step(JobEvent::Failed(LibraryError::NetworkFailure)), Some(Notice::Error(LibraryError::NetworkFailure)));
    assert!(job.finished);
    let (mut other, _) = DownloadJob::start(200, None);
    assert_eq!(other.step(JobEvent::Failed(LibraryError::IoFailure)), Some(Notice::Error(LibraryError::IoFailure)));
    assert_ne!(LibraryError::CorruptStore, LibraryError::IoFailure);
}
