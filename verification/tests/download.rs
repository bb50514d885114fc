use gofile_dl::content::DownloadItem;
use gofile_dl::download::{Download, DownloadAction, DownloadEvent, Phase};

fn item(size: Option<u64>) -> DownloadItem {
    DownloadItem {
        url: "https://example.com/v".to_string(),
        relative_path: "root/sub/v.mp4".to_string(),
        size,
    }
}

fn creating(size: Option<u64>, content_length: Option<u64>) -> (Download, Option<u64>) {
    let (mut download, _) = Download::start(item(size), None, true);
    download.advance(DownloadEvent::Done);
    match download.advance(DownloadEvent::Responded { content_length }) {
        DownloadAction::CreatePart { path, new_bar_length } => {
            assert_eq!(path, "root/sub/v.mp4.part");
            (download, new_bar_length)
        }
        other => panic!("{other:?}"),
    }
}

#[test]
fn downloads_piece_by_piece() {
    let (mut download, action) = Download::start(item(Some(5)), Some("tok"), false);
    match action {
        DownloadAction::CheckExists(path) => assert_eq!(path, "root/sub/v.mp4"),
        other => panic!("{other:?}"),
    }
    match download.advance(DownloadEvent::Existing(false)) {
        DownloadAction::CreateDir(dir) => assert_eq!(dir, "root/sub"),
        other => panic!("{other:?}"),
    }
    match download.advance(DownloadEvent::Done) {
        DownloadAction::Request { url, cookie, timeout_secs, bar_length, bar_message } => {
            assert_eq!(url, "https://example.com/v");
            assert_eq!(cookie, Some("accountToken=tok".to_string()));
            assert_eq!(timeout_secs, None);
            assert_eq!(bar_length, 5);
            assert_eq!(bar_message, "root/sub/v.mp4");
        }
        other => panic!("{other:?}"),
    }
    match download.advance(DownloadEvent::Responded { content_length: Some(7) }) {
        DownloadAction::CreatePart { path, new_bar_length } => {
            assert_eq!(path, "root/sub/v.mp4.part");
            assert_eq!(new_bar_length, None);
        }
        other => panic!("{other:?}"),
    }
    let mut moved = 0;
    let mut written: Vec<u8> = Vec::new();
    let mut action = download.advance(DownloadEvent::Done);
    for piece in [b"ab".to_vec(), b"".to_vec(), b"cde".to_vec()] {
        match action {
            DownloadAction::Read { advance } => moved += advance,
            other => panic!("{other:?}"),
        }
        match download.advance(DownloadEvent::Chunk(piece)) {
            DownloadAction::Write(bytes) => written.extend(bytes),
            other => panic!("{other:?}"),
        }
        action = download.advance(DownloadEvent::Done);
    }
    match action {
        DownloadAction::Read { advance } => moved += advance,
        other => panic!("{other:?}"),
    }
    assert_eq!((moved, written.as_slice()), (5, b"abcde".as_slice()));
    assert!(matches!(download.advance(DownloadEvent::EndOfStream), DownloadAction::Flush));
    match download.advance(DownloadEvent::Done) {
        DownloadAction::Rename { from, to } => {
            assert_eq!(from, "root/sub/v.mp4.part");
            assert_eq!(to, "root/sub/v.mp4");
        }
        other => panic!("{other:?}"),
    }
    match download.advance(DownloadEvent::Done) {
        DownloadAction::Finish(message) => assert_eq!(message, "done root/sub/v.mp4"),
        other => panic!("{other:?}"),
    }
    assert_eq!(download.phase(), Phase::Ended);
}

#[test]
fn a_file_that_is_there_is_skipped() {
    let (mut download, _) = Download::start(item(None), None, false);
    match download.advance(DownloadEvent::Existing(true)) {
        DownloadAction::Skip(path) => assert_eq!(path, "root/sub/v.mp4"),
        other => panic!("{other:?}"),
    }
    assert_eq!(download.phase(), Phase::Ended);
}

#[test]
fn a_file_that_may_be_overwritten_is_not_looked_for() {
    let (download, action) = Download::start(item(None), None, true);
    assert!(matches!(action, DownloadAction::CreateDir(_)));
    assert_eq!(download.phase(), Phase::MakingDir);
}

#[test]
fn a_file_at_the_top_needs_the_output_directory_alone() {
    let mut top = item(None);
    top.relative_path = "v".to_string();
    match Download::start(top, None, true).1 {
        DownloadAction::CreateDir(dir) => assert_eq!(dir, ""),
        other => panic!("{other:?}"),
    }
    let mut none = item(None);
    none.relative_path = String::new();
    assert!(matches!(Download::start(none, None, true).1, DownloadAction::Request { .. }));
}

#[test]
fn only_a_token_makes_a_cookie() {
    for (token, expected) in [(None, None), (Some(""), None), (Some("t"), Some("accountToken=t"))] {
        let (mut download, _) = Download::start(item(None), token, true);
        match download.advance(DownloadEvent::Done) {
            DownloadAction::Request { cookie, bar_length, .. } => {
                assert_eq!(cookie.as_deref(), expected);
                assert_eq!(bar_length, 0);
            }
            other => panic!("{other:?}"),
        }
    }
}

#[test]
fn the_server_may_tell_the_length() {
    assert_eq!(creating(None, Some(9)).1, Some(9));
    assert_eq!(creating(Some(0), Some(9)).1, Some(9));
    assert_eq!(creating(None, None).1, None);
    assert_eq!(creating(Some(3), Some(9)).1, None);
}

#[test]
fn a_failure_ends_the_download_in_every_phase() {
    let (mut download, _) = Download::start(item(None), None, false);
    assert!(matches!(download.advance(DownloadEvent::Failed), DownloadAction::Fail));
    let path = [
        DownloadEvent::Done,
        DownloadEvent::Responded { content_length: None },
        DownloadEvent::Done,
        DownloadEvent::Chunk(vec![1]),
        DownloadEvent::Done,
        DownloadEvent::EndOfStream,
        DownloadEvent::Done,
    ];
    for steps in 0..=path.len() {
        let (mut download, _) = Download::start(item(None), None, true);
        for step in path.iter().take(steps) {
            match step {
                DownloadEvent::Chunk(bytes) => download.advance(DownloadEvent::Chunk(bytes.clone())),
                DownloadEvent::EndOfStream => download.advance(DownloadEvent::EndOfStream),
                DownloadEvent::Responded { .. } => {
                    download.advance(DownloadEvent::Responded { content_length: None })
                }
                _ => download.advance(DownloadEvent::Done),
            };
        }
        assert_ne!(download.phase(), Phase::Ended);
        assert!(matches!(download.advance(DownloadEvent::Failed), DownloadAction::Fail));
        assert_eq!(download.phase(), Phase::Ended);
    }
}
