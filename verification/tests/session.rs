use gofile_dl::content::{Content, DownloadItem};
use gofile_dl::session::{
    conclude, next_step, plan_downloads, total_known_size, NextStep, RunError,
};
use gofile_dl::status::{log_status, Status};

fn item(path: &str, size: Option<u64>) -> DownloadItem {
    DownloadItem { url: "u".to_string(), relative_path: path.to_string(), size }
}

fn share(name: Option<&str>, link: Option<&str>) -> Content {
    let mut file = Content::default();
    file.name = Some("f".to_string());
    file.kind = Some("file".to_string());
    file.link = link.map(|url| url.to_string());
    let mut root = Content::default();
    root.name = name.map(|text| text.to_string());
    root.insert_child("1".to_string(), file);
    root
}

#[test]
fn files_go_into_the_folder_of_the_share() {
    let planned = plan_downloads(share(Some("My: share"), Some("u")), "id").unwrap();
    assert_eq!(planned[0].relative_path, "My_ share/f");
    let planned = plan_downloads(share(Some(" "), Some("u")), "i/d").unwrap();
    assert_eq!(planned[0].relative_path, "i_d/f");
    let planned = plan_downloads(share(None, Some("u")), "..").unwrap();
    assert_eq!(planned[0].relative_path, "_/f");
}

#[test]
fn a_share_without_files_is_an_error() {
    let error = plan_downloads(share(Some("x"), None), "id").unwrap_err();
    assert_eq!(error, RunError::NothingToDownload);
    assert_eq!(error.message(), "no downloadable files found in this Gofile content");
}

#[test]
fn known_sizes_add_up() {
    assert_eq!(total_known_size(&vec![]), Some(0));
    assert_eq!(
        total_known_size(&vec![item("a", Some(40)), item("b", None), item("c", Some(2))]),
        Some(42)
    );
    assert_eq!(
        total_known_size(&vec![item("a", Some(u64::MAX)), item("b", Some(0))]),
        Some(u64::MAX)
    );
    assert_eq!(total_known_size(&vec![item("a", Some(u64::MAX)), item("b", Some(1))]), None);
}

#[test]
fn a_dry_run_lists_files_and_sizes() {
    let items = vec![item("r/a", Some(1536)), item("r/b", None)];
    match next_step(&items, true, 0) {
        NextStep::List(lines) => assert_eq!(lines, ["r/a\t1.5 KiB", "r/b", "2 file(s)"]),
        other => panic!("{other:?}"),
    }
}

#[test]
fn at_least_one_download_runs() {
    let items = vec![item("r/a", None)];
    for (asked, used) in [(0, 1), (1, 1), (4, 4)] {
        match next_step(&items, false, asked) {
            NextStep::Download { jobs } => assert_eq!(jobs, used),
            other => panic!("{other:?}"),
        }
    }
}

#[test]
fn a_run_without_failures_succeeds() {
    let end = conclude(&vec![]);
    assert!(end.lines.is_empty());
    assert_eq!(end.outcome, Ok("download complete".to_string()));
}

#[test]
fn failures_are_told_and_counted() {
    let failures = vec![
        ("r/a".to_string(), "timed out".to_string()),
        ("r/b".to_string(), "404".to_string()),
    ];
    let end = conclude(&failures);
    assert_eq!(end.lines, ["failed: r/a: timed out", "failed: r/b: 404"]);
    let error = end.outcome.unwrap_err();
    assert_eq!(error, RunError::DownloadsFailed(2));
    assert_eq!(error.message(), "2 download(s) failed");
}

#[test]
fn progress_is_told_unless_the_run_is_quiet() {
    let cases = [
        (Status::UsingProxy("http://p".to_string()), "using proxy http://p for downloads"),
        (
            Status::Scraping("https://gofile.io/d/x".to_string()),
            "scraping share page https://gofile.io/d/x in headless Chrome",
        ),
        (Status::Running("s.mjs".to_string()), "running s.mjs"),
        (Status::Queued("r/a".to_string()), "queued file r/a"),
        (
            Status::Found { count: 12, total: 1024 },
            "found 12 file(s), total known size 1.0 KiB",
        ),
        (
            Status::Starting { jobs: 4, output: "out".to_string() },
            "starting downloads with 4 job(s) into out",
        ),
        (Status::SkipExisting("out/r/a".to_string()), "skip existing: out/r/a"),
    ];
    for (status, text) in cases {
        assert_eq!(log_status(false, &status), Some(format!("[gofile-dl] {text}")));
        assert_eq!(log_status(true, &status), None);
    }
}
