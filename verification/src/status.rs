//! Lines about the progress of a run.

use crate::text::{decimal, push_decimal};
use crate::units::{format_bytes, formatted_bytes};
use vstd::prelude::*;
use vstd::string::*;

verus! {

/// Something to tell about the progress of a run.
#[derive(Debug)]
pub enum Status {
    /// The downloads go through the proxy at this URL.
    UsingProxy(String),
    /// The page of the share, at this link, is read.
    Scraping(String),
    /// The script at this path is run.
    Running(String),
    /// The file that goes to this path is to be downloaded.
    Queued(String),
    /// The files to download are known.
    Found {
        /// How many there are.
        count: usize,
        /// The sum of the sizes that are known.
        total: u64,
    },
    /// The downloads start.
    Starting {
        /// How many run at a time.
        jobs: usize,
        /// The output directory.
        output: String,
    },
    /// The file at this path is there already.
    SkipExisting(String),
}

impl Status {
    /// What there is to tell.
    pub open spec fn text(self) -> Seq<char> {
        match self {
            Status::UsingProxy(url) => "using proxy "@ + url@ + " for downloads"@,
            Status::Scraping(link) => "scraping share page "@ + link@ + " in headless Chrome"@,
            Status::Running(script) => "running "@ + script@,
            Status::Queued(path) => "queued file "@ + path@,
            Status::Found { count, total } => "found "@ + decimal(count as nat)
                + " file(s), total known size "@ + formatted_bytes(total as nat),
            Status::Starting { jobs, output } => "starting downloads with "@ + decimal(jobs as nat)
                + " job(s) into "@ + output@,
            Status::SkipExisting(path) => "skip existing: "@ + path@,
        }
    }
}

/// The line that tells `status`; none in a quiet run.
pub open spec fn status_line(quiet: bool, status: Status) -> Option<Seq<char>> {
    if quiet {
        None
    } else {
        Some("[gofile-dl] "@ + status.text())
    }
}

/// The line that tells `status`; none in a quiet run.
pub fn log_status(quiet: bool, status: &Status) -> (res: Option<String>)
    ensures
        res is Some == status_line(quiet, *status) is Some,
        res matches Some(line) ==> Some(line@) == status_line(quiet, *status),
{
    if quiet {
        return None;
    }
    let mut line = "[gofile-dl] ".to_owned();
    match status {
        Status::UsingProxy(url) => {
            line.append("using proxy ");
            line.append(url.as_str());
            line.append(" for downloads");
        },
        Status::Scraping(link) => {
            line.append("scraping share page ");
            line.append(link.as_str());
            line.append(" in headless Chrome");
        },
        Status::Running(script) => {
            line.append("running ");
            line.append(script.as_str());
        },
        Status::Queued(path) => {
            line.append("queued file ");
            line.append(path.as_str());
        },
        Status::Found { count, total } => {
            line.append("found ");
            push_decimal(&mut line, *count as u64);
            line.append(" file(s), total known size ");
            line.append(format_bytes(*total).as_str());
        },
        Status::Starting { jobs, output } => {
            line.append("starting downloads with ");
            push_decimal(&mut line, *jobs as u64);
            line.append(" job(s) into ");
            line.append(output.as_str());
        },
        Status::SkipExisting(path) => {
            line.append("skip existing: ");
            line.append(path.as_str());
        },
    }
    assert(line@ =~= "[gofile-dl] "@ + status.text());
    Some(line)
}

/// A quiet run tells nothing, and only a quiet run does.
pub proof fn law_quiet_run_tells_nothing(quiet: bool, status: Status)
    ensures
        status_line(quiet, status) is None <==> quiet,
{
}

/// Every line starts alike and holds what it tells of, whole and unchanged.
pub proof fn law_lines_hold_what_they_tell(text: String, count: usize, total: u64)
    ensures
        status_line(false, Status::UsingProxy(text)) == Some(
            "[gofile-dl] using proxy "@ + text@ + " for downloads"@,
        ),
        status_line(false, Status::Scraping(text)) == Some(
            "[gofile-dl] scraping share page "@ + text@ + " in headless Chrome"@,
        ),
        status_line(false, Status::Running(text)) == Some("[gofile-dl] running "@ + text@),
        status_line(false, Status::Queued(text)) == Some("[gofile-dl] queued file "@ + text@),
        status_line(false, Status::SkipExisting(text)) == Some(
            "[gofile-dl] skip existing: "@ + text@,
        ),
        status_line(false, Status::Found { count, total }) == Some(
            "[gofile-dl] found "@ + decimal(count as nat) + " file(s), total known size "@
                + formatted_bytes(total as nat),
        ),
        status_line(false, Status::Starting { jobs: count, output: text }) == Some(
            "[gofile-dl] starting downloads with "@ + decimal(count as nat) + " job(s) into "@
                + text@,
        ),
{
    reveal_strlit("[gofile-dl] ");
    reveal_strlit("using proxy ");
    reveal_strlit("scraping share page ");
    reveal_strlit("running ");
    reveal_strlit("queued file ");
    reveal_strlit("skip existing: ");
    reveal_strlit("found ");
    reveal_strlit("starting downloads with ");
    reveal_strlit("[gofile-dl] using proxy ");
    reveal_strlit("[gofile-dl] scraping share page ");
    reveal_strlit("[gofile-dl] running ");
    reveal_strlit("[gofile-dl] queued file ");
    reveal_strlit("[gofile-dl] skip existing: ");
    reveal_strlit("[gofile-dl] found ");
    reveal_strlit("[gofile-dl] starting downloads with ");
    let start = "[gofile-dl] "@;
    assert(start + ("using proxy "@ + text@ + " for downloads"@) =~= "[gofile-dl] using proxy "@
        + text@ + " for downloads"@);
    assert(start + ("scraping share page "@ + text@ + " in headless Chrome"@)
        =~= "[gofile-dl] scraping share page "@ + text@ + " in headless Chrome"@);
    assert(start + ("running "@ + text@) =~= "[gofile-dl] running "@ + text@);
    assert(start + ("queued file "@ + text@) =~= "[gofile-dl] queued file "@ + text@);
    assert(start + ("skip existing: "@ + text@) =~= "[gofile-dl] skip existing: "@ + text@);
    assert(start + ("found "@ + decimal(count as nat) + " file(s), total known size "@
        + formatted_bytes(total as nat)) =~= "[gofile-dl] found "@ + decimal(count as nat)
        + " file(s), total known size "@ + formatted_bytes(total as nat));
    assert(start + ("starting downloads with "@ + decimal(count as nat) + " job(s) into "@ + text@)
        =~= "[gofile-dl] starting downloads with "@ + decimal(count as nat) + " job(s) into "@
        + text@);
}

} // verus!
