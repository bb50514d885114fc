//! A run: from the tree of a share to the outcome of its downloads.

use crate::content::{
    entry_name, item_views, list_downloads_from_content, listed, local_name, name_of, Content,
    DownloadItem, ItemView,
};
use crate::listing::{
    below, law_downloads_stay_below_the_root, law_every_linked_file_is_listed_once,
    lemma_local_name_is_safe, linked_files, source,
};
use crate::names::{safe_component, sanitized};
use crate::text::{decimal, lemma_trimmed_blank, push_decimal, texts, trimmed};
use crate::units::{format_bytes, formatted_bytes};
use vstd::prelude::*;
use vstd::string::*;

verus! {

/// Why a run did not succeed.
#[derive(Clone, Copy, Debug, PartialEq, Eq, Structural)]
pub enum RunError {
    /// The share holds no file that can be downloaded.
    NothingToDownload,
    /// This many downloads failed.
    DownloadsFailed(usize),
}

impl RunError {
    /// The message for the user.
    pub open spec fn text(self) -> Seq<char> {
        match self {
            RunError::NothingToDownload => "no downloadable files found in this Gofile content"@,
            RunError::DownloadsFailed(count) => decimal(count as nat) + " download(s) failed"@,
        }
    }

    /// The message for the user.
    pub fn message(&self) -> (res: String)
        ensures
            res@ == self.text(),
    {
        match self {
            RunError::NothingToDownload => "no downloadable files found in this Gofile content".to_owned(),
            RunError::DownloadsFailed(count) => {
                let mut message = String::new();
                push_decimal(&mut message, *count as u64);
                message.append(" download(s) failed");
                assert(message@ =~= self.text());
                message
            },
        }
    }
}

/// The folder that the files of a share go to: the local name of its root.
pub open spec fn root_folder(root: Content, content_id: Seq<char>) -> Seq<char> {
    local_name(content_id, name_of(root))
}

/// The files to download of the share with the identifier `content_id`, whose tree is `root`.
pub fn plan_downloads(root: Content, content_id: &str) -> (res: Result<
    Vec<DownloadItem>,
    RunError,
>)
    ensures
        ({
            let items = listed(root, root_folder(root, content_id@));
            match res {
                Ok(planned) => items.len() > 0 && item_views(planned@) == items,
                Err(error) => items.len() == 0 && error == RunError::NothingToDownload,
            }
        }),
{
    let root_name = entry_name(content_id, &root.name);
    let items = list_downloads_from_content(root, root_name);
    assert(item_views(items@).len() == items@.len());
    if items.len() == 0 {
        Err(RunError::NothingToDownload)
    } else {
        Ok(items)
    }
}

/// The sum of the sizes that are known.
pub open spec fn known_size(items: Seq<ItemView>) -> nat
    decreases items.len(),
{
    if items.len() == 0 {
        0
    } else {
        known_size(items.drop_last()) + match items.last().size {
            Some(size) => size as nat,
            None => 0,
        }
    }
}

/// The sum of the sizes that are known, unless it does not fit.
pub fn total_known_size(items: &Vec<DownloadItem>) -> (res: Option<u64>)
    ensures
        res is Some <==> known_size(item_views(items@)) <= u64::MAX,
        res matches Some(total) ==> total == known_size(item_views(items@)),
{
    let ghost all = item_views(items@);
    let mut total: u64 = 0;
    let mut i: usize = 0;
    while i < items.len()
        invariant
            all == item_views(items@),
            i <= items@.len(),
            total == known_size(all.take(i as int)),
        decreases items@.len() - i,
    {
        proof {
            assert(all.take(i + 1).drop_last() =~= all.take(i as int));
            assert(all.take(i + 1).last() == items@[i as int]@);
            lemma_known_size_grows(all, i + 1);
        }
        if let Some(size) = items[i].size {
            match total.checked_add(size) {
                Some(sum) => {
                    total = sum;
                },
                None => {
                    return None;
                },
            }
        }
        i = i + 1;
    }
    assert(all.take(i as int) =~= all);
    Some(total)
}

proof fn lemma_known_size_grows(items: Seq<ItemView>, to: int)
    requires
        0 <= to <= items.len(),
    ensures
        known_size(items.take(to)) <= known_size(items),
    decreases items.len(),
{
    if to == items.len() {
        assert(items.take(to) =~= items);
    } else {
        lemma_known_size_grows(items.drop_last(), to);
        assert(items.drop_last().take(to) =~= items.take(to));
    }
}

/// How many downloads run at a time: as many as were asked for, but at least one.
pub open spec fn used_jobs(jobs: usize) -> usize {
    if jobs == 0 {
        1
    } else {
        jobs
    }
}

/// The line of a file in a list: where it goes, and its size where that is known.
pub open spec fn item_line(item: ItemView) -> Seq<char> {
    match item.size {
        Some(size) => item.relative_path + seq!['\t'] + formatted_bytes(size as nat),
        None => item.relative_path,
    }
}

/// The last line of a list of `count` files.
pub open spec fn count_line(count: nat) -> Seq<char> {
    decimal(count) + " file(s)"@
}

/// The lines of a list of files: one for each file, then their number.
pub open spec fn list_lines(items: Seq<ItemView>) -> Seq<Seq<char>> {
    items.map_values(|item: ItemView| item_line(item)).push(count_line(items.len()))
}

/// What a run does with the files that it found.
#[derive(Debug)]
pub enum NextStep {
    /// Print these lines and stop.
    List(Vec<String>),
    /// Download the files.
    Download {
        /// How many downloads run at a time.
        jobs: usize,
    },
}

/// The model of what a run does.
pub enum StepView {
    List(Seq<Seq<char>>),
    Download { jobs: usize },
}

impl View for NextStep {
    type V = StepView;

    open spec fn view(&self) -> StepView {
        match *self {
            NextStep::List(lines) => StepView::List(texts(lines@)),
            NextStep::Download { jobs } => StepView::Download { jobs },
        }
    }
}

/// What a run does with the files that it found: a dry run lists them.
pub open spec fn step_after_plan(items: Seq<ItemView>, dry_run: bool, jobs: usize) -> StepView {
    if dry_run {
        StepView::List(list_lines(items))
    } else {
        StepView::Download { jobs: used_jobs(jobs) }
    }
}

fn line_of(item: &DownloadItem) -> (res: String)
    ensures
        res@ == item_line(item@),
{
    let mut line = item.relative_path.clone();
    if let Some(size) = item.size {
        line.push('\t');
        line.append(format_bytes(size).as_str());
        assert(line@ =~= item_line(item@));
    }
    line
}

/// What a run does with `items`, the files that it found.
pub fn next_step(items: &Vec<DownloadItem>, dry_run: bool, jobs: usize) -> (res: NextStep)
    ensures
        res@ == step_after_plan(item_views(items@), dry_run, jobs),
{
    if !dry_run {
        return NextStep::Download {
            jobs: if jobs == 0 {
                1
            } else {
                jobs
            },
        };
    }
    let ghost all = item_views(items@);
    let ghost line = |item: ItemView| item_line(item);
    let mut lines: Vec<String> = Vec::new();
    let mut i: usize = 0;
    while i < items.len()
        invariant
            all == item_views(items@),
            i <= items@.len(),
            texts(lines@) == all.take(i as int).map_values(line),
            line == |item: ItemView| item_line(item),
        decreases items@.len() - i,
    {
        let ghost before = texts(lines@);
        lines.push(line_of(&items[i]));
        proof {
            let added = item_line(items@[i as int]@);
            assert(texts(lines@) =~= before.push(added));
            assert(all.take(i + 1).map_values(line) =~= all.take(i as int).map_values(line).push(
                added,
            ));
        }
        i = i + 1;
    }
    assert(all.take(i as int) =~= all);
    let mut last = String::new();
    push_decimal(&mut last, items.len() as u64);
    last.append(" file(s)");
    assert(last@ =~= count_line(all.len()));
    lines.push(last);
    assert(texts(lines@) =~= list_lines(all));
    NextStep::List(lines)
}

/// The line about a download that failed.
pub open spec fn failure_line(path: Seq<char>, error: Seq<char>) -> Seq<char> {
    "failed: "@ + path + ": "@ + error
}

/// The lines about the downloads that failed.
pub open spec fn failure_lines(failures: Seq<(String, String)>) -> Seq<Seq<char>> {
    failures.map_values(|failure: (String, String)| failure_line(failure.0@, failure.1@))
}

/// How a run ended.
#[derive(Debug)]
pub struct Conclusion {
    /// The lines about the downloads that failed.
    pub lines: Vec<String>,
    /// What to say of a run that succeeded, or why it did not.
    pub outcome: Result<String, RunError>,
}

/// How a run ended, given the paths and errors of the downloads that failed.
pub fn conclude(failures: &Vec<(String, String)>) -> (res: Conclusion)
    ensures
        texts(res.lines@) == failure_lines(failures@),
        failures@.len() == 0 ==> (res.outcome matches Ok(message) && message@
            == "download complete"@),
        failures@.len() > 0 ==> res.outcome == Err::<String, RunError>(
            RunError::DownloadsFailed(failures@.len() as usize),
        ),
{
    let mut lines: Vec<String> = Vec::new();
    let mut i: usize = 0;
    while i < failures.len()
        invariant
            i <= failures@.len(),
            texts(lines@) == failure_lines(failures@.take(i as int)),
        decreases failures@.len() - i,
    {
        let mut line = "failed: ".to_owned();
        line.append(failures[i].0.as_str());
        line.append(": ");
        line.append(failures[i].1.as_str());
        assert(line@ =~= failure_line(failures@[i as int].0@, failures@[i as int].1@));
        let ghost before = texts(lines@);
        let ghost added = line@;
        lines.push(line);
        assert(texts(lines@) =~= before.push(added));
        assert(failure_lines(failures@.take(i + 1)) =~= failure_lines(
            failures@.take(i as int),
        ).push(added));
        i = i + 1;
    }
    assert(failures@.take(i as int) =~= failures@);
    let outcome: Result<String, RunError> = if failures.len() == 0 {
        Ok("download complete".to_owned())
    } else {
        Err(RunError::DownloadsFailed(failures.len()))
    };
    Conclusion { lines, outcome }
}

/// The sum of the sizes that are known of links and sizes.
pub open spec fn linked_size(sources: Seq<(Seq<char>, Option<u64>)>) -> nat
    decreases sources.len(),
{
    if sources.len() == 0 {
        0
    } else {
        linked_size(sources.drop_last()) + match sources.last().1 {
            Some(size) => size as nat,
            None => 0,
        }
    }
}

/// The total of a share is that of its files with a link, wherever they go.
pub proof fn law_total_is_that_of_the_linked_files(content: Content, base: Seq<char>)
    ensures
        known_size(listed(content, base)) == linked_size(linked_files(content)),
{
    law_every_linked_file_is_listed_once(content, base);
    lemma_known_size_of_sources(listed(content, base));
}

proof fn lemma_known_size_of_sources(items: Seq<ItemView>)
    ensures
        known_size(items) == linked_size(items.map_values(|item: ItemView| source(item))),
    decreases items.len(),
{
    let sources = items.map_values(|item: ItemView| source(item));
    if items.len() > 0 {
        lemma_known_size_of_sources(items.drop_last());
        assert(sources.drop_last() =~= items.drop_last().map_values(
            |item: ItemView| source(item),
        ));
        assert(sources.last() == source(items.last()));
    }
}

/// A dry run downloads nothing: it lists every file once, in order, and their number. Any other
/// run downloads, at least one file at a time.
pub proof fn law_dry_run_only_lists(items: Seq<ItemView>, dry_run: bool, jobs: usize)
    ensures
        dry_run ==> step_after_plan(items, dry_run, jobs) == StepView::List(list_lines(items)),
        dry_run ==> list_lines(items).len() == items.len() + 1,
        dry_run ==> forall|i: int|
            0 <= i < items.len() ==> #[trigger] list_lines(items)[i] == item_line(items[i]),
        !dry_run ==> (step_after_plan(items, dry_run, jobs) matches StepView::Download { jobs: used }
            && used >= 1 && used >= jobs),
{
}

/// All files of a share go into one folder of the output directory, whose name is a single
/// component, and below it through single components.
pub proof fn law_files_go_into_one_folder(root: Content, content_id: Seq<char>)
    ensures
        safe_component(root_folder(root, content_id)),
        forall|i: int|
            0 <= i < listed(root, root_folder(root, content_id)).len() ==> below(
                root_folder(root, content_id),
                (#[trigger] listed(root, root_folder(root, content_id))[i]).relative_path,
            ),
{
    lemma_local_name_is_safe(content_id, name_of(root));
    law_downloads_stay_below_the_root(root, root_folder(root, content_id));
}

/// A run that downloads runs exactly as many downloads at a time as were asked for, and one where
/// none was.
pub proof fn law_as_many_jobs_as_asked_for(items: Seq<ItemView>, jobs: usize)
    ensures
        jobs >= 1 ==> step_after_plan(items, false, jobs) == (StepView::Download { jobs }),
        jobs == 0 ==> step_after_plan(items, false, jobs) == (StepView::Download { jobs: 1 }),
{
}

/// The list of a dry run: one more file adds its line after those of the others and one to their
/// number, which is the last line. The line of a file is where it goes, and its size after a tab
/// where that is known.
pub proof fn law_lines_of_a_dry_run(items: Seq<ItemView>, item: ItemView, jobs: usize)
    ensures
        step_after_plan(items, true, jobs) matches StepView::List(lines)
            && step_after_plan(items.push(item), true, jobs) matches StepView::List(longer)
            && longer.len() == lines.len() + 1 && longer.take(lines.len() - 1) == lines.drop_last()
            && longer.last() == decimal((items.len() + 1) as nat) + " file(s)"@
            && longer[longer.len() - 2] == (match item.size {
            Some(size) => item.relative_path + "\t"@ + formatted_bytes(size as nat),
            None => item.relative_path,
        }),
        step_after_plan(seq![], true, jobs) matches StepView::List(lines) && lines.len() == 1
            && lines[0] == decimal(0) + " file(s)"@,
{
    reveal_strlit("\t");
    assert("\t"@ =~= seq!['\t']);
    let lines = list_lines(items);
    let longer = list_lines(items.push(item));
    assert(longer.take(lines.len() - 1) =~= lines.drop_last());
    assert(longer[longer.len() - 2] == item_line(item));
}

/// Sizes add up: one more file adds its size, or nothing where that is not known.
pub proof fn law_sizes_add_up(items: Seq<ItemView>, item: ItemView)
    ensures
        known_size(seq![]) == 0,
        item.size matches Some(size) ==> known_size(items.push(item)) == known_size(items) + size,
        item.size is None ==> known_size(items.push(item)) == known_size(items),
{
    assert(items.push(item).drop_last() =~= items);
}

/// The files of a share go into the folder of its name, or of its identifier where the name is
/// missing or blank.
pub proof fn law_folder_of_a_share(root: Content, content_id: Seq<char>)
    ensures
        root.name is None ==> root_folder(root, content_id) == sanitized(content_id),
        root.name matches Some(name) ==> root_folder(root, content_id) == (if trimmed(name@).len()
            > 0 {
            sanitized(name@)
        } else {
            sanitized(content_id)
        }),
{
    if let Some(name) = root.name {
        lemma_trimmed_blank(name@);
    }
}

/// Every download that failed has its own line, with its path and its error, in order.
pub proof fn law_lines_of_failures(failures: Seq<(String, String)>, i: int)
    requires
        0 <= i < failures.len(),
    ensures
        failure_lines(failures).len() == failures.len(),
        failure_lines(failures)[i] == "failed: "@ + failures[i].0@ + ": "@ + failures[i].1@,
{
}

/// The messages of a run, and the model of what it does.
pub proof fn law_messages_of_a_run(count: usize, lines: Vec<String>)
    ensures
        RunError::NothingToDownload.text() == "no downloadable files found in this Gofile content"@,
        RunError::DownloadsFailed(count).text() == decimal(count as nat) + " download(s) failed"@,
        (NextStep::Download { jobs: count })@ == (StepView::Download { jobs: count }),
        NextStep::List(lines)@ matches StepView::List(model) && model.len() == lines@.len()
            && forall|i: int| 0 <= i < lines@.len() ==> #[trigger] model[i] == lines@[i]@,
{
}

} // verus!
