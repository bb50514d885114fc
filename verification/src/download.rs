//! Downloading one file, one step at a time.
//!
//! All paths are below the output directory.

use crate::content::{DownloadItem, ItemView};
use crate::paths::{parent, parent_dir, part_destination, part_path};
use crate::text::{string_view, text_view};
use vstd::prelude::*;
use vstd::string::*;

verus! {

/// How long a download may take, in seconds; zero for as long as it takes.
pub const DOWNLOAD_TIMEOUT_SECS: u64 = 0;

/// How far a download has come.
#[derive(Clone, Copy, Debug, PartialEq, Eq, Structural)]
pub enum Phase {
    /// Is the file there already?
    CheckingExisting,
    /// The folder of the file is made.
    MakingDir,
    /// The file is asked for.
    Requesting,
    /// The incomplete file is made.
    Creating,
    /// The next piece of the file is awaited.
    Reading,
    /// A piece of this many bytes is written.
    Writing(u64),
    /// The incomplete file, complete now, is flushed.
    Flushing,
    /// The file is moved into place.
    Renaming,
    /// The download is over.
    Ended,
}

/// A download.
pub struct Download {
    item: DownloadItem,
    cookie: Option<String>,
    overwrite: bool,
    phase: Phase,
}

/// The model of a download.
#[verifier::ext_equal]
pub struct DownloadView {
    pub item: ItemView,
    pub cookie: Option<Seq<char>>,
    pub overwrite: bool,
    pub phase: Phase,
}

impl View for Download {
    type V = DownloadView;

    closed spec fn view(&self) -> DownloadView {
        DownloadView {
            item: self.item@,
            cookie: string_view(self.cookie),
            overwrite: self.overwrite,
            phase: self.phase,
        }
    }
}

/// What became of what was done.
#[derive(Debug)]
pub enum DownloadEvent {
    /// Whether the file is there already.
    Existing(bool),
    /// It was done.
    Done,
    /// The server answers with the file, and may say how long it is.
    Responded {
        /// The length of the file in bytes.
        content_length: Option<u64>,
    },
    /// The next piece of the file.
    Chunk(Vec<u8>),
    /// There are no more pieces.
    EndOfStream,
    /// It could not be done.
    Failed,
}

/// The model of an event.
pub enum EventView {
    Existing(bool),
    Done,
    Responded { content_length: Option<u64> },
    Chunk(Seq<u8>),
    EndOfStream,
    Failed,
}

impl View for DownloadEvent {
    type V = EventView;

    open spec fn view(&self) -> EventView {
        match *self {
            DownloadEvent::Existing(there) => EventView::Existing(there),
            DownloadEvent::Done => EventView::Done,
            DownloadEvent::Responded { content_length } => EventView::Responded { content_length },
            DownloadEvent::Chunk(bytes) => EventView::Chunk(bytes@),
            DownloadEvent::EndOfStream => EventView::EndOfStream,
            DownloadEvent::Failed => EventView::Failed,
        }
    }
}

/// What is to be done next.
#[derive(Debug)]
pub enum DownloadAction {
    /// Find out whether the file is there.
    CheckExists(String),
    /// Make a folder, and those above it.
    CreateDir(String),
    /// Ask for the file and show a progress bar.
    Request {
        /// Where the file can be downloaded.
        url: String,
        /// The `Cookie` header.
        cookie: Option<String>,
        /// How long the download may take, in seconds.
        timeout_secs: Option<u64>,
        /// The length of the progress bar.
        bar_length: u64,
        /// The message beside the progress bar.
        bar_message: String,
    },
    /// Make the incomplete file.
    CreatePart {
        /// Its path.
        path: String,
        /// The length that the progress bar is to get.
        new_bar_length: Option<u64>,
    },
    /// Move the progress bar on, and wait for the next piece.
    Read {
        /// How far the progress bar moves.
        advance: u64,
    },
    /// Write a piece to the end of the incomplete file.
    Write(Vec<u8>),
    /// Flush and close the file.
    Flush,
    /// Move the file into place.
    Rename {
        /// The path of the incomplete file.
        from: String,
        /// The path of the file.
        to: String,
    },
    /// The file is there: show this beside the progress bar.
    Finish(String),
    /// The file was there already, and was left alone.
    Skip(String),
    /// The download failed.
    Fail,
}

/// The model of an action.
pub enum ActionView {
    CheckExists(Seq<char>),
    CreateDir(Seq<char>),
    Request {
        url: Seq<char>,
        cookie: Option<Seq<char>>,
        timeout_secs: Option<u64>,
        bar_length: u64,
        bar_message: Seq<char>,
    },
    CreatePart { path: Seq<char>, new_bar_length: Option<u64> },
    Read { advance: u64 },
    Write(Seq<u8>),
    Flush,
    Rename { from: Seq<char>, to: Seq<char> },
    Finish(Seq<char>),
    Skip(Seq<char>),
    Fail,
}

impl View for DownloadAction {
    type V = ActionView;

    open spec fn view(&self) -> ActionView {
        match *self {
            DownloadAction::CheckExists(path) => ActionView::CheckExists(path@),
            DownloadAction::CreateDir(path) => ActionView::CreateDir(path@),
            DownloadAction::Request { url, cookie, timeout_secs, bar_length, bar_message } =>
            ActionView::Request {
                url: url@,
                cookie: string_view(cookie),
                timeout_secs,
                bar_length,
                bar_message: bar_message@,
            },
            DownloadAction::CreatePart { path, new_bar_length } => ActionView::CreatePart {
                path: path@,
                new_bar_length,
            },
            DownloadAction::Read { advance } => ActionView::Read { advance },
            DownloadAction::Write(bytes) => ActionView::Write(bytes@),
            DownloadAction::Flush => ActionView::Flush,
            DownloadAction::Rename { from, to } => ActionView::Rename { from: from@, to: to@ },
            DownloadAction::Finish(message) => ActionView::Finish(message@),
            DownloadAction::Skip(path) => ActionView::Skip(path@),
            DownloadAction::Fail => ActionView::Fail,
        }
    }
}

/// The cookie that shows `token`, where there is one.
pub open spec fn token_cookie(token: Option<Seq<char>>) -> Option<Seq<char>> {
    match token {
        Some(token) if token.len() > 0 => Some("accountToken="@ + token),
        _ => None,
    }
}

/// How long a download may take, if it is limited.
pub open spec fn request_timeout() -> Option<u64> {
    if DOWNLOAD_TIMEOUT_SECS > 0 {
        Some(DOWNLOAD_TIMEOUT_SECS)
    } else {
        None
    }
}

impl DownloadView {
    /// The download in another phase.
    pub open spec fn at(self, phase: Phase) -> DownloadView {
        DownloadView { phase, ..self }
    }

    /// The length of the progress bar at first: zero where the size of the file is not known.
    pub open spec fn bar_length(self) -> u64 {
        match self.item.size {
            Some(size) => size,
            None => 0,
        }
    }

    /// The request for the file.
    pub open spec fn requested(self) -> (DownloadView, ActionView) {
        (
            self.at(Phase::Requesting),
            ActionView::Request {
                url: self.item.url,
                cookie: self.cookie,
                timeout_secs: request_timeout(),
                bar_length: self.bar_length(),
                bar_message: self.item.relative_path,
            },
        )
    }

    /// The start of the work: the folder of the file, and the request for the file where it needs
    /// no folder.
    pub open spec fn begun(self) -> (DownloadView, ActionView) {
        match parent(self.item.relative_path) {
            Some(dir) => (self.at(Phase::MakingDir), ActionView::CreateDir(dir)),
            None => self.requested(),
        }
    }

    /// The first thing to do: a file that may not be overwritten is looked for.
    pub open spec fn opened(self) -> (DownloadView, ActionView) {
        if self.overwrite {
            self.begun()
        } else {
            (
                self.at(Phase::CheckingExisting),
                ActionView::CheckExists(self.item.relative_path),
            )
        }
    }

    /// Whether `event` answers what is being done.
    pub open spec fn accepts(self, event: EventView) -> bool {
        match self.phase {
            Phase::CheckingExisting => event is Existing || event is Failed,
            Phase::MakingDir => event is Done || event is Failed,
            Phase::Requesting => event is Responded || event is Failed,
            Phase::Creating => event is Done || event is Failed,
            Phase::Reading => event is Chunk || event is EndOfStream || event is Failed,
            Phase::Writing(_) => event is Done || event is Failed,
            Phase::Flushing => event is Done || event is Failed,
            Phase::Renaming => event is Done || event is Failed,
            Phase::Ended => false,
        }
    }

    /// What follows from `event`: how far the download has come then, and what is to be done next.
    pub open spec fn next(self, event: EventView) -> (DownloadView, ActionView) {
        match (self.phase, event) {
            (Phase::CheckingExisting, EventView::Existing(true)) => (
                self.at(Phase::Ended),
                ActionView::Skip(self.item.relative_path),
            ),
            (Phase::CheckingExisting, EventView::Existing(false)) => self.begun(),
            (Phase::MakingDir, EventView::Done) => self.requested(),
            (Phase::Requesting, EventView::Responded { content_length }) => (
                self.at(Phase::Creating),
                ActionView::CreatePart {
                    path: part_path(self.item.relative_path),
                    new_bar_length: if self.bar_length() == 0 {
                        content_length
                    } else {
                        None
                    },
                },
            ),
            (Phase::Creating, EventView::Done) => (
                self.at(Phase::Reading),
                ActionView::Read { advance: 0 },
            ),
            (Phase::Reading, EventView::Chunk(bytes)) => (
                self.at(Phase::Writing(bytes.len() as u64)),
                ActionView::Write(bytes),
            ),
            (Phase::Writing(advance), EventView::Done) => (
                self.at(Phase::Reading),
                ActionView::Read { advance },
            ),
            (Phase::Reading, EventView::EndOfStream) => (
                self.at(Phase::Flushing),
                ActionView::Flush,
            ),
            (Phase::Flushing, EventView::Done) => (
                self.at(Phase::Renaming),
                ActionView::Rename {
                    from: part_path(self.item.relative_path),
                    to: self.item.relative_path,
                },
            ),
            (Phase::Renaming, EventView::Done) => (
                self.at(Phase::Ended),
                ActionView::Finish("done "@ + self.item.relative_path),
            ),
            (_, _) => (self.at(Phase::Ended), ActionView::Fail),
        }
    }
}

impl Download {
    /// Starts the download of `item`, with the token of an account where there is one.
    pub fn start(item: DownloadItem, account_token: Option<&str>, overwrite: bool) -> (res: (
        Download,
        DownloadAction,
    ))
        ensures
            (res.0@, res.1@) == (DownloadView {
                item: item@,
                cookie: token_cookie(text_view(account_token)),
                overwrite,
                phase: Phase::CheckingExisting,
            }).opened(),
    {
        let cookie: Option<String> = match account_token {
            Some(token) => if token.is_empty() {
                None
            } else {
                let mut text = "accountToken=".to_owned();
                text.append(token);
                Some(text)
            },
            None => None,
        };
        let mut download = Download { item, cookie, overwrite, phase: Phase::CheckingExisting };
        assert(download@.cookie == token_cookie(text_view(account_token)));
        let action = if overwrite {
            download.begin()
        } else {
            DownloadAction::CheckExists(download.item.relative_path.clone())
        };
        (download, action)
    }

    fn begin(&mut self) -> (action: DownloadAction)
        ensures
            (final(self)@, action@) == old(self)@.begun(),
    {
        match parent_dir(self.item.relative_path.as_str()) {
            Some(dir) => {
                self.phase = Phase::MakingDir;
                DownloadAction::CreateDir(dir)
            },
            None => self.request(),
        }
    }

    fn bar_length(&self) -> (res: u64)
        ensures
            res == self@.bar_length(),
    {
        match self.item.size {
            Some(size) => size,
            None => 0,
        }
    }

    fn request(&mut self) -> (action: DownloadAction)
        ensures
            (final(self)@, action@) == old(self)@.requested(),
    {
        self.phase = Phase::Requesting;
        DownloadAction::Request {
            url: self.item.url.clone(),
            cookie: self.cookie.clone(),
            timeout_secs: if DOWNLOAD_TIMEOUT_SECS > 0 {
                Some(DOWNLOAD_TIMEOUT_SECS)
            } else {
                None
            },
            bar_length: self.bar_length(),
            bar_message: self.item.relative_path.clone(),
        }
    }

    /// How far the download has come.
    pub fn phase(&self) -> (res: Phase)
        ensures
            res == self@.phase,
    {
        self.phase
    }

    /// Takes the answer to what was being done, and says what is to be done next.
    pub fn advance(&mut self, event: DownloadEvent) -> (action: DownloadAction)
        requires
            old(self)@.accepts(event@),
        ensures
            (final(self)@, action@) == old(self)@.next(event@),
    {
        match (self.phase, event) {
            (Phase::CheckingExisting, DownloadEvent::Existing(there)) => {
                if there {
                    self.phase = Phase::Ended;
                    DownloadAction::Skip(self.item.relative_path.clone())
                } else {
                    self.begin()
                }
            },
            (Phase::MakingDir, DownloadEvent::Done) => self.request(),
            (Phase::Requesting, DownloadEvent::Responded { content_length }) => {
                self.phase = Phase::Creating;
                DownloadAction::CreatePart {
                    path: part_destination(self.item.relative_path.as_str()),
                    new_bar_length: if self.bar_length() == 0 {
                        content_length
                    } else {
                        None
                    },
                }
            },
            (Phase::Creating, DownloadEvent::Done) => {
                self.phase = Phase::Reading;
                DownloadAction::Read { advance: 0 }
            },
            (Phase::Reading, DownloadEvent::Chunk(bytes)) => {
                self.phase = Phase::Writing(bytes.len() as u64);
                DownloadAction::Write(bytes)
            },
            (Phase::Writing(advance), DownloadEvent::Done) => {
                self.phase = Phase::Reading;
                DownloadAction::Read { advance }
            },
            (Phase::Reading, DownloadEvent::EndOfStream) => {
                self.phase = Phase::Flushing;
                DownloadAction::Flush
            },
            (Phase::Flushing, DownloadEvent::Done) => {
                self.phase = Phase::Renaming;
                DownloadAction::Rename {
                    from: part_destination(self.item.relative_path.as_str()),
                    to: self.item.relative_path.clone(),
                }
            },
            (Phase::Renaming, DownloadEvent::Done) => {
                self.phase = Phase::Ended;
                let mut message = "done ".to_owned();
                message.append(self.item.relative_path.as_str());
                DownloadAction::Finish(message)
            },
            (_, _) => {
                self.phase = Phase::Ended;
                DownloadAction::Fail
            },
        }
    }
}

/// Whether each of `events` answers what is being done when it comes.
pub open spec fn all_accepted(start: DownloadView, events: Seq<EventView>) -> bool
    decreases events.len(),
{
    events.len() > 0 ==> all_accepted(start, events.drop_last()) && reached(
        start,
        events.drop_last(),
    ).accepts(events.last())
}

/// How far the download has come after `events`.
pub open spec fn reached(start: DownloadView, events: Seq<EventView>) -> DownloadView
    decreases events.len(),
{
    if events.len() == 0 {
        start.opened().0
    } else {
        reached(start, events.drop_last()).next(events.last()).0
    }
}

/// What was to be done up to `events`, the latest one last.
pub open spec fn performed(start: DownloadView, events: Seq<EventView>) -> Seq<ActionView>
    decreases events.len(),
{
    if events.len() == 0 {
        seq![start.opened().1]
    } else {
        performed(start, events.drop_last()).push(
            reached(start, events.drop_last()).next(events.last()).1,
        )
    }
}

/// The pieces of the file that came, put together.
pub open spec fn received(events: Seq<EventView>) -> Seq<u8>
    decreases events.len(),
{
    if events.len() == 0 {
        seq![]
    } else {
        match events.last() {
            EventView::Chunk(bytes) => received(events.drop_last()) + bytes,
            _ => received(events.drop_last()),
        }
    }
}

/// The pieces of the file that were to be written, put together.
pub open spec fn written(actions: Seq<ActionView>) -> Seq<u8>
    decreases actions.len(),
{
    if actions.len() == 0 {
        seq![]
    } else {
        match actions.last() {
            ActionView::Write(bytes) => written(actions.drop_last()) + bytes,
            _ => written(actions.drop_last()),
        }
    }
}

/// How far the progress bar was to move in all.
pub open spec fn advanced(actions: Seq<ActionView>) -> nat
    decreases actions.len(),
{
    if actions.len() == 0 {
        0
    } else {
        match actions.last() {
            ActionView::Read { advance } => advanced(actions.drop_last()) + advance as nat,
            _ => advanced(actions.drop_last()),
        }
    }
}

/// Whether every piece fits into memory.
pub open spec fn pieces_fit(events: Seq<EventView>) -> bool {
    forall|i: int| 0 <= i < events.len() && (#[trigger] events[i]) is Chunk ==> events[i]->Chunk_0.len()
        <= usize::MAX
}

/// Whether the file may be touched: it may be overwritten, or was found missing.
pub open spec fn may_touch(start: DownloadView, events: Seq<EventView>) -> bool {
    start.overwrite || (events.len() > 0 && events[0] == EventView::Existing(false))
}

proof fn lemma_first_action(start: DownloadView)
    ensures
        written(performed(start, seq![])) == Seq::<u8>::empty(),
        advanced(performed(start, seq![])) == 0,
{
    let actions = performed(start, seq![]);
    assert(actions.drop_last() =~= Seq::<ActionView>::empty());
    assert(written(actions.drop_last()) =~= Seq::<u8>::empty());
    assert(advanced(actions.drop_last()) == 0);
}

proof fn lemma_progress(start: DownloadView, events: Seq<EventView>)
    requires
        all_accepted(start, events),
    ensures
        reached(start, events) == start.at(reached(start, events).phase),
        performed(start, events).len() == events.len() + 1,
        written(performed(start, events)) == received(events),
        ({
            let phase = reached(start, events).phase;
            &&& phase == Phase::CheckingExisting ==> events.len() == 0 && !start.overwrite
            &&& phase != Phase::CheckingExisting && phase != Phase::Ended ==> may_touch(
                start,
                events,
            )
            &&& phase == Phase::Flushing ==> events.len() > 0 && events.last()
                == EventView::EndOfStream
            &&& phase == Phase::Renaming ==> performed(start, events).last() is Rename
        }),
    decreases events.len(),
{
    if events.len() == 0 {
        lemma_first_action(start);
        assert(events =~= seq![]);
    } else {
        let before = events.drop_last();
        lemma_progress(start, before);
        let actions = performed(start, events);
        assert(actions.drop_last() =~= performed(start, before));
        if before.len() > 0 {
            assert(events[0] == before[0]);
        } else {
            assert(events[0] == events.last());
        }
    }
}

/// A file is moved into place only after all of its pieces came, were written to the incomplete
/// file in the order in which they came, and were flushed: what is at its place is never a part
/// of it.
pub proof fn law_only_whole_files_are_moved_into_place(
    start: DownloadView,
    events: Seq<EventView>,
    event: EventView,
)
    requires
        all_accepted(start, events),
        reached(start, events).accepts(event),
        reached(start, events).next(event).1 is Rename,
    ensures
        events.len() > 0 && events.last() == EventView::EndOfStream,
        event == EventView::Done,
        performed(start, events).last() == ActionView::Flush,
        written(performed(start, events)) == received(events),
        reached(start, events).next(event).1 == (ActionView::Rename {
            from: part_path(start.item.relative_path),
            to: start.item.relative_path,
        }),
{
    lemma_progress(start, events);
    lemma_progress(start, events.drop_last());
}

/// A file that is there is left alone unless it may be overwritten: without leave, nothing but
/// looking for it is done before it was found missing.
pub proof fn law_existing_file_is_left_alone(
    start: DownloadView,
    events: Seq<EventView>,
    event: EventView,
)
    requires
        all_accepted(start, events),
        reached(start, events).accepts(event),
        !start.overwrite,
    ensures
        start.opened().1 == ActionView::CheckExists(start.item.relative_path),
        events.len() == 0 && event == EventView::Existing(true) ==> reached(start, events).next(
            event,
        ) == (start.at(Phase::Ended), ActionView::Skip(start.item.relative_path)),
        ({
            let action = reached(start, events).next(event).1;
            action is Skip || action is Fail || may_touch(start, events.push(event))
        }),
{
    lemma_progress(start, events);
    if events.len() > 0 {
        assert(events.push(event)[0] == events[0]);
    }
}

/// A download counts as finished only once the file was moved into place.
pub proof fn law_finished_means_in_place(
    start: DownloadView,
    events: Seq<EventView>,
    event: EventView,
)
    requires
        all_accepted(start, events),
        reached(start, events).accepts(event),
        reached(start, events).next(event).1 is Finish,
    ensures
        performed(start, events).last() is Rename,
        event == EventView::Done,
{
    lemma_progress(start, events);
}

/// While the next piece is awaited, the progress bar stands at the number of bytes written.
pub proof fn law_progress_counts_the_bytes(start: DownloadView, events: Seq<EventView>)
    requires
        all_accepted(start, events),
        pieces_fit(events),
        reached(start, events).phase == Phase::Reading,
    ensures
        advanced(performed(start, events)) == written(performed(start, events)).len(),
{
    lemma_advance(start, events);
}

proof fn lemma_advance(start: DownloadView, events: Seq<EventView>)
    requires
        all_accepted(start, events),
        pieces_fit(events),
    ensures
        ({
            let done = advanced(performed(start, events));
            let all = written(performed(start, events)).len();
            match reached(start, events).phase {
                Phase::Writing(pending) => done + pending == all,
                Phase::Ended => true,
                _ => done == all,
            }
        }),
        match reached(start, events).phase {
            Phase::CheckingExisting | Phase::MakingDir | Phase::Requesting | Phase::Creating =>
            advanced(performed(start, events)) == 0,
            _ => true,
        },
    decreases events.len(),
{
    if events.len() == 0 {
        lemma_first_action(start);
        assert(events =~= seq![]);
    } else {
        let before = events.drop_last();
        assert forall|i: int| 0 <= i < before.len() && (#[trigger] before[i]) is Chunk implies before[i]->Chunk_0.len()
            <= usize::MAX by {
            assert(before[i] == events[i]);
        }
        lemma_advance(start, before);
        let actions = performed(start, events);
        assert(actions.drop_last() =~= performed(start, before));
        assert(events.last() == events[events.len() - 1]);
    }
}

} // verus!
