//! What holds of every download, from the first step to the last.

use crate::download::{
    token_cookie, ActionView, DownloadAction, DownloadEvent, DownloadView, EventView, Phase,
};
use crate::paths::{parent, part_path};
use vstd::prelude::*;
use vstd::string::*;

verus! {

/// A download fails by a failure, and by nothing else: not by what the file is, where it goes or how
/// long its pieces are.
pub proof fn law_download_fails_by_a_failure_alone(view: DownloadView, event: EventView)
    requires
        view.accepts(event),
    ensures
        view.next(event).1 is Fail <==> event is Failed,
        event is Failed ==> view.next(event).0.phase == Phase::Ended,
{
}

/// What a download is about stays the same from step to step.
pub proof fn law_download_keeps_its_subject(view: DownloadView, event: EventView)
    ensures
        view.next(event).0.item == view.item,
        view.next(event).0.cookie == view.cookie,
        view.next(event).0.overwrite == view.overwrite,
        view.opened().0.item == view.item,
        view.opened().0.cookie == view.cookie,
        view.opened().0.overwrite == view.overwrite,
{
}

/// What answers are taken in each phase: a failure in all of them but the last.
pub proof fn law_answers_in_each_phase(view: DownloadView, event: EventView)
    ensures
        event is Failed ==> (view.accepts(event) <==> view.phase != Phase::Ended),
        event is Existing ==> (view.accepts(event) <==> view.phase == Phase::CheckingExisting),
        event is Responded ==> (view.accepts(event) <==> view.phase == Phase::Requesting),
        event is Chunk || event is EndOfStream ==> (view.accepts(event) <==> view.phase
            == Phase::Reading),
        event is Done ==> (view.accepts(event) <==> view.phase == Phase::MakingDir || view.phase
            == Phase::Creating || view.phase is Writing || view.phase == Phase::Flushing
            || view.phase == Phase::Renaming),
{
}

/// Every token makes a cookie, unless it is empty.
pub proof fn law_token_makes_a_cookie(token: Seq<char>)
    ensures
        token_cookie(None) is None,
        token.len() == 0 ==> token_cookie(Some(token)) is None,
        token.len() > 0 ==> token_cookie(Some(token)) == Some("accountToken="@ + token),
{
}

/// Whether `action` asks for the file of `view`: at its URL, with the cookie, for as long as it
/// takes, with a progress bar as long as the size that is known and with the path beside it.
pub open spec fn asks_for_the_file(view: DownloadView, action: ActionView) -> bool {
    action matches ActionView::Request { url, cookie, timeout_secs, bar_length, bar_message }
        && url == view.item.url && cookie == view.cookie && timeout_secs is None && bar_message
        == view.item.relative_path && (view.item.size is None ==> bar_length == 0) && (
    view.item.size is Some ==> bar_length == view.item.size->0)
}

/// A file that may be overwritten is asked for without a look at what is there; any other file is
/// looked for first, and asked for where it is missing, or else passed over. The folder of the file
/// is made before it is asked for.
pub proof fn law_missing_file_is_asked_for(start: DownloadView)
    ensures
        !start.overwrite ==> start.opened().1 == ActionView::CheckExists(start.item.relative_path)
            && start.opened().0.phase == Phase::CheckingExisting,
        !start.overwrite ==> start.opened().0.next(EventView::Existing(true)).1 == ActionView::Skip(
            start.item.relative_path,
        ) && start.opened().0.next(EventView::Existing(true)).0.phase == Phase::Ended,
        ({
            let (view, action) = if start.overwrite {
                start.opened()
            } else {
                start.opened().0.next(EventView::Existing(false))
            };
            match parent(start.item.relative_path) {
                Some(dir) => {
                    &&& action == ActionView::CreateDir(dir)
                    &&& view.phase == Phase::MakingDir
                    &&& asks_for_the_file(start, view.next(EventView::Done).1)
                    &&& view.next(EventView::Done).0.phase == Phase::Requesting
                },
                None => asks_for_the_file(start, action) && view.phase == Phase::Requesting,
            }
        }),
{
}

/// Every piece is written as it came, whatever its length; then the progress bar moves on by that
/// length, and the next piece is awaited as before.
pub proof fn law_every_piece_is_written(view: DownloadView, bytes: Seq<u8>)
    requires
        view.phase == Phase::Reading,
        bytes.len() <= u64::MAX,
    ensures
        view.next(EventView::Chunk(bytes)).1 == ActionView::Write(bytes),
        view.next(EventView::Chunk(bytes)).0.accepts(EventView::Done),
        view.next(EventView::Chunk(bytes)).0.next(EventView::Done).1 is Read,
        view.next(EventView::Chunk(bytes)).0.next(EventView::Done).1->advance == bytes.len(),
        view.next(EventView::Chunk(bytes)).0.next(EventView::Done).0 == view,
{
}

/// Where a download that awaits pieces is after `pieces` came and were written.
pub open spec fn after_pieces(view: DownloadView, pieces: Seq<Seq<u8>>) -> DownloadView
    decreases pieces.len(),
{
    if pieces.len() == 0 {
        view
    } else {
        after_pieces(view, pieces.drop_last()).next(EventView::Chunk(pieces.last())).0.next(
            EventView::Done,
        ).0
    }
}

proof fn lemma_pieces_change_nothing(view: DownloadView, pieces: Seq<Seq<u8>>)
    requires
        view.phase == Phase::Reading,
        forall|i: int| 0 <= i < pieces.len() ==> (#[trigger] pieces[i]).len() <= u64::MAX,
    ensures
        after_pieces(view, pieces) == view,
    decreases pieces.len(),
{
    if pieces.len() > 0 {
        let rest = pieces.drop_last();
        assert forall|i: int| 0 <= i < rest.len() implies (#[trigger] rest[i]).len()
            <= u64::MAX by {
            assert(rest[i] == pieces[i]);
        }
        lemma_pieces_change_nothing(view, rest);
        assert(pieces.last() == pieces[pieces.len() - 1]);
        law_every_piece_is_written(view, pieces.last());
    }
}

/// A file that the server sends is downloaded: whatever the number and the lengths of its pieces are,
/// the incomplete file is made, takes the pieces, is flushed and is moved to the place of the file,
/// and the download is then finished. The length that the server tells counts where none was known.
pub proof fn law_every_stream_is_downloaded(
    view: DownloadView,
    content_length: Option<u64>,
    pieces: Seq<Seq<u8>>,
)
    requires
        view.phase == Phase::Requesting,
        forall|i: int| 0 <= i < pieces.len() ==> (#[trigger] pieces[i]).len() <= u64::MAX,
    ensures
        ({
            let path = view.item.relative_path;
            let (creating, create) = view.next(EventView::Responded { content_length });
            let (reading, read) = creating.next(EventView::Done);
            let fed = after_pieces(reading, pieces);
            let (flushing, flush) = fed.next(EventView::EndOfStream);
            let (renaming, rename) = flushing.next(EventView::Done);
            let (ended, finish) = renaming.next(EventView::Done);
            &&& create == (ActionView::CreatePart {
                path: part_path(path),
                new_bar_length: if view.item.size is None || view.item.size == Some(0u64) {
                    content_length
                } else {
                    None
                },
            })
            &&& creating.accepts(EventView::Done)
            &&& read == (ActionView::Read { advance: 0 })
            &&& reading.phase == Phase::Reading
            &&& fed.accepts(EventView::EndOfStream)
            &&& flush == ActionView::Flush
            &&& flushing.accepts(EventView::Done)
            &&& rename == (ActionView::Rename { from: part_path(path), to: path })
            &&& renaming.accepts(EventView::Done)
            &&& finish == ActionView::Finish("done "@ + path)
            &&& ended.phase == Phase::Ended
        }),
{
    let reading = view.next(EventView::Responded { content_length }).0.next(EventView::Done).0;
    lemma_pieces_change_nothing(reading, pieces);
}

/// The models of answers and actions show all that they hold.
pub proof fn law_models_of_steps(event: DownloadEvent, action: DownloadAction)
    ensures
        event matches DownloadEvent::Existing(there) ==> event@ == EventView::Existing(there),
        event is Done ==> event@ == EventView::Done,
        event matches DownloadEvent::Responded { content_length } ==> event@ == (
        EventView::Responded { content_length }),
        event matches DownloadEvent::Chunk(bytes) ==> event@ == EventView::Chunk(bytes@),
        event is EndOfStream ==> event@ == EventView::EndOfStream,
        event is Failed ==> event@ == EventView::Failed,
        action matches DownloadAction::CheckExists(path) ==> action@ == ActionView::CheckExists(
            path@,
        ),
        action matches DownloadAction::CreateDir(path) ==> action@ == ActionView::CreateDir(path@),
        action matches DownloadAction::Request {
            url,
            cookie,
            timeout_secs,
            bar_length,
            bar_message,
        } ==> action@ is Request && action@->url == url@ && action@->timeout_secs == timeout_secs
            && action@->bar_length == bar_length && action@->bar_message == bar_message@ && (
        action@->cookie is Some <==> cookie is Some) && (cookie is Some ==> action@->cookie->0
            == cookie->0@),
        action matches DownloadAction::CreatePart { path, new_bar_length } ==> action@ == (
        ActionView::CreatePart { path: path@, new_bar_length }),
        action matches DownloadAction::Read { advance } ==> action@ == (ActionView::Read {
            advance,
        }),
        action matches DownloadAction::Write(bytes) ==> action@ == ActionView::Write(bytes@),
        action is Flush ==> action@ == ActionView::Flush,
        action matches DownloadAction::Rename { from, to } ==> action@ == (ActionView::Rename {
            from: from@,
            to: to@,
        }),
        action matches DownloadAction::Finish(message) ==> action@ == ActionView::Finish(message@),
        action matches DownloadAction::Skip(path) ==> action@ == ActionView::Skip(path@),
        action is Fail ==> action@ == ActionView::Fail,
{
}

} // verus!
