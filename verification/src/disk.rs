//! A model of the disk and the server under a download, and what a download
//! does to them.
//!
//! The model is of a disk that nobody else writes to and that does what it
//! reports. Any piece of work may fail, and a run may end at any point.

use crate::download;
use crate::download::{DownloaderView, PhaseView};
use crate::plain;
use crate::report;
use crate::response::ResponseHead;
use crate::text;
use crate::work::{ActionView, Event};
use vstd::prelude::*;

verus! {

/// The files on the disk by their paths, and the response that is being read.
pub struct World {
    pub files: Map<Seq<char>, Seq<u8>>,
    /// The path of the file that is open.
    pub open: Seq<char>,
    /// What was in that file when it was opened, or was left of it.
    pub opened: Seq<u8>,
    /// The body of the response.
    pub response: Seq<u8>,
    /// How many of its bytes have been read.
    pub read: int,
    /// The bytes that were read last.
    pub chunk: Seq<u8>,
}

/// Doing `action` can give `event` and turn `before` into `after`.
pub open spec fn does(before: World, action: ActionView, event: Event, after: World) -> bool {
    match (action, event) {
        (ActionView::Probe { .. }, Event::Probed(_)) => after == before,
        (ActionView::Exists { path }, Event::Exists(there)) => {
            &&& there == before.files.contains_key(path)
            &&& after == before
        },
        (ActionView::FileSize { path }, Event::Size(Ok(bytes))) => {
            &&& before.files.contains_key(path)
            &&& bytes == before.files[path].len()
            &&& after == before
        },
        (ActionView::FileSize { .. }, Event::Size(Err(_))) => after == before,
        (ActionView::Remove { path }, Event::Done(Ok(_))) => after == (World {
            files: before.files.remove(path),
            ..before
        }),
        (ActionView::Remove { .. }, Event::Done(Err(_))) => after == before,
        (ActionView::Send { .. }, Event::Responded(Ok(_))) => {
            &&& after.files == before.files
            &&& after.read == 0
        },
        (ActionView::Send { .. }, Event::Responded(Err(_))) => after == before,
        (ActionView::Open { path, append }, Event::Done(Ok(_))) => {
            let opened = if append && before.files.contains_key(path) {
                before.files[path]
            } else {
                Seq::empty()
            };
            after == (World {
                files: before.files.insert(path, opened),
                open: path,
                opened,
                ..before
            })
        },
        (ActionView::Open { .. }, Event::Done(Err(_))) => after == before,
        (ActionView::Read, Event::Read(Ok(count))) => if count == 0 {
            &&& before.read >= before.response.len()
            &&& after == before
        } else {
            &&& before.read + count <= before.response.len()
            &&& after == (World {
                read: before.read + count,
                chunk: before.response.subrange(before.read, before.read + count),
                ..before
            })
        },
        (ActionView::Read, Event::Read(Err(_))) => after == before,
        (ActionView::Write, Event::Written { outcome: Ok(_), .. }) => after == (World {
            files: before.files.insert(before.open, before.files[before.open] + before.chunk),
            ..before
        }),
        (ActionView::Write, Event::Written { outcome: Err(_), .. }) => exists|count: int|
            0 <= count <= before.chunk.len() && after == (World {
                files: before.files.insert(
                    before.open,
                    before.files[before.open] + #[trigger] before.chunk.take(count),
                ),
                ..before
            }),
        (ActionView::Flush, Event::Flushed) => after == before,
        (ActionView::Rename { from, to }, Event::Done(Ok(_))) => {
            &&& before.files.contains_key(from)
            &&& after == (World {
                files: before.files.insert(to, before.files[from]).remove(from),
                ..before
            })
        },
        (ActionView::Rename { .. }, Event::Done(Err(_))) => after == before,
        _ => false,
    }
}

impl DownloaderView {
    /// The download after one event.
    pub open spec fn stepped(self, event: Event) -> DownloaderView {
        DownloaderView { phase: self.next(event).0, ..self }
    }

    /// The download after all of the events.
    pub open spec fn stepped_all(self, events: Seq<Event>) -> DownloaderView
        decreases events.len(),
    {
        if events.len() == 0 {
            self
        } else {
            self.stepped_all(events.drop_last()).stepped(events.last())
        }
    }
}

/// The events that a download from `start` gets when it is run on the disk,
/// and the worlds before, between and after them.
pub open spec fn is_run(start: DownloaderView, events: Seq<Event>, worlds: Seq<World>) -> bool {
    &&& worlds.len() == events.len() + 1
    &&& start.phase == PhaseView::Probing
    &&& forall|i: int| 0 <= i < events.len() ==> #[trigger] is_run_step(start, events, worlds, i)
}

/// The event at position `i` answers the work that is next by then, and that
/// work leads from one world to the next.
pub open spec fn is_run_step(
    start: DownloaderView,
    events: Seq<Event>,
    worlds: Seq<World>,
    i: int,
) -> bool {
    let download = start.stepped_all(events.take(i));
    &&& download.accepts(events[i])
    &&& does(worlds[i], download.action(), events[i], worlds[i + 1])
}

/// `range` asks for a file from the byte at `offset` on: it is `bytes=`, the
/// offset and `-`, or there is no range and the offset is 0.
pub open spec fn asks_from(range: Option<Seq<char>>, offset: nat) -> bool {
    match range {
        Some(value) => exists|digits: Seq<char>|
            plain::writes(digits, offset) && value == #[trigger] ("bytes="@ + digits + "-"@),
        None => offset == 0,
    }
}

/// A response with the given head and body is what a server that has `remote`
/// sends for `range`: with the status 206 the rest of the file from the offset
/// that the range asks for, and the whole file otherwise. The size beside a
/// content range is that of the file; where there is none, the content length is
/// that of the body.
pub open spec fn is_served(
    remote: Seq<u8>,
    range: Option<Seq<char>>,
    head: ResponseHead,
    body: Seq<u8>,
) -> bool {
    &&& forall|offset: nat| #[trigger]
        asks_from(range, offset) ==> body == if head.status == 206 {
            remote.skip(offset as int)
        } else {
            remote
        }
    &&& if head.status == 206 && plain::range_size_of(head) is Some {
        plain::range_size_of(head)->0 == remote.len()
    } else {
        plain::length_of(head) matches Some(length) ==> length == body.len()
    }
}

/// The server tells the truth about a file with the contents `remote`: a size
/// that it tells is that of the file, and a response that it sends, where it
/// does not refuse the request, is what was asked for.
pub open spec fn serves(
    remote: Seq<u8>,
    start: DownloaderView,
    events: Seq<Event>,
    worlds: Seq<World>,
) -> bool {
    forall|i: int|
        0 <= i < events.len() ==> #[trigger] serves_at(
            remote,
            start.stepped_all(events.take(i)),
            events[i],
            worlds[i + 1],
        )
}

/// The server tells the truth in one event.
pub open spec fn serves_at(
    remote: Seq<u8>,
    download: DownloaderView,
    event: Event,
    after: World,
) -> bool {
    match (download.action(), event) {
        (ActionView::Probe { .. }, Event::Probed(_)) => told_by(event) matches Some(size) ==> size
            == remote.len(),
        (ActionView::Send { range, .. }, Event::Responded(Ok(head))) => 200 <= head.status <= 299
            ==> is_served(remote, range, head, after.response),
        _ => true,
    }
}

/// There is no incomplete file, or it is the beginning of `remote`.
pub open spec fn is_resumable(
    remote: Seq<u8>,
    temp: Seq<char>,
    files: Map<Seq<char>, Seq<u8>>,
) -> bool {
    files.contains_key(temp) ==> files[temp].is_prefix_of(remote)
}

/// The file at `path` has the contents `contents`.
pub open spec fn holds(
    files: Map<Seq<char>, Seq<u8>>,
    path: Seq<char>,
    contents: Seq<u8>,
) -> bool {
    files.contains_key(path) && files[path] == contents
}

/// What is known of the disk in each phase of a run that began with the files
/// `first`, while the server serves `remote` and told the size `told`.
spec fn in_order(
    remote: Seq<u8>,
    told: Option<u64>,
    first: Map<Seq<char>, Seq<u8>>,
    download: DownloaderView,
    world: World,
) -> bool {
    let files = world.files;
    let target = download.target;
    let temp = download.temp;
    &&& target != temp
    &&& is_resumable(remote, temp, files)
    &&& first.contains_key(target) ==> {
        ||| holds(files, target, first[target])
        ||| first[target].len() != remote.len()
        ||| download.phase is Renaming
        ||| download.phase is Finished && (holds(files, temp, remote) || holds(
            files,
            target,
            remote,
        ))
    }
    &&& match download.phase {
        PhaseView::Probing => files == first,
        PhaseView::CheckingTarget { remote_total } => {
            &&& files == first
            &&& remote_total == told
            &&& is_size(remote_total, remote)
        },
        PhaseView::CheckingBeside { remote_total } => {
            &&& files == first
            &&& remote_total == told
            &&& is_size(remote_total, remote)
            &&& files.contains_key(target)
        },
        PhaseView::SizingTarget { remote_total } => {
            &&& files == first
            &&& remote_total == told
            &&& is_size(remote_total, remote)
            &&& files.contains_key(target)
            &&& !files.contains_key(temp)
        },
        PhaseView::RemovingStale { remote_total } => {
            &&& is_size(remote_total, remote)
            &&& first.contains_key(target)
            &&& first[target].len() != remote.len()
        },
        PhaseView::CheckingComplete { total } => total == remote.len(),
        PhaseView::SizingComplete { total } => total == remote.len(),
        PhaseView::RemovingOversized { total } => total == remote.len(),
        PhaseView::CheckingPartial { remote_total } => is_size(remote_total, remote),
        PhaseView::SizingPartial { remote_total } => is_size(remote_total, remote),
        PhaseView::Requesting { remote_total, resumed_bytes } => {
            &&& is_size(remote_total, remote)
            &&& resumed_bytes > 0 ==> {
                &&& files.contains_key(temp)
                &&& files[temp].len() == resumed_bytes
            }
        },
        PhaseView::Opening { plan } => {
            &&& is_size(plan.total_bytes, remote)
            &&& world.read == 0
            &&& if plan.append_mode {
                &&& files.contains_key(temp)
                &&& files[temp].len() == plan.resumed_bytes
                &&& world.response == remote.skip(plan.resumed_bytes as int)
            } else {
                &&& plan.resumed_bytes == 0
                &&& world.response == remote
            }
        },
        PhaseView::Reading { downloaded_bytes, total_bytes, .. } => {
            &&& is_size(total_bytes, remote)
            &&& world.open == temp
            &&& files.contains_key(temp)
            &&& files[temp].len() == downloaded_bytes
            &&& 0 <= world.read <= world.response.len()
            &&& files[temp] + world.response.skip(world.read) == remote
        },
        PhaseView::Writing { downloaded_bytes, total_bytes, chunk, .. } => {
            &&& is_size(total_bytes, remote)
            &&& world.open == temp
            &&& files.contains_key(temp)
            &&& files[temp].len() == downloaded_bytes
            &&& world.chunk.len() == chunk
            &&& 0 <= world.read <= world.response.len()
            &&& files[temp] + world.chunk + world.response.skip(world.read) == remote
        },
        PhaseView::Flushing { downloaded_bytes, total_bytes } => {
            &&& is_size(total_bytes, remote)
            &&& downloaded_bytes == remote.len()
            &&& holds(files, temp, remote)
        },
        PhaseView::CheckingReplaced { downloaded_bytes, .. } => {
            &&& downloaded_bytes == remote.len()
            &&& holds(files, temp, remote)
        },
        PhaseView::RemovingReplaced { downloaded_bytes, .. } => {
            &&& downloaded_bytes == remote.len()
            &&& holds(files, temp, remote)
        },
        PhaseView::Renaming { downloaded_bytes, .. } => {
            &&& downloaded_bytes == remote.len()
            &&& holds(files, temp, remote)
        },
        PhaseView::Finished { outcome: Ok(_) } => {
            ||| holds(files, target, remote) && !files.contains_key(temp)
            ||| {
                &&& files == first
                &&& files.contains_key(target)
                &&& !files.contains_key(temp)
                &&& told is Some ==> files[target].len() == remote.len()
            }
        },
        PhaseView::Finished { outcome: Err(_) } => true,
    }
}

/// The size that the server tells in the answer to the first request: the
/// content length of an answer with a status of 200 to 299.
pub open spec fn told_by(event: Event) -> Option<u64> {
    match event {
        Event::Probed(Some(head)) => if 200 <= head.status <= 299 {
            plain::length_of(head)
        } else {
            None
        },
        _ => None,
    }
}

/// The work failed, or the server refused the request.
pub open spec fn is_failure(event: Event) -> bool {
    match event {
        Event::Done(outcome) => outcome is Err,
        Event::Size(size) => size is Err,
        Event::Responded(Ok(head)) => !(200 <= head.status <= 299),
        Event::Responded(Err(_)) => true,
        Event::Read(read) => read is Err,
        Event::Written { outcome, .. } => outcome is Err,
        _ => false,
    }
}

/// A size that is known is that of `remote`.
pub open spec fn is_size(size: Option<u64>, remote: Seq<u8>) -> bool {
    size matches Some(bytes) ==> bytes == remote.len()
}

/// A request asks for the file from the byte on that the download counts.
pub(crate) proof fn lemma_request_asks_from(download: DownloaderView)
    requires
        download.phase is Requesting,
    ensures
        download.action() matches ActionView::Send { range, .. } && asks_from(
            range,
            download.phase->resumed_bytes as nat,
        ),
{
    let resumed = download.phase->resumed_bytes as nat;
    plain::law_decimal_writes_the_number(resumed);
    if resumed > 0 {
        assert(download::range_of(resumed as u64) == Some(
            "bytes="@ + text::decimal(resumed) + "-"@,
        ));
    }
}

proof fn lemma_step_keeps_order(
    remote: Seq<u8>,
    told: Option<u64>,
    first: Map<Seq<char>, Seq<u8>>,
    download: DownloaderView,
    before: World,
    event: Event,
    after: World,
)
    requires
        in_order(remote, told, first, download, before),
        download.phase is Probing ==> told == told_by(event),
        download.accepts(event),
        does(before, download.action(), event, after),
        serves_at(remote, download, event, after),
    ensures
        in_order(remote, told, first, download.stepped(event), after),
        !(download.stepped(event).phase is Probing),
        download.stepped(event).phase matches PhaseView::Finished { outcome: Err(_) }
            ==> is_failure(event),
{
    let temp = download.temp;
    match download.phase {
        PhaseView::Opening { plan } => {
            if plan.append_mode {
                assert(before.response.skip(0) == before.response);
                assert(before.files[temp] + remote.skip(plan.resumed_bytes as int) == remote);
            } else {
                assert(before.response.skip(0) == before.response);
                assert(Seq::<u8>::empty() + remote == remote);
            }
        },
        PhaseView::Reading { .. } => {
            if event is Read && event->Read_0 is Ok {
                let count = event->Read_0->Ok_0;
                if count == 0 {
                    assert(before.response.skip(before.read) == Seq::<u8>::empty());
                    assert(before.files[temp] == remote);
                } else {
                    assert(before.response.skip(before.read) == after.chunk
                        + before.response.skip(after.read));
                    assert(before.files[temp] + (after.chunk + before.response.skip(after.read))
                        == before.files[temp] + after.chunk + before.response.skip(after.read));
                }
            }
        },
        PhaseView::Writing { .. } => {
            let written = before.files[temp] + before.chunk;
            assert(written.is_prefix_of(remote)) by {
                assert(remote.take(written.len() as int) == written);
            }
            if event is Written && event->outcome is Err {
                let count = choose|count: int|
                    0 <= count <= before.chunk.len() && after == (World {
                        files: before.files.insert(
                            before.open,
                            before.files[before.open] + #[trigger] before.chunk.take(count),
                        ),
                        ..before
                    });
                let part = before.files[temp] + before.chunk.take(count);
                assert(part == written.take(part.len() as int));
                assert(part.is_prefix_of(remote));
            }
        },
        PhaseView::SizingComplete { total } => {
            if event is Size && event->Size_0 is Ok && event->Size_0->Ok_0 == total {
                assert(before.files[temp] == remote);
            }
        },
        PhaseView::Probing => {
            if let Event::Probed(head) = event {
                plain::law_probe_reads_the_content_length(head);
            }
        },
        PhaseView::Requesting { resumed_bytes, .. } => {
            assert(remote.skip(0) == remote);
            lemma_request_asks_from(download);
            if let Event::Responded(Ok(head)) = event {
                plain::law_whole_size_is_read_from_the_headers(
                    head,
                    download::kept_bytes(head, resumed_bytes) as nat,
                );
            }
        },
        _ => {},
    }
}

pub(crate) proof fn lemma_steps_keep_paths(start: DownloaderView, events: Seq<Event>)
    ensures
        start.stepped_all(events).target == start.target,
        start.stepped_all(events).temp == start.temp,
    decreases events.len(),
{
    if events.len() > 0 {
        lemma_steps_keep_paths(start, events.drop_last());
    }
}

proof fn lemma_run_keeps_order(
    remote: Seq<u8>,
    start: DownloaderView,
    events: Seq<Event>,
    worlds: Seq<World>,
    at: int,
)
    requires
        is_run(start, events, worlds),
        serves(remote, start, events, worlds),
        start.target != start.temp,
        is_resumable(remote, start.temp, worlds[0].files),
        0 <= at <= events.len(),
    ensures
        in_order(
            remote,
            told_by(events[0]),
            worlds[0].files,
            start.stepped_all(events.take(at)),
            worlds[at],
        ),
        at > 0 ==> !(start.stepped_all(events.take(at)).phase is Probing),
        at > 0 ==> (start.stepped_all(events.take(at)).phase matches PhaseView::Finished {
            outcome: Err(_),
        } ==> is_failure(events[at - 1])),
    decreases at,
{
    if at > 0 {
        lemma_run_keeps_order(remote, start, events, worlds, at - 1);
        assert(events.take(at).drop_last() == events.take(at - 1));
        assert(events.take(at).last() == events[at - 1]);
        assert(is_run_step(start, events, worlds, at - 1));
        assert(serves_at(
            remote,
            start.stepped_all(events.take(at - 1)),
            events[at - 1],
            worlds[at - 1 + 1],
        ));
        lemma_step_keeps_order(
            remote,
            told_by(events[0]),
            worlds[0].files,
            start.stepped_all(events.take(at - 1)),
            worlds[at - 1],
            events[at - 1],
            worlds[at],
        );
    }
}

/// A download that succeeds leaves the remote file at the target and no
/// incomplete file, whether it started anew, continued an incomplete file or
/// had to start over. The one exception is a download that found a file at the
/// target and nothing incomplete beside it, and left the disk as it was: then
/// the file has the size of the remote one, or the server did not tell the size.
pub proof fn law_finished_download_is_the_remote_file(
    remote: Seq<u8>,
    start: DownloaderView,
    events: Seq<Event>,
    worlds: Seq<World>,
)
    requires
        is_run(start, events, worlds),
        serves(remote, start, events, worlds),
        start.target != start.temp,
        is_resumable(remote, start.temp, worlds[0].files),
        start.stepped_all(events).phase == (PhaseView::Finished { outcome: Ok(()) }),
    ensures
        !worlds.last().files.contains_key(start.temp),
        holds(worlds.last().files, start.target, remote) || {
            &&& worlds.last().files == worlds[0].files
            &&& worlds[0].files.contains_key(start.target)
            &&& told_by(events[0]) is Some ==> worlds[0].files[start.target].len() == remote.len()
        },
{
    lemma_run_keeps_order(remote, start, events, worlds, events.len() as int);
    lemma_steps_keep_paths(start, events);
    assert(events.take(events.len() as int) == events);
}

/// A download fails only right after a piece of work that failed or a request
/// that the server refused.
pub proof fn law_only_failed_work_fails_a_download(
    remote: Seq<u8>,
    start: DownloaderView,
    events: Seq<Event>,
    worlds: Seq<World>,
)
    requires
        is_run(start, events, worlds),
        serves(remote, start, events, worlds),
        start.target != start.temp,
        is_resumable(remote, start.temp, worlds[0].files),
        start.stepped_all(events).phase matches PhaseView::Finished { outcome: Err(_) },
    ensures
        events.len() > 0,
        is_failure(events.last()),
{
    lemma_run_keeps_order(remote, start, events, worlds, events.len() as int);
    assert(events.take(events.len() as int) == events);
}

/// Wherever a run ends, whatever failed, the incomplete file is the beginning
/// of the remote file, so that the next run can continue it.
pub proof fn law_interrupted_download_can_be_resumed(
    remote: Seq<u8>,
    start: DownloaderView,
    events: Seq<Event>,
    worlds: Seq<World>,
)
    requires
        is_run(start, events, worlds),
        serves(remote, start, events, worlds),
        start.target != start.temp,
        is_resumable(remote, start.temp, worlds[0].files),
    ensures
        is_resumable(remote, start.temp, worlds.last().files),
{
    lemma_run_keeps_order(remote, start, events, worlds, events.len() as int);
    lemma_steps_keep_paths(start, events);
    assert(events.take(events.len() as int) == events);
}

/// A file that was at the target is still there, unless its size shows that it
/// is another file than the remote one, or the whole remote file is on the
/// disk in its place.
pub proof fn law_target_is_not_lost(
    remote: Seq<u8>,
    start: DownloaderView,
    events: Seq<Event>,
    worlds: Seq<World>,
)
    requires
        is_run(start, events, worlds),
        serves(remote, start, events, worlds),
        start.target != start.temp,
        is_resumable(remote, start.temp, worlds[0].files),
        worlds[0].files.contains_key(start.target),
    ensures
        ({
            let files = worlds.last().files;
            ||| holds(files, start.target, worlds[0].files[start.target])
            ||| worlds[0].files[start.target].len() != remote.len()
            ||| holds(files, start.temp, remote)
            ||| holds(files, start.target, remote)
        }),
{
    lemma_run_keeps_order(remote, start, events, worlds, events.len() as int);
    lemma_steps_keep_paths(start, events);
    assert(events.take(events.len() as int) == events);
}

/// The file at `path` is in `after` what it is in `before`, or in neither.
pub open spec fn same_at(
    before: Map<Seq<char>, Seq<u8>>,
    after: Map<Seq<char>, Seq<u8>>,
    path: Seq<char>,
) -> bool {
    &&& before.contains_key(path) == after.contains_key(path)
    &&& before.contains_key(path) ==> before[path] == after[path]
}

proof fn lemma_run_keeps_others(
    start: DownloaderView,
    events: Seq<Event>,
    worlds: Seq<World>,
    path: Seq<char>,
    at: int,
)
    requires
        is_run(start, events, worlds),
        path != start.target,
        path != start.temp,
        0 <= at <= events.len(),
    ensures
        same_at(worlds[0].files, worlds[at].files, path),
        ({
            let phase = start.stepped_all(events.take(at)).phase;
            phase is Reading || phase is Writing ==> worlds[at].open == start.temp
        }),
    decreases at,
{
    if at > 0 {
        lemma_run_keeps_others(start, events, worlds, path, at - 1);
        lemma_steps_keep_paths(start, events.take(at - 1));
        assert(events.take(at).drop_last() == events.take(at - 1));
        assert(events.take(at).last() == events[at - 1]);
        assert(is_run_step(start, events, worlds, at - 1));
    }
}

/// A download touches no files but the target and the incomplete file.
pub proof fn law_other_files_are_untouched(
    start: DownloaderView,
    events: Seq<Event>,
    worlds: Seq<World>,
    path: Seq<char>,
)
    requires
        is_run(start, events, worlds),
        path != start.target,
        path != start.temp,
    ensures
        same_at(worlds[0].files, worlds.last().files, path),
{
    lemma_run_keeps_others(start, events, worlds, path, events.len() as int);
}

/// The total that a phase close to the end knows is what was downloaded.
spec fn is_counted(phase: PhaseView) -> bool {
    match phase {
        PhaseView::CheckingReplaced { downloaded_bytes, total_bytes } => total_bytes is None
            || total_bytes == Some(downloaded_bytes),
        PhaseView::RemovingReplaced { downloaded_bytes, total_bytes } => total_bytes is None
            || total_bytes == Some(downloaded_bytes),
        PhaseView::Renaming { downloaded_bytes, total_bytes } => total_bytes is None || total_bytes
            == Some(downloaded_bytes),
        _ => true,
    }
}

proof fn lemma_steps_keep_count(start: DownloaderView, events: Seq<Event>)
    requires
        start.phase == PhaseView::Probing,
    ensures
        is_counted(start.stepped_all(events).phase),
    decreases events.len(),
{
    if events.len() > 0 {
        lemma_steps_keep_count(start, events.drop_last());
    }
}

/// A report that the file is there names the target, and counts as many bytes
/// downloaded as there are in all.
pub proof fn law_completed_report_counts_every_byte(
    start: DownloaderView,
    events: Seq<Event>,
    event: Event,
    at: int,
)
    requires
        start.phase == PhaseView::Probing,
        0 <= at < start.stepped_all(events).next(event).1.len(),
        start.stepped_all(events).next(event).1[at].stage == "completed"@,
    ensures
        ({
            let report = start.stepped_all(events).next(event).1[at];
            &&& report.downloaded_bytes is Some
            &&& report.total_bytes == report.downloaded_bytes
            &&& report.output_path == Some(start.target)
        }),
{
    lemma_steps_keep_count(start, events);
    lemma_steps_keep_paths(start, events);
    report::lemma_stages_differ();
}

/// The bytes in the incomplete file, in the phases that count them.
pub open spec fn counted_bytes(phase: PhaseView) -> Option<u64> {
    match phase {
        PhaseView::Reading { downloaded_bytes, .. } => Some(downloaded_bytes),
        PhaseView::Writing { downloaded_bytes, .. } => Some(downloaded_bytes),
        PhaseView::Flushing { downloaded_bytes, .. } => Some(downloaded_bytes),
        PhaseView::CheckingReplaced { downloaded_bytes, .. } => Some(downloaded_bytes),
        PhaseView::RemovingReplaced { downloaded_bytes, .. } => Some(downloaded_bytes),
        PhaseView::Renaming { downloaded_bytes, .. } => Some(downloaded_bytes),
        _ => None,
    }
}

/// The count of downloaded bytes never falls.
pub proof fn law_count_never_falls(download: DownloaderView, event: Event)
    requires
        download.accepts(event),
    ensures
        counted_bytes(download.phase) is Some && counted_bytes(download.stepped(event).phase)
            is Some ==> counted_bytes(download.phase)->0 <= counted_bytes(
            download.stepped(event).phase,
        )->0,
{
}

} // verus!
