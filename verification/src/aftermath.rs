//! What a download leaves on the disk, whatever the server sends.

use crate::disk;
use crate::disk::World;
use crate::download;
use crate::download::{DownloaderView, PhaseView};
use crate::plain;
use crate::report;
use crate::told;
use crate::response::ResponseHead;
use crate::work::{ActionView, Event};
use vstd::prelude::*;

verus! {

/// How many bytes the file at `path` has, 0 where there is none.
pub open spec fn size_at(files: Map<Seq<char>, Seq<u8>>, path: Seq<char>) -> nat {
    if files.contains_key(path) {
        files[path].len()
    } else {
        0
    }
}

/// The file at `target` makes way for the download: there is no incomplete file
/// beside it, and its size is not the one that the server told.
pub open spec fn is_stale(
    files: Map<Seq<char>, Seq<u8>>,
    told: Option<u64>,
    target: Seq<char>,
    temp: Seq<char>,
) -> bool {
    &&& files.contains_key(target)
    &&& !files.contains_key(temp)
    &&& told matches Some(size) && size != files[target].len()
}

/// The file at `target` is taken for the remote one: there is no incomplete file
/// beside it, and its size is the one that the server told, if it told any.
pub open spec fn is_current(
    files: Map<Seq<char>, Seq<u8>>,
    told: Option<u64>,
    target: Seq<char>,
    temp: Seq<char>,
) -> bool {
    &&& files.contains_key(target)
    &&& !files.contains_key(temp)
    &&& told matches Some(size) ==> size == files[target].len()
}

/// The incomplete file makes way for the download: it is larger than the server told.
pub open spec fn is_oversized(
    files: Map<Seq<char>, Seq<u8>>,
    told: Option<u64>,
    temp: Seq<char>,
) -> bool {
    &&& files.contains_key(temp)
    &&& told matches Some(size) && size < files[temp].len()
}

/// The target is as it was in `first`, or it was stale and is gone.
pub open spec fn keeps_target(
    first: Map<Seq<char>, Seq<u8>>,
    told: Option<u64>,
    files: Map<Seq<char>, Seq<u8>>,
    target: Seq<char>,
    temp: Seq<char>,
) -> bool {
    if is_stale(first, told, target, temp) {
        !files.contains_key(target)
    } else {
        disk::same_at(first, files, target)
    }
}

/// The incomplete file is as it was in `first`, or it was oversized and is gone.
pub open spec fn keeps_partial(
    first: Map<Seq<char>, Seq<u8>>,
    told: Option<u64>,
    files: Map<Seq<char>, Seq<u8>>,
    temp: Seq<char>,
) -> bool {
    if is_oversized(first, told, temp) {
        !files.contains_key(temp)
    } else {
        disk::same_at(first, files, temp)
    }
}

/// The incomplete file is open: it holds what was kept of the one in `first`,
/// which is all of it or nothing, and then the bytes of the response up to `end`.
pub open spec fn holds_received(
    first: Map<Seq<char>, Seq<u8>>,
    world: World,
    temp: Seq<char>,
    end: int,
) -> bool {
    &&& disk::holds(world.files, temp, world.opened + world.response.take(end))
    &&& 0 <= end <= world.response.len()
    &&& world.opened.len() == 0 || disk::holds(first, temp, world.opened)
}

/// The contents are what was kept of the incomplete file in `first`, which is
/// all of it or nothing, and then the whole response.
pub open spec fn is_received(
    first: Map<Seq<char>, Seq<u8>>,
    world: World,
    temp: Seq<char>,
    contents: Seq<u8>,
) -> bool {
    &&& contents == world.opened + world.response
    &&& world.opened.len() == 0 || disk::holds(first, temp, world.opened)
}

/// The contents are those of the incomplete file in `first`, which has the size
/// that the server told.
pub open spec fn is_found_complete(
    first: Map<Seq<char>, Seq<u8>>,
    told: Option<u64>,
    temp: Seq<char>,
    contents: Seq<u8>,
) -> bool {
    &&& disk::holds(first, temp, contents)
    &&& told matches Some(size) && size == contents.len()
}

/// The incomplete file is ready to get its final name: it was found complete,
/// or it was received to its end.
spec fn is_ready(
    first: Map<Seq<char>, Seq<u8>>,
    told: Option<u64>,
    world: World,
    temp: Seq<char>,
) -> bool {
    &&& world.files.contains_key(temp)
    &&& is_received(first, world, temp, world.files[temp]) || is_found_complete(
        first,
        told,
        temp,
        world.files[temp],
    )
}

/// What is known of the disk in each phase of a run that began with the files
/// `first`, when the server told the size `told`.
spec fn in_shape(
    told: Option<u64>,
    first: Map<Seq<char>, Seq<u8>>,
    download: DownloaderView,
    world: World,
) -> bool {
    let files = world.files;
    let target = download.target;
    let temp = download.temp;
    let target_kept = keeps_target(first, told, files, target, temp);
    &&& target != temp
    &&& match download.phase {
        PhaseView::Probing => files == first,
        PhaseView::CheckingTarget { remote_total } => files == first && remote_total == told,
        PhaseView::CheckingBeside { remote_total } => {
            &&& files == first
            &&& remote_total == told
            &&& first.contains_key(target)
        },
        PhaseView::SizingTarget { remote_total } => {
            &&& files == first
            &&& remote_total == told
            &&& first.contains_key(target)
            &&& !first.contains_key(temp)
        },
        PhaseView::RemovingStale { remote_total } => {
            &&& files == first
            &&& remote_total == told
            &&& is_stale(first, told, target, temp)
        },
        PhaseView::CheckingComplete { total } => {
            &&& told == Some(total)
            &&& target_kept
            &&& disk::same_at(first, files, temp)
        },
        PhaseView::SizingComplete { total } => {
            &&& told == Some(total)
            &&& target_kept
            &&& disk::same_at(first, files, temp)
            &&& first.contains_key(temp)
        },
        PhaseView::RemovingOversized { total } => {
            &&& told == Some(total)
            &&& target_kept
            &&& is_oversized(first, told, temp)
        },
        PhaseView::CheckingPartial { remote_total } => {
            &&& remote_total == told
            &&& target_kept
            &&& keeps_partial(first, told, files, temp)
        },
        PhaseView::SizingPartial { remote_total } => {
            &&& remote_total == told
            &&& target_kept
            &&& keeps_partial(first, told, files, temp)
        },
        PhaseView::Requesting { remote_total, resumed_bytes } => {
            &&& remote_total == told
            &&& target_kept
            &&& keeps_partial(first, told, files, temp)
            &&& resumed_bytes == size_at(files, temp)
        },
        PhaseView::Opening { plan } => {
            &&& target_kept
            &&& keeps_partial(first, told, files, temp)
            &&& world.read == 0
            &&& if plan.append_mode {
                &&& files.contains_key(temp)
                &&& files[temp].len() == plan.resumed_bytes
            } else {
                plan.resumed_bytes == 0
            }
        },
        PhaseView::Reading { downloaded_bytes, reported, .. } => {
            &&& target_kept
            &&& world.open == temp
            &&& holds_received(first, world, temp, world.read)
            &&& files[temp].len() == downloaded_bytes
            &&& !reported ==> world.read == 0
        },
        PhaseView::Writing { downloaded_bytes, chunk, .. } => {
            &&& target_kept
            &&& world.open == temp
            &&& holds_received(first, world, temp, world.read - chunk)
            &&& files[temp].len() == downloaded_bytes
            &&& chunk > 0
            &&& world.read <= world.response.len()
            &&& world.chunk == world.response.subrange(world.read - chunk, world.read)
        },
        PhaseView::Flushing { downloaded_bytes, .. } => {
            &&& target_kept
            &&& holds_received(first, world, temp, world.read)
            &&& files[temp].len() == downloaded_bytes
            &&& world.read == world.response.len()
        },
        PhaseView::CheckingReplaced { downloaded_bytes, .. } => {
            &&& target_kept
            &&& is_ready(first, told, world, temp)
            &&& files[temp].len() == downloaded_bytes
        },
        PhaseView::RemovingReplaced { downloaded_bytes, .. } => {
            &&& target_kept
            &&& is_ready(first, told, world, temp)
            &&& files[temp].len() == downloaded_bytes
        },
        PhaseView::Renaming { downloaded_bytes, .. } => {
            &&& is_ready(first, told, world, temp)
            &&& files[temp].len() == downloaded_bytes
        },
        PhaseView::Finished { outcome: Ok(_) } => {
            &&& files.contains_key(target)
            &&& !files.contains_key(temp)
            &&& {
                ||| is_current(first, told, target, temp) && files == first
                ||| is_found_complete(first, told, temp, files[target])
                ||| is_received(first, world, temp, files[target])
            }
        },
        PhaseView::Finished { outcome: Err(_) } => true,
    }
}

proof fn lemma_step_keeps_shape(
    told: Option<u64>,
    first: Map<Seq<char>, Seq<u8>>,
    download: DownloaderView,
    before: World,
    event: Event,
    after: World,
)
    requires
        in_shape(told, first, download, before),
        download.phase is Probing ==> told == disk::told_by(event),
        download.accepts(event),
        disk::does(before, download.action(), event, after),
    ensures
        in_shape(told, first, download.stepped(event), after),
        !(download.stepped(event).phase is Probing),
{
    let temp = download.temp;
    match download.phase {
        PhaseView::Probing => {
            if let Event::Probed(head) = event {
                plain::law_probe_reads_the_content_length(head);
            }
        },
        PhaseView::Opening { plan } => {
            assert(after.opened + after.response.take(0) == after.opened);
        },
        PhaseView::Flushing { .. } => {
            assert(before.response.take(before.response.len() as int) == before.response);
        },
        PhaseView::Writing { chunk, .. } => {
            assert(before.response.take(before.read) == before.response.take(before.read - chunk)
                + before.chunk);
            assert(before.opened + (before.response.take(before.read - chunk) + before.chunk)
                == before.opened + before.response.take(before.read - chunk) + before.chunk);
        },
        _ => {},
    }
}

proof fn lemma_run_keeps_shape(
    start: DownloaderView,
    events: Seq<Event>,
    worlds: Seq<World>,
    at: int,
)
    requires
        disk::is_run(start, events, worlds),
        start.target != start.temp,
        0 <= at <= events.len(),
    ensures
        in_shape(
            disk::told_by(events[0]),
            worlds[0].files,
            start.stepped_all(events.take(at)),
            worlds[at],
        ),
        at > 0 ==> !(start.stepped_all(events.take(at)).phase is Probing),
    decreases at,
{
    if at > 0 {
        lemma_run_keeps_shape(start, events, worlds, at - 1);
        assert(events.take(at).drop_last() == events.take(at - 1));
        assert(events.take(at).last() == events[at - 1]);
        assert(disk::is_run_step(start, events, worlds, at - 1));
        lemma_step_keeps_shape(
            disk::told_by(events[0]),
            worlds[0].files,
            start.stepped_all(events.take(at - 1)),
            worlds[at - 1],
            events[at - 1],
            worlds[at],
        );
    }
}

/// A download that succeeds leaves a file at the target and no incomplete file,
/// whatever the server sent. Either the disk is as it was, because the file was
/// there; or the file is the incomplete one, which was complete; or it is what
/// was kept of the incomplete one and then the whole response.
pub proof fn law_success_leaves_a_target(
    start: DownloaderView,
    events: Seq<Event>,
    worlds: Seq<World>,
)
    requires
        disk::is_run(start, events, worlds),
        start.target != start.temp,
        start.stepped_all(events).phase == (PhaseView::Finished { outcome: Ok(()) }),
    ensures
        worlds.last().files.contains_key(start.target),
        !worlds.last().files.contains_key(start.temp),
        ({
            let first = worlds[0].files;
            let told = disk::told_by(events[0]);
            let files = worlds.last().files;
            ||| is_current(first, told, start.target, start.temp) && files == first
            ||| is_found_complete(first, told, start.temp, files[start.target])
            ||| is_received(first, worlds.last(), start.temp, files[start.target])
        }),
{
    lemma_run_keeps_shape(start, events, worlds, events.len() as int);
    disk::lemma_steps_keep_paths(start, events);
    assert(events.take(events.len() as int) == events);
}

/// Once a response is being read, what is put in place at the end is what was
/// kept and then that response.
proof fn lemma_transfer_is_put_in_place(
    start: DownloaderView,
    events: Seq<Event>,
    worlds: Seq<World>,
    from: int,
    to: int,
)
    requires
        disk::is_run(start, events, worlds),
        start.target != start.temp,
        0 <= from <= to <= events.len(),
        start.stepped_all(events.take(from)).phase is Reading,
    ensures
        ({
            let received = worlds[to].opened + worlds[to].response;
            let files = worlds[to].files;
            match start.stepped_all(events.take(to)).phase {
                PhaseView::CheckingReplaced { .. } => disk::holds(files, start.temp, received),
                PhaseView::RemovingReplaced { .. } => disk::holds(files, start.temp, received),
                PhaseView::Renaming { .. } => disk::holds(files, start.temp, received),
                PhaseView::Finished { outcome: Ok(_) } => {
                    disk::holds(files, start.target, received)
                },
                _ => true,
            }
        }),
    decreases to - from,
{
    if to > from {
        lemma_transfer_is_put_in_place(start, events, worlds, from, to - 1);
        lemma_transfer_keeps_response(start, events, worlds, from, to - 1);
        lemma_run_keeps_shape(start, events, worlds, to - 1);
        disk::lemma_steps_keep_paths(start, events.take(to - 1));
        assert(events.take(to).drop_last() == events.take(to - 1));
        assert(events.take(to).last() == events[to - 1]);
        assert(disk::is_run_step(start, events, worlds, to - 1));
        let response = worlds[to - 1].response;
        assert(response.take(response.len() as int) == response);
    }
}

/// A download that opened the incomplete file and succeeds leaves at the target
/// exactly the response that it got, after the whole incomplete file if the
/// response continues that, and no incomplete file. That holds whatever the
/// server sent and whatever was in the incomplete file.
pub proof fn law_success_leaves_the_response(
    start: DownloaderView,
    events: Seq<Event>,
    worlds: Seq<World>,
    at: int,
)
    requires
        disk::is_run(start, events, worlds),
        start.target != start.temp,
        0 <= at < events.len(),
        start.stepped_all(events.take(at)).phase is Opening,
        start.stepped_all(events).phase == (PhaseView::Finished { outcome: Ok(()) }),
    ensures
        ({
            let plan = start.stepped_all(events.take(at)).phase->plan;
            let first = worlds[0].files;
            let files = worlds.last().files;
            &&& !files.contains_key(start.temp)
            &&& if plan.append_mode {
                &&& first.contains_key(start.temp)
                &&& first[start.temp].len() == plan.resumed_bytes
                &&& disk::holds(files, start.target, first[start.temp] + worlds[at].response)
            } else {
                disk::holds(files, start.target, worlds[at].response)
            }
        }),
{
    let last = events.len() as int;
    assert(events.take(last) == events);
    assert(events.take(at + 1).drop_last() == events.take(at));
    assert(events.take(at + 1).last() == events[at]);
    assert(disk::is_run_step(start, events, worlds, at));
    disk::lemma_steps_keep_paths(start, events.take(at));
    lemma_run_keeps_shape(start, events, worlds, at);
    if start.stepped_all(events.take(at + 1)).phase is Finished {
        // Nothing can follow a failure to open the file.
        if at + 1 < last {
            assert(disk::is_run_step(start, events, worlds, at + 1));
        }
        assert(false);
    }
    lemma_run_keeps_shape(start, events, worlds, last);
    lemma_transfer_keeps_response(start, events, worlds, at + 1, last);
    lemma_transfer_is_put_in_place(start, events, worlds, at + 1, last);
    disk::lemma_steps_keep_paths(start, events);
    let response = worlds[at].response;
    assert(Seq::<u8>::empty() + response == response);
}

/// The bytes that a report counts when the file is there are the bytes of the
/// file that is then at the target.
pub proof fn law_completed_report_is_the_size_of_the_file(
    start: DownloaderView,
    events: Seq<Event>,
    worlds: Seq<World>,
    at: int,
)
    requires
        disk::is_run(start, events, worlds),
        start.target != start.temp,
        events.len() > 0,
        0 <= at < start.stepped_all(events.drop_last()).next(events.last()).1.len(),
        start.stepped_all(events.drop_last()).next(events.last()).1[at].stage == "completed"@,
    ensures
        worlds.last().files.contains_key(start.target),
        start.stepped_all(events.drop_last()).next(events.last()).1[at].downloaded_bytes == Some(
            worlds.last().files[start.target].len() as u64,
        ),
        worlds.last().files[start.target].len() <= u64::MAX,
{
    let last = events.len() - 1;
    lemma_run_keeps_shape(start, events, worlds, last);
    disk::lemma_steps_keep_paths(start, events.drop_last());
    assert(events.take(last) == events.drop_last());
    assert(disk::is_run_step(start, events, worlds, last));
    report::lemma_stages_differ();
}

/// What is kept of an incomplete file when the download opens it: all of it
/// where the response continues it, and nothing otherwise.
pub proof fn law_incomplete_file_is_kept_or_started_over(
    start: DownloaderView,
    events: Seq<Event>,
    worlds: Seq<World>,
    at: int,
)
    requires
        disk::is_run(start, events, worlds),
        start.target != start.temp,
        0 <= at < events.len(),
        start.stepped_all(events.take(at)).phase is Opening,
        events[at] == Event::Done(Ok(())),
    ensures
        ({
            let plan = start.stepped_all(events.take(at)).phase->plan;
            let opened = worlds[at + 1].opened;
            &&& opened.len() == plan.resumed_bytes
            &&& if plan.append_mode {
                disk::holds(worlds[0].files, start.temp, opened)
            } else {
                opened.len() == 0
            }
        }),
{
    lemma_run_keeps_shape(start, events, worlds, at);
    disk::lemma_steps_keep_paths(start, events.take(at));
    assert(disk::is_run_step(start, events, worlds, at));
}

/// A download that fails leaves the target as it was, or without a file where a
/// stale one was. The one exception is a failure to give the file its final
/// name: the download is then whole, in the incomplete file.
pub proof fn law_failure_keeps_the_target(
    start: DownloaderView,
    events: Seq<Event>,
    worlds: Seq<World>,
)
    requires
        disk::is_run(start, events, worlds),
        start.target != start.temp,
        start.stepped_all(events).phase matches PhaseView::Finished { outcome: Err(_) },
    ensures
        ({
            let first = worlds[0].files;
            let files = worlds.last().files;
            ||| disk::same_at(first, files, start.target)
            ||| {
                &&& is_stale(first, disk::told_by(events[0]), start.target, start.temp)
                &&& !files.contains_key(start.target)
            }
            ||| {
                &&& start.stepped_all(events.drop_last()).phase matches PhaseView::Renaming {
                    downloaded_bytes,
                    ..
                }
                &&& files.contains_key(start.temp)
                &&& files[start.temp].len() == downloaded_bytes
            }
        }),
{
    assert(events.len() > 0);
    let last = events.len() - 1;
    lemma_run_keeps_shape(start, events, worlds, last);
    disk::lemma_steps_keep_paths(start, events.drop_last());
    assert(events.take(last) == events.drop_last());
    assert(disk::is_run_step(start, events, worlds, last));
}

/// The error is that of a transfer that broke off, or that ended with another
/// size than was told.
pub open spec fn is_transfer_error(error: (Seq<char>, Seq<char>)) -> bool {
    error.0 == "NET-004"@ || error.0 == "NET-005"@
}

/// The codes of the errors about files.
proof fn lemma_file_codes_are_short()
    ensures
        "FS-002"@.len() == 6,
        "FS-003"@.len() == 6,
        "FS-004"@.len() == 6,
        "FS-005"@.len() == 6,
        "FS-006"@.len() == 6,
        "FS-007"@.len() == 6,
        "FS-008"@.len() == 6,
        "FS-009"@.len() == 6,
{
    reveal_strlit("FS-002");
    reveal_strlit("FS-003");
    reveal_strlit("FS-004");
    reveal_strlit("FS-005");
    reveal_strlit("FS-006");
    reveal_strlit("FS-007");
    reveal_strlit("FS-008");
    reveal_strlit("FS-009");
}

/// Only the end of a transfer gives the error of one.
proof fn lemma_transfer_errors(download: DownloaderView, event: Event)
    requires
        download.accepts(event),
        download.stepped(event).phase matches PhaseView::Finished { outcome: Err(error) }
            && is_transfer_error(error),
    ensures
        download.phase is Reading || download.phase is Flushing,
{
    reveal_strlit("NET-002");
    reveal_strlit("NET-003");
    reveal_strlit("NET-004");
    reveal_strlit("NET-005");
    assert("NET-002"@[6] == '2');
    assert("NET-003"@[6] == '3');
    assert("NET-004"@[6] == '4');
    assert("NET-005"@[6] == '5');
    lemma_file_codes_are_short();
    assert("NET-004"@.len() == 7 && "NET-005"@.len() == 7);
}

/// A transfer that broke off, or that ended with another size than was told,
/// leaves the target as it was, and without a file exactly where there was none
/// or a stale one made way. The incomplete file holds what was kept of it and
/// then every byte that was received.
pub proof fn law_failed_transfer_keeps_what_was_received(
    start: DownloaderView,
    events: Seq<Event>,
    worlds: Seq<World>,
)
    requires
        disk::is_run(start, events, worlds),
        start.target != start.temp,
        start.stepped_all(events).phase matches PhaseView::Finished { outcome: Err(error) }
            && is_transfer_error(error),
    ensures
        keeps_target(
            worlds[0].files,
            disk::told_by(events[0]),
            worlds.last().files,
            start.target,
            start.temp,
        ),
        holds_received(worlds[0].files, worlds.last(), start.temp, worlds.last().read),
{
    assert(events.len() > 0);
    let last = events.len() - 1;
    lemma_run_keeps_shape(start, events, worlds, last);
    disk::lemma_steps_keep_paths(start, events.drop_last());
    assert(events.take(last) == events.drop_last());
    assert(disk::is_run_step(start, events, worlds, last));
    lemma_transfer_errors(start.stepped_all(events.drop_last()), events.last());
}

/// The events of a run answer the work of the download.
proof fn lemma_run_is_answered(start: DownloaderView, events: Seq<Event>, worlds: Seq<World>)
    requires
        disk::is_run(start, events, worlds),
    ensures
        told::is_answered(start, events),
{
    assert forall|i: int| 0 <= i < events.len() implies (#[trigger] start.stepped_all(
        events.take(i),
    )).accepts(events[i]) by {
        assert(disk::is_run_step(start, events, worlds, i));
    }
}

/// Once a response is being read, it stays the same, and so does what was kept.
proof fn lemma_transfer_keeps_response(
    start: DownloaderView,
    events: Seq<Event>,
    worlds: Seq<World>,
    from: int,
    to: int,
)
    requires
        disk::is_run(start, events, worlds),
        0 <= from <= to <= events.len(),
        start.stepped_all(events.take(from)).phase is Reading,
    ensures
        worlds[to].response == worlds[from].response,
        worlds[to].opened == worlds[from].opened,
        ({
            let phase = start.stepped_all(events.take(to)).phase;
            ||| disk::counted_bytes(phase) is Some
            ||| phase is Finished
        }),
    decreases to - from,
{
    if to > from {
        lemma_transfer_keeps_response(start, events, worlds, from, to - 1);
        assert(events.take(to).drop_last() == events.take(to - 1));
        assert(events.take(to).last() == events[to - 1]);
        assert(disk::is_run_step(start, events, worlds, to - 1));
    }
}

/// From the first byte of a response to its end, the reports are reports of
/// progress whose counts grow from above what was kept to at most that and the
/// whole response. There is one unless the response is empty, and none if it is.
pub proof fn law_whole_response_is_told(
    start: DownloaderView,
    events: Seq<Event>,
    worlds: Seq<World>,
    resumed: u64,
    total: Option<u64>,
    from: int,
    to: int,
)
    requires
        disk::is_run(start, events, worlds),
        start.target != start.temp,
        0 <= from <= to <= events.len(),
        start.stepped_all(events.take(from)).phase == (PhaseView::Reading {
            downloaded_bytes: resumed,
            total_bytes: total,
            reported: false,
        }),
        start.stepped_all(events.take(to)).phase is Flushing,
    ensures
        resumed + worlds[from].response.len() <= u64::MAX,
        ({
            let reports = told::reports_between(start, events, from, to);
            let body = worlds[from].response;
            &&& told::is_progress(reports, resumed, (resumed + body.len()) as u64, total)
            &&& reports.len() > 0 <==> body.len() > 0
        }),
{
    lemma_run_is_answered(start, events, worlds);
    lemma_run_keeps_shape(start, events, worlds, from);
    lemma_run_keeps_shape(start, events, worlds, to);
    lemma_transfer_keeps_response(start, events, worlds, from, to);
    told::law_transfer_is_told(start, events, resumed, total, from, to);
}

/// A request for the file asks for it from the byte on that comes after the
/// incomplete file as it is on the disk by then. The incomplete file and the
/// target are by then as they were, except that one that is larger than the
/// server told, or a target of another size, is gone.
pub proof fn law_request_asks_for_what_is_missing(
    start: DownloaderView,
    events: Seq<Event>,
    worlds: Seq<World>,
    at: int,
)
    requires
        disk::is_run(start, events, worlds),
        start.target != start.temp,
        0 <= at <= events.len(),
        start.stepped_all(events.take(at)).action() is Send,
    ensures
        ({
            let action = start.stepped_all(events.take(at)).action();
            let first = worlds[0].files;
            let told = disk::told_by(events[0]);
            let files = worlds[at].files;
            &&& disk::asks_from(action->Send_range, size_at(files, start.temp))
            &&& action->Send_url == start.url
            &&& keeps_partial(first, told, files, start.temp)
            &&& keeps_target(first, told, files, start.target, start.temp)
        }),
{
    lemma_run_keeps_shape(start, events, worlds, at);
    disk::lemma_steps_keep_paths(start, events.take(at));
    lemma_steps_keep_url(start, events.take(at));
    disk::lemma_request_asks_from(start.stepped_all(events.take(at)));
}

proof fn lemma_steps_keep_url(start: DownloaderView, events: Seq<Event>)
    ensures
        start.stepped_all(events).url == start.url,
    decreases events.len(),
{
    if events.len() > 0 {
        lemma_steps_keep_url(start, events.drop_last());
    }
}

/// A response to the request for the file is taken exactly if its status is one
/// of 200 to 299. Then the incomplete file is opened next, to append to it if
/// the response is a rest of the file, which 206 says, and there is something
/// that it can continue, and else to write it anew. Any other response ends the
/// download with an error that tells the status and the address.
pub proof fn law_response_is_taken_or_refused(
    start: DownloaderView,
    events: Seq<Event>,
    worlds: Seq<World>,
    at: int,
)
    requires
        disk::is_run(start, events, worlds),
        start.target != start.temp,
        0 <= at < events.len(),
        start.stepped_all(events.take(at)).action() is Send,
        events[at] matches Event::Responded(Ok(_)),
    ensures
        ({
            let head = events[at]->Responded_0->Ok_0;
            let next = start.stepped_all(events.take(at + 1));
            &&& worlds[at + 1].files == worlds[at].files
            &&& 200 <= head.status <= 299 ==> next.action() == (ActionView::Open {
                path: start.temp,
                append: head.status == 206 && size_at(worlds[at].files, start.temp) > 0,
            })
            &&& !(200 <= head.status <= 299) ==> {
                &&& next.action() is Finish
                &&& events.len() == at + 1
                &&& next.phase matches PhaseView::Finished { outcome: Err((code, message)) }
                &&& code == "NET-003"@
                &&& exists|digits: Seq<char>|
                    plain::writes(digits, head.status as nat) && message
                        == #[trigger] ("下载被服务器拒绝：HTTP "@ + digits + "，地址："@ + start.url)
            }
        }),
{
    let download = start.stepped_all(events.take(at));
    let head = events[at]->Responded_0->Ok_0;
    lemma_run_keeps_shape(start, events, worlds, at);
    disk::lemma_steps_keep_paths(start, events.take(at));
    lemma_steps_keep_url(start, events.take(at));
    assert(events.take(at + 1).drop_last() == events.take(at));
    assert(events.take(at + 1).last() == events[at]);
    assert(disk::is_run_step(start, events, worlds, at));
    plain::law_decimal_writes_the_number(head.status as nat);
    if !(200 <= head.status <= 299) {
        if at + 1 < events.len() {
            assert(disk::is_run_step(start, events, worlds, at + 1));
            assert(false);
        }
    }
}

/// The size of the whole file that is known when the response with the given
/// head is there: what the response tells, where `kept` bytes stand before a
/// rest of the file; and what the probe told, if the response tells nothing.
pub open spec fn known_size(probe: Event, head: ResponseHead, kept: nat) -> Option<nat> {
    if head.status == 206 && plain::range_size_of(head) is Some {
        Some(plain::range_size_of(head)->0 as nat)
    } else if plain::length_of(head) is Some {
        Some((plain::length_of(head)->0 + if head.status == 206 { kept } else { 0 }) as nat)
    } else {
        match disk::told_by(probe) {
            Some(size) => Some(size as nat),
            None => None,
        }
    }
}

/// The total that a phase from the opening of the file on works with is `total`,
/// and the file that is complete has that many bytes.
spec fn has_total(total: Option<u64>, target: Seq<char>, phase: PhaseView, world: World) -> bool {
    match phase {
        PhaseView::Opening { plan } => plan.total_bytes == total,
        PhaseView::Reading { total_bytes, .. } => total_bytes == total,
        PhaseView::Writing { total_bytes, .. } => total_bytes == total,
        PhaseView::Flushing { total_bytes, .. } => total_bytes == total,
        PhaseView::CheckingReplaced { downloaded_bytes, .. } => total is None || total == Some(
            downloaded_bytes,
        ),
        PhaseView::RemovingReplaced { downloaded_bytes, .. } => total is None || total == Some(
            downloaded_bytes,
        ),
        PhaseView::Renaming { downloaded_bytes, .. } => total is None || total == Some(
            downloaded_bytes,
        ),
        PhaseView::Finished { outcome: Ok(_) } => total matches Some(size) ==> {
            &&& world.files.contains_key(target)
            &&& world.files[target].len() == size
        },
        PhaseView::Finished { outcome: Err(_) } => true,
        _ => false,
    }
}

proof fn lemma_total_is_kept(
    start: DownloaderView,
    events: Seq<Event>,
    worlds: Seq<World>,
    total: Option<u64>,
    from: int,
    to: int,
)
    requires
        disk::is_run(start, events, worlds),
        start.target != start.temp,
        0 <= from <= to <= events.len(),
        start.stepped_all(events.take(from)).phase matches PhaseView::Opening { plan }
            && plan.total_bytes == total,
    ensures
        has_total(total, start.target, start.stepped_all(events.take(to)).phase, worlds[to]),
    decreases to - from,
{
    if to > from {
        lemma_total_is_kept(start, events, worlds, total, from, to - 1);
        lemma_run_keeps_shape(start, events, worlds, to - 1);
        disk::lemma_steps_keep_paths(start, events.take(to - 1));
        assert(events.take(to).drop_last() == events.take(to - 1));
        assert(events.take(to).last() == events[to - 1]);
        assert(disk::is_run_step(start, events, worlds, to - 1));
    }
}

/// Where the size of the whole file is known when a transfer starts, a download
/// that succeeds leaves a file of exactly that many bytes at the target, and so
/// many were kept and received, whatever the server sent. A response that ends
/// early or late can only end in an error.
pub proof fn law_success_has_the_known_size(
    start: DownloaderView,
    events: Seq<Event>,
    worlds: Seq<World>,
    at: int,
)
    requires
        disk::is_run(start, events, worlds),
        start.target != start.temp,
        0 <= at < events.len(),
        start.stepped_all(events.take(at)).action() is Send,
        events[at] matches Event::Responded(Ok(_)),
        start.stepped_all(events).phase == (PhaseView::Finished { outcome: Ok(()) }),
    ensures
        ({
            let head = events[at]->Responded_0->Ok_0;
            let before = size_at(worlds[at].files, start.temp);
            let kept = if head.status == 206 {
                before
            } else {
                0
            };
            known_size(events[0], head, before) matches Some(size) ==> {
                &&& worlds.last().files.contains_key(start.target)
                &&& worlds.last().files[start.target].len() == size
                &&& kept + worlds[at + 1].response.len() == size
            }
        }),
{
    let last = events.len() as int;
    let download = start.stepped_all(events.take(at));
    let head = events[at]->Responded_0->Ok_0;
    let resumed = download.phase->resumed_bytes;
    assert(events.take(last) == events);
    lemma_run_keeps_shape(start, events, worlds, at);
    law_response_is_taken_or_refused(start, events, worlds, at);
    assert(events.take(at + 1).drop_last() == events.take(at));
    assert(events.take(at + 1).last() == events[at]);
    assert(disk::is_run_step(start, events, worlds, at));
    let kept = download::kept_bytes(head, resumed) as nat;
    plain::law_whole_size_is_read_from_the_headers(head, kept);
    let opening = start.stepped_all(events.take(at + 1)).phase;
    assert(opening is Opening);
    assert(at + 1 < last);
    lemma_total_is_kept(start, events, worlds, opening->plan.total_bytes, at + 1, last);
    law_success_leaves_the_response(start, events, worlds, at + 1);
    lemma_run_keeps_shape(start, events, worlds, at + 1);
    disk::lemma_steps_keep_paths(start, events.take(at + 1));
}

/// A target that is not of the size that the server told, with no incomplete
/// file beside it, does not survive: a download that succeeds leaves the
/// response in its place.
pub proof fn law_outdated_target_is_replaced(
    start: DownloaderView,
    events: Seq<Event>,
    worlds: Seq<World>,
    size: u64,
)
    requires
        disk::is_run(start, events, worlds),
        start.target != start.temp,
        events.len() > 0,
        disk::told_by(events[0]) == Some(size),
        worlds[0].files.contains_key(start.target),
        worlds[0].files[start.target].len() != size,
        !worlds[0].files.contains_key(start.temp),
        start.stepped_all(events).phase == (PhaseView::Finished { outcome: Ok(()) }),
    ensures
        disk::holds(worlds.last().files, start.target, worlds.last().response),
{
    law_success_leaves_a_target(start, events, worlds);
    assert(worlds.last().opened + worlds.last().response == worlds.last().response);
}

/// A target of the size that the server told, or of any size where it told none,
/// with no incomplete file beside it, is kept: no request is made for the file,
/// and nothing on the disk changes.
pub proof fn law_current_target_is_kept(
    start: DownloaderView,
    events: Seq<Event>,
    worlds: Seq<World>,
    at: int,
)
    requires
        disk::is_run(start, events, worlds),
        start.target != start.temp,
        events.len() > 0,
        worlds[0].files.contains_key(start.target),
        !worlds[0].files.contains_key(start.temp),
        disk::told_by(events[0]) matches Some(size) ==> worlds[0].files[start.target].len()
            == size,
        0 <= at <= events.len(),
    ensures
        worlds[at].files == worlds[0].files,
        ({
            let action = start.stepped_all(events.take(at)).action();
            action is Probe || action is Exists || action is FileSize || action is Finish
        }),
        at > 0 && (events[at - 1] matches Event::Size(Ok(_))) ==> start.stepped_all(
            events.take(at),
        ).phase == (PhaseView::Finished { outcome: Ok(()) }),
{
    lemma_current_target(start, events, worlds, at);
}

proof fn lemma_current_target(
    start: DownloaderView,
    events: Seq<Event>,
    worlds: Seq<World>,
    at: int,
)
    requires
        disk::is_run(start, events, worlds),
        start.target != start.temp,
        events.len() > 0,
        worlds[0].files.contains_key(start.target),
        !worlds[0].files.contains_key(start.temp),
        disk::told_by(events[0]) matches Some(size) ==> worlds[0].files[start.target].len()
            == size,
        0 <= at <= events.len(),
    ensures
        worlds[at].files == worlds[0].files,
        ({
            let phase = start.stepped_all(events.take(at)).phase;
            ||| phase is Probing || phase is CheckingTarget || phase is CheckingBeside
            ||| phase is SizingTarget || phase is Finished
        }),
        at > 0 && (events[at - 1] matches Event::Size(Ok(_))) ==> start.stepped_all(
            events.take(at),
        ).phase == (PhaseView::Finished { outcome: Ok(()) }),
    decreases at,
{
    lemma_run_keeps_shape(start, events, worlds, at);
    disk::lemma_steps_keep_paths(start, events.take(at));
    if at > 0 {
        lemma_current_target(start, events, worlds, at - 1);
        lemma_run_keeps_shape(start, events, worlds, at - 1);
        disk::lemma_steps_keep_paths(start, events.take(at - 1));
        assert(events.take(at).drop_last() == events.take(at - 1));
        assert(events.take(at).last() == events[at - 1]);
        assert(disk::is_run_step(start, events, worlds, at - 1));
    }
}

/// The phases of a download that finds its incomplete file complete.
spec fn is_complete_phase(phase: PhaseView) -> bool {
    ||| phase is Probing || phase is CheckingTarget || phase is CheckingBeside
    ||| phase is CheckingComplete || phase is SizingComplete || phase is CheckingReplaced
    ||| phase is RemovingReplaced || phase is Renaming || phase is Finished
}

/// An incomplete file of the size that the server told is the whole file: no
/// request is made for it, and a download that succeeds leaves it at the target.
pub proof fn law_complete_file_only_gets_its_name(
    start: DownloaderView,
    events: Seq<Event>,
    worlds: Seq<World>,
    at: int,
)
    requires
        disk::is_run(start, events, worlds),
        start.target != start.temp,
        events.len() > 0,
        worlds[0].files.contains_key(start.temp),
        disk::told_by(events[0]) matches Some(size) && size == worlds[0].files[start.temp].len(),
        0 <= at <= events.len(),
    ensures
        ({
            let action = start.stepped_all(events.take(at)).action();
            !(action is Send || action is Open || action is Read || action is Write)
        }),
        start.stepped_all(events.take(at)).phase == (PhaseView::Finished { outcome: Ok(()) })
            ==> disk::holds(worlds[at].files, start.target, worlds[0].files[start.temp]),
{
    lemma_complete_file(start, events, worlds, at);
}

proof fn lemma_complete_file(
    start: DownloaderView,
    events: Seq<Event>,
    worlds: Seq<World>,
    at: int,
)
    requires
        disk::is_run(start, events, worlds),
        start.target != start.temp,
        events.len() > 0,
        worlds[0].files.contains_key(start.temp),
        disk::told_by(events[0]) matches Some(size) && size == worlds[0].files[start.temp].len(),
        0 <= at <= events.len(),
    ensures
        is_complete_phase(start.stepped_all(events.take(at)).phase),
        ({
            let phase = start.stepped_all(events.take(at)).phase;
            let whole = worlds[0].files[start.temp];
            &&& phase == (PhaseView::Finished { outcome: Ok(()) }) ==> disk::holds(
                worlds[at].files,
                start.target,
                whole,
            )
            &&& !(phase is Finished) ==> disk::holds(worlds[at].files, start.temp, whole)
        }),
    decreases at,
{
    lemma_run_keeps_shape(start, events, worlds, at);
    disk::lemma_steps_keep_paths(start, events.take(at));
    if at > 0 {
        lemma_complete_file(start, events, worlds, at - 1);
        lemma_run_keeps_shape(start, events, worlds, at - 1);
        disk::lemma_steps_keep_paths(start, events.take(at - 1));
        assert(events.take(at).drop_last() == events.take(at - 1));
        assert(events.take(at).last() == events[at - 1]);
        assert(disk::is_run_step(start, events, worlds, at - 1));
    }
}

} // verus!
