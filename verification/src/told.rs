//! What the user is told in the course of a download and of an installation.

use crate::disk;
use crate::download::{DownloaderView, PhaseView};
use crate::install::{Install, StageView};
use crate::laws;
use crate::report;
use crate::report::EventView;
use crate::work::Event;
use vstd::prelude::*;

verus! {

/// Each event can answer the work that is next by then.
pub open spec fn is_answered(start: DownloaderView, events: Seq<Event>) -> bool {
    forall|i: int|
        0 <= i < events.len() ==> (#[trigger] start.stepped_all(events.take(i))).accepts(events[i])
}

/// What the user is told from the event at `from` to the one before `to`.
pub open spec fn reports_between(
    start: DownloaderView,
    events: Seq<Event>,
    from: int,
    to: int,
) -> Seq<EventView>
    decreases to - from,
{
    if to <= from {
        seq![]
    } else {
        reports_between(start, events, from, to - 1) + start.stepped_all(
            events.take(to - 1),
        ).next(events[to - 1]).1
    }
}

/// None of the reports has the given stage.
pub open spec fn none_is(reports: Seq<EventView>, stage: Seq<char>) -> bool {
    forall|i: int| 0 <= i < reports.len() ==> (#[trigger] reports[i]).stage != stage
}

/// The last report has the given stage, and no other has it.
pub open spec fn last_alone_is(reports: Seq<EventView>, stage: Seq<char>) -> bool {
    &&& reports.len() > 0
    &&& reports.last().stage == stage
    &&& none_is(reports.drop_last(), stage)
}

/// What one event of a download makes known of its end.
proof fn lemma_step_tells_the_end(download: DownloaderView, event: Event)
    requires
        download.accepts(event),
    ensures
        ({
            let (phase, reports) = download.next(event);
            &&& none_is(reports, "error"@)
            &&& if phase == (PhaseView::Finished { outcome: Ok(()) }) {
                &&& reports.len() == 1
                &&& reports[0].stage == "completed"@
                &&& reports[0].output_path == Some(download.target)
            } else {
                none_is(reports, "completed"@)
            }
        }),
{
    report::lemma_stages_differ();
}

proof fn lemma_steps_tell_the_end(start: DownloaderView, events: Seq<Event>, at: int)
    requires
        is_answered(start, events),
        !(start.phase is Finished),
        0 <= at <= events.len(),
    ensures
        ({
            let reports = reports_between(start, events, 0, at);
            &&& none_is(reports, "error"@)
            &&& if start.stepped_all(events.take(at)).phase == (PhaseView::Finished {
                outcome: Ok(()),
            }) {
                last_alone_is(reports, "completed"@)
            } else {
                none_is(reports, "completed"@)
            }
        }),
    decreases at,
{
    if at > 0 {
        lemma_steps_tell_the_end(start, events, at - 1);
        let download = start.stepped_all(events.take(at - 1));
        assert(events.take(at).drop_last() == events.take(at - 1));
        assert(events.take(at).last() == events[at - 1]);
        assert(download.accepts(events[at - 1]));
        lemma_step_tells_the_end(download, events[at - 1]);
        let before = reports_between(start, events, 0, at - 1);
        let reports = reports_between(start, events, 0, at);
        let added = download.next(events[at - 1]).1;
        assert(reports == before + added);
        if added.len() == 1 {
            assert(reports.drop_last() == before);
        }
    }
}

/// A download that succeeds reports that the file is there once, and last. One
/// that fails or is under way does not report it. A download itself reports no
/// error.
pub proof fn law_completion_is_told_once(start: DownloaderView, events: Seq<Event>)
    requires
        is_answered(start, events),
        start.phase == PhaseView::Probing,
    ensures
        ({
            let reports = reports_between(start, events, 0, events.len() as int);
            &&& none_is(reports, "error"@)
            &&& if start.stepped_all(events).phase == (PhaseView::Finished { outcome: Ok(()) }) {
                last_alone_is(reports, "completed"@)
            } else {
                none_is(reports, "completed"@)
            }
        }),
{
    lemma_steps_tell_the_end(start, events, events.len() as int);
    assert(events.take(events.len() as int) == events);
}

/// Reports of progress of a file of `total` bytes: the counts grow from report
/// to report, and lie above `low` and no higher than `high`.
pub open spec fn is_progress(
    reports: Seq<EventView>,
    low: u64,
    high: u64,
    total: Option<u64>,
) -> bool {
    &&& forall|i: int|
        0 <= i < reports.len() ==> {
            &&& (#[trigger] reports[i]).downloaded_bytes is Some
            &&& reports[i] == report::progress_event(reports[i].downloaded_bytes->0, total)
            &&& low < reports[i].downloaded_bytes->0 <= high
        }
    &&& forall|i: int, j: int|
        0 <= i < j < reports.len() ==> (#[trigger] reports[i]).downloaded_bytes->0 < (
        #[trigger] reports[j]).downloaded_bytes->0
}

/// What is known in each phase after the transfer began with `resumed` bytes of
/// `total`, when `reports` is what the user was told since.
spec fn in_transfer(
    reports: Seq<EventView>,
    resumed: u64,
    total: Option<u64>,
    phase: PhaseView,
) -> bool {
    match phase {
        PhaseView::Reading { downloaded_bytes, total_bytes, reported } => {
            &&& total_bytes == total
            &&& resumed <= downloaded_bytes
            &&& is_progress(reports, resumed, downloaded_bytes, total)
            &&& reported == (downloaded_bytes > resumed)
            &&& reported == (reports.len() > 0)
        },
        PhaseView::Writing { downloaded_bytes, total_bytes, reported, chunk } => {
            &&& total_bytes == total
            &&& resumed <= downloaded_bytes
            &&& is_progress(reports, resumed, downloaded_bytes, total)
            &&& reported == (downloaded_bytes > resumed)
            &&& reported == (reports.len() > 0)
            &&& chunk > 0
        },
        PhaseView::Flushing { downloaded_bytes, total_bytes } => {
            &&& total_bytes == total
            &&& resumed <= downloaded_bytes
            &&& is_progress(reports, resumed, downloaded_bytes, total)
            &&& (downloaded_bytes > resumed) == (reports.len() > 0)
        },
        PhaseView::CheckingReplaced { .. } => true,
        PhaseView::RemovingReplaced { .. } => true,
        PhaseView::Renaming { .. } => true,
        PhaseView::Finished { .. } => true,
        _ => false,
    }
}

proof fn lemma_transfer_is_told(
    start: DownloaderView,
    events: Seq<Event>,
    resumed: u64,
    total: Option<u64>,
    from: int,
    to: int,
)
    requires
        is_answered(start, events),
        0 <= from <= to <= events.len(),
        start.stepped_all(events.take(from)).phase == (PhaseView::Reading {
            downloaded_bytes: resumed,
            total_bytes: total,
            reported: false,
        }),
    ensures
        in_transfer(
            reports_between(start, events, from, to),
            resumed,
            total,
            start.stepped_all(events.take(to)).phase,
        ),
    decreases to - from,
{
    if to > from {
        lemma_transfer_is_told(start, events, resumed, total, from, to - 1);
        let download = start.stepped_all(events.take(to - 1));
        assert(events.take(to).drop_last() == events.take(to - 1));
        assert(events.take(to).last() == events[to - 1]);
        assert(download.accepts(events[to - 1]));
        let before = reports_between(start, events, from, to - 1);
        let added = download.next(events[to - 1]).1;
        assert(reports_between(start, events, from, to) == before + added);
        if added.len() == 0 {
            assert(before + added == before);
        }
    }
}

/// While a response is read, every report is one of progress. The first chunk
/// is reported, and the counts that are reported grow, from above what was
/// there before to at most what is there by then.
pub proof fn law_transfer_is_told(
    start: DownloaderView,
    events: Seq<Event>,
    resumed: u64,
    total: Option<u64>,
    from: int,
    to: int,
)
    requires
        is_answered(start, events),
        0 <= from <= to <= events.len(),
        start.stepped_all(events.take(from)).phase == (PhaseView::Reading {
            downloaded_bytes: resumed,
            total_bytes: total,
            reported: false,
        }),
        ({
            let phase = start.stepped_all(events.take(to)).phase;
            phase is Reading || phase is Writing || phase is Flushing
        }),
    ensures
        ({
            let phase = start.stepped_all(events.take(to)).phase;
            let reports = reports_between(start, events, from, to);
            let downloaded = disk::counted_bytes(phase)->0;
            &&& is_progress(reports, resumed, downloaded, total)
            &&& reports.len() > 0 <==> downloaded > resumed
        }),
{
    lemma_transfer_is_told(start, events, resumed, total, from, to);
}

/// All that the user was told, in order.
pub open spec fn all_told(told: Seq<Seq<EventView>>) -> Seq<EventView>
    decreases told.len(),
{
    if told.len() == 0 {
        seq![]
    } else {
        all_told(told.drop_last()) + told.last()
    }
}

/// What the user was told is what an installation at the given stage tells of
/// its end: that the file is there or the error, if it is finished, and that
/// once and last; and neither of them otherwise.
pub open spec fn tells_the_end(reports: Seq<EventView>, stage: StageView) -> bool {
    match stage {
        StageView::Finished { outcome: Ok(path) } => {
            &&& last_alone_is(reports, "completed"@)
            &&& reports.last().output_path == Some(path)
            &&& none_is(reports, "error"@)
        },
        StageView::Finished { outcome: Err(error) } => {
            &&& last_alone_is(reports, "error"@)
            &&& reports.last() == report::fail_event(error)
            &&& none_is(reports, "completed"@)
        },
        _ => none_is(reports, "completed"@) && none_is(reports, "error"@),
    }
}

proof fn lemma_installation_tells_the_end(
    states: Seq<Install>,
    events: Seq<Event>,
    told: Seq<Seq<EventView>>,
    at: int,
)
    requires
        laws::is_installation(states, events, told),
        0 <= at <= events.len(),
    ensures
        tells_the_end(all_told(told.take(at)), states[at].stage@),
        states[at].stage@ matches StageView::Downloading { downloader } ==> !(
        downloader.phase is Finished),
    decreases at,
{
    if at > 0 {
        lemma_installation_tells_the_end(states, events, told, at - 1);
        assert(laws::is_install_step(states, events, told, at - 1));
        assert(told.take(at).drop_last() == told.take(at - 1));
        assert(told.take(at).last() == told[at - 1]);
        report::lemma_stages_differ();
        let before = all_told(told.take(at - 1));
        let added = told[at - 1];
        let reports = all_told(told.take(at));
        assert(reports == before + added);
        if states[at - 1].stage@ is Downloading {
            lemma_step_tells_the_end(states[at - 1].stage@->downloader, events[at - 1]);
        }
        if added.len() > 0 {
            assert(reports.drop_last() == before + added.drop_last());
        }
    }
}

/// An installation that succeeds reports that the file is there once, and last,
/// with the path that it gives back, and no error. One that fails reports its
/// error once, and last, and no file. While it is under way it reports neither.
pub proof fn law_end_is_told_once(
    states: Seq<Install>,
    events: Seq<Event>,
    told: Seq<Seq<EventView>>,
)
    requires
        laws::is_installation(states, events, told),
    ensures
        tells_the_end(all_told(told), states.last().stage@),
{
    lemma_installation_tells_the_end(states, events, told, events.len() as int);
    assert(told.take(told.len() as int) == told);
}

} // verus!
