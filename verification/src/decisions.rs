//! What a download and an installation decide, step by step, in plain numbers
//! and texts: which work comes next, which answers it takes, what follows from
//! each answer, and what the user is told.

use crate::config::DownloadConfig;
use crate::disk;
use crate::download::{
    Downloader, DownloadPlan, DownloaderView, Phase, PhaseView, PlanView,
};
use crate::error;
use crate::error::{AppError, AppResult, IoFailure, RequestFailure};
use crate::install;
use crate::install::{Install, Stage, StageView};
use crate::paths;
use crate::plain;
use crate::report;
use crate::report::{DownloadEvent, EventView, InstallResult, DOWNLOAD_EVENT};
use crate::response::ResponseHead;
use crate::size;
use crate::text;
use crate::work::{
    Action, ActionView, Event, BUFFER_SIZE, MAX_REDIRECTS, PROGRESS_INTERVAL_MS, USER_AGENT,
};
use vstd::prelude::*;

verus! {

/// `phase` follows, and the user is told nothing.
pub open spec fn is_quiet(step: (PhaseView, Seq<EventView>), phase: PhaseView) -> bool {
    step.0 == phase && step.1.len() == 0
}

/// The download fails with the given code and message, and tells the user nothing itself.
pub open spec fn is_failed(
    step: (PhaseView, Seq<EventView>),
    code: Seq<char>,
    message: Seq<char>,
) -> bool {
    &&& step.0 == PhaseView::Finished { outcome: Err((code, message)) }
    &&& step.1.len() == 0
}

/// The download is over, and the user is told once that the file is there.
pub open spec fn is_done(
    step: (PhaseView, Seq<EventView>),
    message: Seq<char>,
    target: Seq<char>,
    bytes: u64,
    total: Option<u64>,
) -> bool {
    &&& step.0 == PhaseView::Finished { outcome: Ok(()) }
    &&& step.1.len() == 1
    &&& step.1[0].stage == "completed"@
    &&& step.1[0].message == Some(message)
    &&& step.1[0].downloaded_bytes == Some(bytes)
    &&& step.1[0].total_bytes == if total is Some {
        total
    } else {
        Some(bytes)
    }
    &&& step.1[0].output_path == Some(target)
}

/// Each phase asks for one piece of work, on the file or the address that it is about.
pub proof fn law_work_of_each_phase(download: DownloaderView)
    ensures
        ({
            let phase = download.phase;
            let action = download.action();
            let target = download.target;
            let temp = download.temp;
            &&& phase is Probing ==> action == (ActionView::Probe { url: download.url })
            &&& phase is CheckingTarget || phase is CheckingReplaced ==> action == (
            ActionView::Exists { path: target })
            &&& phase is CheckingBeside || phase is CheckingComplete || phase is CheckingPartial
                ==> action == (ActionView::Exists { path: temp })
            &&& phase is SizingTarget ==> action == (ActionView::FileSize { path: target })
            &&& phase is SizingComplete || phase is SizingPartial ==> action == (
            ActionView::FileSize { path: temp })
            &&& phase is RemovingStale || phase is RemovingReplaced ==> action == (
            ActionView::Remove { path: target })
            &&& phase is RemovingOversized ==> action == (ActionView::Remove { path: temp })
            &&& phase is Requesting ==> {
                &&& action matches ActionView::Send { url, range }
                &&& url == download.url
                &&& disk::asks_from(range, phase->resumed_bytes as nat)
            }
            &&& phase is Opening ==> action == (ActionView::Open {
                path: temp,
                append: phase->plan.append_mode,
            })
            &&& phase is Reading ==> action is Read
            &&& phase is Writing ==> action is Write
            &&& phase is Flushing ==> action is Flush
            &&& phase is Renaming ==> action == (ActionView::Rename { from: temp, to: target })
            &&& phase is Finished ==> action is Finish
        }),
{
    if download.phase is Requesting {
        disk::lemma_request_asks_from(download);
    }
}

/// A piece of work takes every answer of its kind, as long as the bytes that it
/// makes the download count are fewer than two to the power of 64.
pub proof fn law_answers_of_each_phase(download: DownloaderView, event: Event)
    ensures
        ({
            let action = download.action();
            let taken = download.accepts(event);
            &&& action is Probe ==> taken == event is Probed
            &&& action is Exists ==> taken == event is Exists
            &&& action is FileSize ==> taken == event is Size
            &&& action is Remove || action is Open || action is Rename ==> taken == event is Done
            &&& action is Send ==> taken == (event is Responded && !(event matches Event::Responded(
                Ok(head),
            ) && head.status == 206 && plain::range_size_of(head) is None && plain::length_of(
                head,
            ) is Some && plain::length_of(head)->0 + download.phase->resumed_bytes
                >= 0x1_0000_0000_0000_0000))
            &&& action is Read ==> taken == (event is Read && (event matches Event::Read(Ok(count))
                ==> download.phase->Reading_downloaded_bytes + count < 0x1_0000_0000_0000_0000))
            &&& action is Write ==> taken == (event is Written
                && download.phase->Writing_downloaded_bytes + download.phase->chunk
                < 0x1_0000_0000_0000_0000)
            &&& action is Flush ==> taken == event is Flushed
            &&& action is Finish ==> !taken
        }),
{
    if let Event::Responded(Ok(head)) = event {
        if let PhaseView::Requesting { resumed_bytes, .. } = download.phase {
            plain::law_whole_size_is_read_from_the_headers(head, 0);
            plain::law_whole_size_is_read_from_the_headers(head, resumed_bytes as nat);
        }
    }
}

/// Where the target is out of the way, an incomplete file is looked at next: to
/// see whether it is complete if the size is known, and else to continue it.
pub open spec fn is_past_target(step: (PhaseView, Seq<EventView>), size: Option<u64>) -> bool {
    match size {
        Some(total) => is_quiet(step, PhaseView::CheckingComplete { total }),
        None => is_quiet(step, PhaseView::CheckingPartial { remote_total: None }),
    }
}

/// What the answers about the target lead to. A target with no incomplete file
/// beside it is kept if it has the size that the server told, or the server told
/// none, and removed otherwise.
pub proof fn law_looks_at_the_target(download: DownloaderView, event: Event)
    ensures
        ({
            let step = download.next(event);
            let target = download.target;
            &&& download.phase is Probing && event is Probed ==> is_quiet(
                step,
                PhaseView::CheckingTarget { remote_total: disk::told_by(event) },
            )
            &&& download.phase matches PhaseView::CheckingTarget { remote_total } ==> {
                &&& event == Event::Exists(true) ==> is_quiet(
                    step,
                    PhaseView::CheckingBeside { remote_total },
                )
                &&& event == Event::Exists(false) ==> is_past_target(step, remote_total)
            }
            &&& download.phase matches PhaseView::CheckingBeside { remote_total } ==> {
                &&& event == Event::Exists(true) ==> is_past_target(step, remote_total)
                &&& event == Event::Exists(false) ==> is_quiet(
                    step,
                    PhaseView::SizingTarget { remote_total },
                )
            }
            &&& download.phase matches PhaseView::SizingTarget { remote_total } ==> {
                &&& event matches Event::Size(Ok(bytes)) ==> if remote_total is Some
                    && remote_total->0 != bytes {
                    is_quiet(step, PhaseView::RemovingStale { remote_total })
                } else {
                    is_done(step, "文件已存在"@, target, bytes, remote_total)
                }
                &&& event matches Event::Size(Err(cause)) ==> is_failed(
                    step,
                    "FS-009"@,
                    "读取文件信息失败 "@ + target + "："@ + cause@,
                )
            }
            &&& download.phase matches PhaseView::RemovingStale { remote_total } ==> {
                &&& event == Event::Done(Ok(())) ==> is_past_target(step, remote_total)
                &&& event matches Event::Done(Err(cause)) ==> is_failed(
                    step,
                    "FS-002"@,
                    "清理旧文件失败"@ + " "@ + target + "："@ + cause@,
                )
            }
        }),
{
    if let Event::Probed(head) = event {
        plain::law_probe_reads_the_content_length(head);
    }
}

/// What the answers about the incomplete file lead to. One of the size that the
/// server told is complete, a larger one is removed, and a smaller one is
/// continued, as is any where the server told no size.
pub proof fn law_looks_at_the_incomplete_file(download: DownloaderView, event: Event)
    ensures
        ({
            let step = download.next(event);
            let temp = download.temp;
            &&& download.phase matches PhaseView::CheckingComplete { total } ==> {
                &&& event == Event::Exists(true) ==> is_quiet(
                    step,
                    PhaseView::SizingComplete { total },
                )
                &&& event == Event::Exists(false) ==> is_quiet(
                    step,
                    PhaseView::CheckingPartial { remote_total: Some(total) },
                )
            }
            &&& download.phase matches PhaseView::SizingComplete { total } ==> {
                &&& event matches Event::Size(Ok(bytes)) ==> {
                    &&& bytes == total ==> is_quiet(
                        step,
                        PhaseView::CheckingReplaced {
                            downloaded_bytes: total,
                            total_bytes: Some(total),
                        },
                    )
                    &&& bytes > total ==> is_quiet(step, PhaseView::RemovingOversized { total })
                    &&& bytes < total ==> is_quiet(
                        step,
                        PhaseView::CheckingPartial { remote_total: Some(total) },
                    )
                }
                &&& event matches Event::Size(Err(cause)) ==> is_failed(
                    step,
                    "FS-009"@,
                    "读取文件信息失败 "@ + temp + "："@ + cause@,
                )
            }
            &&& download.phase matches PhaseView::RemovingOversized { total } ==> {
                &&& event == Event::Done(Ok(())) ==> is_quiet(
                    step,
                    PhaseView::CheckingPartial { remote_total: Some(total) },
                )
                &&& event matches Event::Done(Err(cause)) ==> is_failed(
                    step,
                    "FS-003"@,
                    "清理临时文件失败"@ + " "@ + temp + "："@ + cause@,
                )
            }
            &&& download.phase matches PhaseView::CheckingPartial { remote_total } ==> {
                &&& event == Event::Exists(true) ==> is_quiet(
                    step,
                    PhaseView::SizingPartial { remote_total },
                )
                &&& event == Event::Exists(false) ==> is_quiet(
                    step,
                    PhaseView::Requesting { remote_total, resumed_bytes: 0 },
                )
            }
            &&& download.phase matches PhaseView::SizingPartial { remote_total } ==> {
                &&& event matches Event::Size(Ok(bytes)) ==> is_quiet(
                    step,
                    PhaseView::Requesting { remote_total, resumed_bytes: bytes },
                )
                &&& event matches Event::Size(Err(cause)) ==> is_failed(
                    step,
                    "FS-009"@,
                    "读取文件信息失败 "@ + temp + "："@ + cause@,
                )
            }
        }),
{
}

/// A plan follows from a response: the incomplete file is kept exactly if there
/// is something in it and the response is a rest of the file, which the status
/// 206 says. The total is what the response tells, or else what was known. The
/// message tells which it is.
pub open spec fn is_plan(
    plan: PlanView,
    head: ResponseHead,
    known: Option<u64>,
    resumed: u64,
) -> bool {
    let kept = if head.status == 206 {
        resumed
    } else {
        0
    };
    &&& plan.append_mode == (resumed > 0 && head.status == 206)
    &&& plan.resumed_bytes == kept
    &&& head.status == 206 && plain::range_size_of(head) is Some ==> plan.total_bytes
        == plain::range_size_of(head)
    &&& !(head.status == 206 && plain::range_size_of(head) is Some) ==> if plain::length_of(
        head,
    ) is Some {
        plan.total_bytes == Some((plain::length_of(head)->0 + kept) as u64)
    } else {
        plan.total_bytes == known
    }
    &&& plan.status_message == if resumed == 0 {
        "开始下载"@
    } else if head.status == 206 {
        "继续下载（"@ + size::size_text(resumed as nat) + "）"@
    } else {
        "重新下载"@
    }
}

/// What the answer to the request for the file leads to. A status of 200 to 299
/// is taken, every other one is refused.
pub proof fn law_answer_to_the_request(download: DownloaderView, event: Event)
    requires
        download.phase is Requesting,
        download.accepts(event),
    ensures
        ({
            let step = download.next(event);
            &&& event matches Event::Responded(Ok(head)) ==> if 200 <= head.status <= 299 {
                &&& step.1.len() == 0
                &&& step.0 matches PhaseView::Opening { plan }
                &&& is_plan(
                    plan,
                    head,
                    download.phase->Requesting_remote_total,
                    download.phase->resumed_bytes,
                )
            } else {
                is_failed(
                    step,
                    "NET-003"@,
                    "下载被服务器拒绝：HTTP "@ + text::decimal(head.status as nat) + "，地址："@
                        + download.url,
                )
            }
            &&& event matches Event::Responded(Err(failure)) ==> is_failed(
                step,
                "NET-002"@,
                "下载请求失败："@ + error::request_failure_text(failure) + "，地址："@ + download.url,
            )
        }),
{
    if let Event::Responded(Ok(head)) = event {
        plain::law_whole_size_is_read_from_the_headers(head, 0);
        plain::law_whole_size_is_read_from_the_headers(head, download.phase->resumed_bytes as nat);
    }
}

/// What the answers of a transfer lead to. Every byte that is read is counted
/// once it is written. A chunk is reported if it is the first of the response,
/// or 120 milliseconds have passed since the last that was. The end of the
/// response ends the download with an error if a known total is not reached
/// exactly.
pub proof fn law_answers_of_a_transfer(download: DownloaderView, event: Event)
    requires
        download.accepts(event),
    ensures
        ({
            let step = download.next(event);
            &&& download.phase matches PhaseView::Opening { plan } ==> {
                &&& event == Event::Done(Ok(())) ==> {
                    &&& step.0 == PhaseView::Reading {
                        downloaded_bytes: plan.resumed_bytes,
                        total_bytes: plan.total_bytes,
                        reported: false,
                    }
                    &&& step.1.len() == 2
                    &&& step.1[0] == report::info_event(plan.status_message)
                    &&& step.1[1] == report::progress_event(plan.resumed_bytes, plan.total_bytes)
                }
                &&& event matches Event::Done(Err(cause)) ==> if plan.append_mode {
                    is_failed(
                        step,
                        "FS-004"@,
                        "无法打开临时文件 "@ + download.temp + "："@ + cause@,
                    )
                } else {
                    is_failed(
                        step,
                        "FS-005"@,
                        "无法创建临时文件 "@ + download.temp + "："@ + cause@,
                    )
                }
            }
            &&& download.phase matches PhaseView::Reading {
                downloaded_bytes,
                total_bytes,
                reported,
            } ==> {
                &&& event == Event::Read(Ok(0usize)) ==> is_quiet(
                    step,
                    PhaseView::Flushing { downloaded_bytes, total_bytes },
                )
                &&& event matches Event::Read(Ok(chunk)) ==> chunk > 0 ==> is_quiet(
                    step,
                    PhaseView::Writing { downloaded_bytes, total_bytes, reported, chunk },
                )
                &&& event matches Event::Read(Err(failure)) ==> is_failed(
                    step,
                    "NET-004"@,
                    "读取下载数据失败："@ + error::io_failure_text(failure),
                )
            }
            &&& download.phase matches PhaseView::Writing {
                downloaded_bytes,
                total_bytes,
                reported,
                chunk,
            } ==> {
                &&& event matches Event::Written { outcome: Ok(_), elapsed_ms } ==> {
                    &&& step.0 matches PhaseView::Reading {
                        downloaded_bytes: counted,
                        total_bytes: total,
                        reported: told,
                    }
                    &&& counted == downloaded_bytes + chunk
                    &&& total == total_bytes
                    &&& told
                    &&& if !reported || elapsed_ms >= 120 {
                        step.1.len() == 1 && step.1[0] == report::progress_event(
                            counted,
                            total_bytes,
                        )
                    } else {
                        step.1.len() == 0
                    }
                }
                &&& event matches Event::Written { outcome: Err(cause), .. } ==> is_failed(
                    step,
                    "FS-006"@,
                    "写入下载文件失败"@ + "："@ + cause@,
                )
            }
            &&& download.phase matches PhaseView::Flushing { downloaded_bytes, total_bytes }
                ==> event is Flushed ==> {
                &&& total_bytes is None || total_bytes == Some(downloaded_bytes) ==> is_quiet(
                    step,
                    PhaseView::CheckingReplaced { downloaded_bytes, total_bytes },
                )
                &&& total_bytes matches Some(total) ==> total != downloaded_bytes ==> is_failed(
                    step,
                    "NET-005"@,
                    "下载不完整：已下载 "@ + size::size_text(downloaded_bytes as nat) + "，预期 "@
                        + size::size_text(total as nat),
                )
            }
        }),
{
}

/// What the answers lead to when the file is complete: a file at the target is
/// removed, the complete file gets its name, and the user is told.
pub proof fn law_complete_file_is_put_in_place(download: DownloaderView, event: Event)
    ensures
        ({
            let step = download.next(event);
            let target = download.target;
            &&& download.phase matches PhaseView::CheckingReplaced { downloaded_bytes, total_bytes }
                ==> {
                &&& event == Event::Exists(true) ==> is_quiet(
                    step,
                    PhaseView::RemovingReplaced { downloaded_bytes, total_bytes },
                )
                &&& event == Event::Exists(false) ==> is_quiet(
                    step,
                    PhaseView::Renaming { downloaded_bytes, total_bytes },
                )
            }
            &&& download.phase matches PhaseView::RemovingReplaced { downloaded_bytes, total_bytes }
                ==> {
                &&& event == Event::Done(Ok(())) ==> is_quiet(
                    step,
                    PhaseView::Renaming { downloaded_bytes, total_bytes },
                )
                &&& event matches Event::Done(Err(cause)) ==> is_failed(
                    step,
                    "FS-007"@,
                    "替换旧文件失败"@ + " "@ + target + "："@ + cause@,
                )
            }
            &&& download.phase matches PhaseView::Renaming { downloaded_bytes, total_bytes } ==> {
                &&& event == Event::Done(Ok(())) ==> is_done(
                    step,
                    "下载完成"@,
                    target,
                    downloaded_bytes,
                    total_bytes,
                )
                &&& event matches Event::Done(Err(cause)) ==> is_failed(
                    step,
                    "FS-008"@,
                    "写入目标文件失败 "@ + target + "："@ + cause@,
                )
            }
        }),
{
}

/// The words for a failure of the transport: a timeout and a broken connection
/// have their own, and what the transport says is told with all others.
pub proof fn law_words_for_failures(request: RequestFailure, read: IoFailure)
    ensures
        ({
            let words = error::request_failure_text(request);
            &&& request.timeout ==> words == "请求超时"@
            &&& !request.timeout && request.connect ==> words == "连接失败 ("@ + request.text@ + ")"@
            &&& !request.timeout && !request.connect && request.body ==> words == "响应体读取失败 ("@
                + request.text@ + ")"@
            &&& !request.timeout && !request.connect && !request.body ==> words == request.text@
        }),
        ({
            let words = error::io_failure_text(read);
            &&& read.kind is UnexpectedEof ==> words == "连接被中断"@
            &&& read.kind is TimedOut ==> words == "读取超时"@
            &&& read.kind is Other ==> words == read.text@
        }),
{
}

/// An error is shown as its code in brackets, a blank and its message.
pub proof fn law_errors_show_code_and_message(error: (Seq<char>, Seq<char>))
    ensures
        error::error_line(error) == seq!['['] + error.0 + seq![']', ' '] + error.1,
        report::fail_event(error).stage == "error"@,
        report::fail_event(error).message == Some(
            seq!['['] + error.0 + seq![']', ' '] + error.1,
        ),
        report::fail_event(error).downloaded_bytes is None,
        report::fail_event(error).total_bytes is None,
        report::fail_event(error).output_path is None,
{
    reveal_strlit("[");
    reveal_strlit("] ");
    assert("["@ =~= seq!['[']);
    assert("] "@ =~= seq![']', ' ']);
}

/// An installation that ended without a result is told with the reason.
pub proof fn law_lost_installation_tells_the_reason(cause: Seq<char>)
    ensures
        install::task_error(cause) == ("SYS-001"@, "下载任务异常退出"@ + "："@ + cause),
{
}

/// A report has one stage, and carries what belongs to it and nothing else.
pub proof fn law_reports_carry_what_belongs_to_them(
    message: Seq<char>,
    path: Seq<char>,
    bytes: u64,
    total: Option<u64>,
)
    ensures
        report::info_event(message) == (EventView {
            stage: "preparing"@,
            message: Some(message),
            downloaded_bytes: None,
            total_bytes: None,
            output_path: None,
        }),
        report::progress_event(bytes, total) == (EventView {
            stage: "running"@,
            message: None,
            downloaded_bytes: Some(bytes),
            total_bytes: total,
            output_path: None,
        }),
        report::done_event(message, path, bytes, total) == (EventView {
            stage: "completed"@,
            message: Some(message),
            downloaded_bytes: Some(bytes),
            total_bytes: if total is None {
                Some(bytes)
            } else {
                total
            },
            output_path: Some(path),
        }),
{
}

/// The steps of an installation: the directory, the address, the client and the
/// download, in this order. The first that fails ends it with its error, which
/// is told last.
pub proof fn law_steps_of_an_installation(
    install: Install,
    event: Event,
    next: StageView,
    reports: Seq<EventView>,
)
    requires
        install.takes(event),
        install.leads_to(event, next, reports),
    ensures
        ({
            let dir = install.config.output_dir@;
            let name = install.config.output_filename@;
            &&& install.stage@ is CreatingDir && event == Event::Done(Ok(()))
                && install.config.source() is Ok ==> {
                &&& next matches StageView::BuildingClient { url, target }
                &&& url == install.config.source()->Ok_0
                &&& paths::is_joined(dir, name, target)
                &&& reports.len() == 1
                &&& reports[0] == report::info_event("准备下载"@)
            }
            &&& install.stage@ is CreatingDir && event == Event::Done(Ok(()))
                && install.config.source() is Err ==> ends_in_error(
                next,
                reports,
                install.config.source()->Err_0,
            )
            &&& install.stage@ is CreatingDir ==> (event matches Event::Done(Err(cause))
                ==> ends_in_error(
                next,
                reports,
                ("FS-001"@, "无法创建下载目录 "@ + dir + "："@ + cause@),
            ))
            &&& install.stage@ matches StageView::BuildingClient { url, target } ==> {
                &&& event == Event::Done(Ok(())) ==> {
                    &&& next matches StageView::Downloading { downloader }
                    &&& downloader.url == url
                    &&& downloader.target == target
                    &&& downloader.temp != target
                    &&& paths::is_partial_path(target, downloader.temp)
                    &&& downloader.phase is Probing
                    &&& reports.len() == 0
                }
                &&& event matches Event::Done(Err(cause)) ==> ends_in_error(
                    next,
                    reports,
                    ("NET-001"@, "创建下载客户端失败"@ + "："@ + cause@),
                )
            }
            &&& install.stage@ matches StageView::Downloading { downloader } ==> {
                let step = downloader.next(event);
                &&& step.0 matches PhaseView::Finished { outcome: Ok(_) } ==> {
                    &&& next == StageView::Finished { outcome: Ok(downloader.target) }
                    &&& reports == step.1
                }
                &&& step.0 matches PhaseView::Finished { outcome: Err(error) } ==> {
                    &&& next == StageView::Finished { outcome: Err(error) }
                    &&& reports == step.1.push(report::fail_event(error))
                }
                &&& !(step.0 is Finished) ==> {
                    &&& next matches StageView::Downloading { downloader: later }
                    &&& later.phase == step.0
                    &&& later.url == downloader.url
                    &&& later.target == downloader.target
                    &&& later.temp == downloader.temp
                    &&& reports == step.1
                }
            }
        }),
{
}

/// The installation is over with the given error, and only that is told.
pub open spec fn ends_in_error(
    next: StageView,
    reports: Seq<EventView>,
    error: (Seq<char>, Seq<char>),
) -> bool {
    &&& next == StageView::Finished { outcome: Err(error) }
    &&& reports.len() == 1
    &&& reports[0] == report::fail_event(error)
}

/// What an installation asks for and which answers it takes, around a download.
pub proof fn law_work_of_an_installation(install: Install, event: Event)
    ensures
        install.stage@ is CreatingDir ==> install.next_action() == (ActionView::CreateDir {
            path: install.config.output_dir@,
        }),
        install.stage@ is BuildingClient ==> install.next_action() is BuildClient,
        install.stage@ is Finished ==> install.next_action() is Finish,
        install.stage@ matches StageView::Downloading { downloader } ==> install.next_action()
            == downloader.action() && install.takes(event) == downloader.accepts(event),
        install.stage@ is CreatingDir || install.stage@ is BuildingClient ==> install.takes(event)
            == event is Done,
        install.stage@ is Finished ==> !install.takes(event),
{
}

/// The model of a list of reports has each of them, in order, and that of a
/// result has its value or its error.
pub proof fn law_models_keep_every_item(reports: Seq<DownloadEvent>, result: AppResult<u64>)
    ensures
        report::views(reports).len() == reports.len(),
        forall|i: int| 0 <= i < reports.len() ==> report::views(reports)[i] == #[trigger] reports[i]@,
        result matches Ok(value) ==> error::outcome(result) == Ok::<u64, (Seq<char>, Seq<char>)>(
            value,
        ),
        result matches Err(error) ==> error::outcome(result) == Err::<u64, (Seq<char>, Seq<char>)>(
            error@,
        ),
{
}

/// What the user interface gets: the result of an installation that succeeded,
/// the line for the error of one that failed, and the line for an installation
/// that ended without a result.
pub proof fn law_outcome_of_an_installation(
    task: Result<AppResult<InstallResult>, String>,
    res: Result<InstallResult, String>,
)
    requires
        install::is_outcome(task, res),
    ensures
        task matches Ok(Ok(result)) ==> res == Ok::<InstallResult, String>(result),
        task matches Ok(Err(error)) ==> res is Err && res->Err_0@ == seq!['['] + error.code@ + seq![
            ']',
            ' ',
        ] + error.message@,
        task matches Err(cause) ==> res is Err && res->Err_0@ == seq!['['] + "SYS-001"@ + seq![
            ']',
            ' ',
        ] + ("下载任务异常退出"@ + "："@ + cause@),
{
    if let Ok(Err(error)) = task {
        law_errors_show_code_and_message(error@);
    }
    if let Err(cause) = task {
        law_errors_show_code_and_message(install::task_error(cause@));
    }
}

/// A configuration holds the directory and the proxy that were given, or else
/// the default directory and no proxy, beside the file name and the proxy mode
/// that the request was checked for. A request that is refused gives no
/// configuration.
pub proof fn law_configuration_holds_the_request(
    output_dir: Option<String>,
    output_filename: Option<String>,
    proxy_mode: Option<String>,
    custom_proxy: Option<String>,
    default_dir: Seq<char>,
    res: AppResult<DownloadConfig>,
)
    requires
        DownloadConfig::is_requested(
            output_dir,
            output_filename,
            proxy_mode,
            custom_proxy,
            default_dir,
            res,
        ),
    ensures
        DownloadConfig::checked(output_filename, proxy_mode) matches Ok((name, mode)) ==> {
            &&& res matches Ok(config)
            &&& config.output_filename@ == name
            &&& config.proxy_mode == mode
            &&& output_dir matches Some(dir) ==> config.output_dir@ == dir@
            &&& output_dir is None ==> config.output_dir@ == default_dir
            &&& custom_proxy matches Some(proxy) ==> config.custom_proxy@ == proxy@
            &&& custom_proxy is None ==> config.custom_proxy@.len() == 0
        },
        DownloadConfig::checked(output_filename, proxy_mode) matches Err(error) ==> res is Err
            && res->Err_0@ == error,
{
    reveal_strlit("");
}

/// The default directory is `GTLite` in the download directory, or else the
/// current directory, or else `.`.
pub proof fn law_default_directory(
    download_dir: Option<String>,
    current_dir: Option<String>,
    dir: Seq<char>,
)
    requires
        paths::is_default_dir(download_dir, current_dir, dir),
    ensures
        download_dir matches Some(downloads) ==> paths::is_joined(downloads@, "GTLite"@, dir),
        download_dir is None && current_dir is Some ==> dir == current_dir->0@,
        download_dir is None && current_dir is None ==> dir == seq!['.'],
{
    reveal_strlit(".");
    assert("."@ =~= seq!['.']);
}

/// The numbers and names that the program around the library goes by.
pub proof fn law_numbers_and_names()
    ensures
        BUFFER_SIZE == 64 * 1024,
        MAX_REDIRECTS == 10,
        PROGRESS_INTERVAL_MS == 120,
        DOWNLOAD_EVENT@ == "download-progress"@,
        USER_AGENT@
            == "Mozilla/5.0 (Windows NT 10.0; Win64; x64) AppleWebKit/537.36 (KHTML, like Gecko) Chrome/146.0.0.0 Safari/537.36"@,
{
}

/// The model of a value says all that the value holds.
pub proof fn law_views_leave_nothing_out(
    report: DownloadEvent,
    error: AppError,
    plan: DownloadPlan,
    downloader: Downloader,
    stage: Stage,
)
    ensures
        report@.stage == report.stage@,
        report.message is None ==> report@.message is None,
        report.message matches Some(message) ==> report@.message == Some(message@),
        report@.downloaded_bytes == report.downloaded_bytes,
        report@.total_bytes == report.total_bytes,
        report.output_path is None ==> report@.output_path is None,
        report.output_path matches Some(path) ==> report@.output_path == Some(path@),
        error@ == (error.code@, error.message@),
        plan@.resumed_bytes == plan.resumed_bytes,
        plan@.total_bytes == plan.total_bytes,
        plan@.append_mode == plan.append_mode,
        plan@.status_message == plan.status_message@,
        downloader@.url == downloader.url@,
        downloader@.target == downloader.paths.target@,
        downloader@.temp == downloader.paths.temp@,
        stage matches Stage::BuildingClient { url, target } ==> stage@ == (
        StageView::BuildingClient { url: url@, target: target@ }),
        stage matches Stage::Downloading { downloader: inner } ==> stage@ == (
        StageView::Downloading { downloader: inner@ }),
        stage matches Stage::Finished { outcome: Ok(result) } ==> stage@ == (StageView::Finished {
            outcome: Ok(result.output_path@),
        }),
        stage matches Stage::Finished { outcome: Err(cause) } ==> stage@ == (StageView::Finished {
            outcome: Err(cause@),
        }),
{
}

/// The model of a phase says all that the phase holds.
pub proof fn law_phase_views_leave_nothing_out(phase: Phase)
    ensures
        phase is Probing ==> phase@ is Probing,
        phase matches Phase::CheckingTarget { remote_total } ==> phase@ == (
        PhaseView::CheckingTarget { remote_total }),
        phase matches Phase::CheckingBeside { remote_total } ==> phase@ == (
        PhaseView::CheckingBeside { remote_total }),
        phase matches Phase::SizingTarget { remote_total } ==> phase@ == (
        PhaseView::SizingTarget { remote_total }),
        phase matches Phase::RemovingStale { remote_total } ==> phase@ == (
        PhaseView::RemovingStale { remote_total }),
        phase matches Phase::CheckingComplete { total } ==> phase@ == (
        PhaseView::CheckingComplete { total }),
        phase matches Phase::SizingComplete { total } ==> phase@ == (PhaseView::SizingComplete {
            total,
        }),
        phase matches Phase::RemovingOversized { total } ==> phase@ == (
        PhaseView::RemovingOversized { total }),
        phase matches Phase::CheckingPartial { remote_total } ==> phase@ == (
        PhaseView::CheckingPartial { remote_total }),
        phase matches Phase::SizingPartial { remote_total } ==> phase@ == (
        PhaseView::SizingPartial { remote_total }),
        phase matches Phase::Requesting { remote_total, resumed_bytes } ==> phase@ == (
        PhaseView::Requesting { remote_total, resumed_bytes }),
        phase matches Phase::Opening { plan } ==> phase@ == (PhaseView::Opening { plan: plan@ }),
        phase matches Phase::Reading { downloaded_bytes, total_bytes, reported } ==> phase@ == (
        PhaseView::Reading { downloaded_bytes, total_bytes, reported }),
        phase matches Phase::Writing { downloaded_bytes, total_bytes, reported, chunk } ==> phase@
            == (PhaseView::Writing { downloaded_bytes, total_bytes, reported, chunk }),
        phase matches Phase::Flushing { downloaded_bytes, total_bytes } ==> phase@ == (
        PhaseView::Flushing { downloaded_bytes, total_bytes }),
        phase matches Phase::CheckingReplaced { downloaded_bytes, total_bytes } ==> phase@ == (
        PhaseView::CheckingReplaced { downloaded_bytes, total_bytes }),
        phase matches Phase::RemovingReplaced { downloaded_bytes, total_bytes } ==> phase@ == (
        PhaseView::RemovingReplaced { downloaded_bytes, total_bytes }),
        phase matches Phase::Renaming { downloaded_bytes, total_bytes } ==> phase@ == (
        PhaseView::Renaming { downloaded_bytes, total_bytes }),
        phase matches Phase::Finished { outcome: Ok(_) } ==> phase@ == (PhaseView::Finished {
            outcome: Ok(()),
        }),
        phase matches Phase::Finished { outcome: Err(error) } ==> phase@ == (PhaseView::Finished {
            outcome: Err(error@),
        }),
{
}

/// The model of a piece of work says all that it is about.
pub proof fn law_action_views_leave_nothing_out(action: Action)
    ensures
        action matches Action::CreateDir { path } ==> action@ == (ActionView::CreateDir {
            path: path@,
        }),
        action is BuildClient ==> action@ is BuildClient,
        action matches Action::Probe { url } ==> action@ == (ActionView::Probe { url: url@ }),
        action matches Action::Exists { path } ==> action@ == (ActionView::Exists { path: path@ }),
        action matches Action::FileSize { path } ==> action@ == (ActionView::FileSize {
            path: path@,
        }),
        action matches Action::Remove { path } ==> action@ == (ActionView::Remove { path: path@ }),
        action matches Action::Send { url, range: None } ==> action@ == (ActionView::Send {
            url: url@,
            range: None,
        }),
        action matches Action::Send { url, range: Some(range) } ==> action@ == (ActionView::Send {
            url: url@,
            range: Some(range@),
        }),
        action matches Action::Open { path, append } ==> action@ == (ActionView::Open {
            path: path@,
            append,
        }),
        action is Read ==> action@ is Read,
        action is Write ==> action@ is Write,
        action is Flush ==> action@ is Flush,
        action matches Action::Rename { from, to } ==> action@ == (ActionView::Rename {
            from: from@,
            to: to@,
        }),
        action is Finish ==> action@ is Finish,
{
}

} // verus!
