//! The observer: when to look for the process, subscribe, scan and report.
//!
//! ```text
//! accessibility event -> short debounce -> scan of Notification Center
//! ```
//! There is no continuous polling: the observer idles until macOS delivers an
//! event. When Notification Center restarts, its process is looked up and
//! subscribed to anew. The observer only decides; the tasks are performed by
//! its caller, who hands back what came of them.

use crate::element::AxElement;
use crate::scanner;
use crate::scanner::{scan_for_banners, BannerSnapshot};
use crate::time::Span;
use vstd::prelude::*;
use vstd::string::*;

verus! {

/// What the observer reports.
#[derive(Debug)]
pub enum MonitorEvent {
    /// A scan is complete: these banners are visible. A banner that stays
    /// visible is reported again with every scan.
    Banners(Vec<BannerSnapshot>),
    /// The process of Notification Center has changed.
    Reconnected { pid: i32 },
    /// The accessibility permission is missing.
    PermissionRevoked,
}

/// What is to be done next.
#[derive(Debug, Clone, Copy, PartialEq, Eq, Structural)]
pub enum ObserverTask {
    /// Ask whether the process is trusted.
    CheckPermission,
    /// Look for the process of Notification Center, once.
    FindProcess,
    /// Look for it until it is there.
    AwaitProcess,
    /// Get hold of the element of the process.
    Attach { pid: i32 },
    /// Subscribe to its events: to all that are of use, or to the core set.
    Subscribe { pid: i32, core: bool },
    /// Scan for banners and report them.
    Scan { pid: i32 },
    /// Wait for the next event.
    AwaitEvent { pid: i32 },
    /// An event has come: ask whether the process is still trusted.
    CheckListening { pid: i32 },
    /// Drop the events that have piled up, then let the screen settle.
    Settle { pid: i32 },
    /// Look whether Notification Center still is the same process.
    CheckProcess { pid: i32 },
    /// Report that it is not.
    ReportReconnect,
    /// Wait before looking for the process again.
    Pause,
    /// Report that the permission is missing.
    ReportRevoked,
    /// Nothing more.
    Stop,
}

/// What came of a task.
#[derive(Debug, Clone, Copy, PartialEq, Eq, Structural)]
pub struct TaskReply {
    /// Whether it is so, or went well, or an event has come.
    pub ok: bool,
    /// The process that was found, where one was looked for.
    pub pid: Option<i32>,
}

/// The task that follows, by what came of one.
pub open spec fn task_after(task: ObserverTask, reply: TaskReply) -> ObserverTask {
    match task {
        ObserverTask::CheckPermission => if reply.ok {
            ObserverTask::FindProcess
        } else {
            ObserverTask::ReportRevoked
        },
        ObserverTask::FindProcess | ObserverTask::AwaitProcess => match reply.pid {
            Some(pid) => ObserverTask::Attach { pid },
            None => ObserverTask::AwaitProcess,
        },
        ObserverTask::Attach { pid } => if reply.ok {
            ObserverTask::Subscribe { pid, core: false }
        } else {
            ObserverTask::Pause
        },
        ObserverTask::Subscribe { pid, core } => if reply.ok {
            ObserverTask::Scan { pid }
        } else if core {
            ObserverTask::Pause
        } else {
            ObserverTask::Subscribe { pid, core: true }
        },
        ObserverTask::Scan { pid } => ObserverTask::AwaitEvent { pid },
        ObserverTask::AwaitEvent { pid } => if reply.ok {
            ObserverTask::CheckListening { pid }
        } else {
            ObserverTask::Pause
        },
        ObserverTask::CheckListening { pid } => if reply.ok {
            ObserverTask::Settle { pid }
        } else {
            ObserverTask::ReportRevoked
        },
        ObserverTask::Settle { pid } => ObserverTask::CheckProcess { pid },
        ObserverTask::CheckProcess { pid } => if reply.pid == Some(pid) {
            ObserverTask::Scan { pid }
        } else {
            ObserverTask::ReportReconnect
        },
        ObserverTask::ReportReconnect => ObserverTask::Pause,
        ObserverTask::Pause => ObserverTask::FindProcess,
        ObserverTask::ReportRevoked => ObserverTask::Stop,
        ObserverTask::Stop => ObserverTask::Stop,
    }
}

/// Nanoseconds to wait before a task counts as done.
pub open spec fn task_wait(task: ObserverTask, debounce: Span) -> nat {
    match task {
        ObserverTask::Settle { .. } => debounce.nanos as nat,
        ObserverTask::Pause => 2_000_000_000,
        _ => 0,
    }
}

/// What a task reports, with the banners that it found.
pub open spec fn reported(task: ObserverTask, banners: Vec<BannerSnapshot>) -> Option<
    MonitorEvent,
> {
    match task {
        ObserverTask::Scan { .. } => Some(MonitorEvent::Banners(banners)),
        ObserverTask::ReportReconnect => Some(MonitorEvent::Reconnected { pid: (-1) as i32 }),
        ObserverTask::ReportRevoked => Some(MonitorEvent::PermissionRevoked),
        _ => None,
    }
}

/// Whether one scan, apart from the observer, comes to this result.
pub open spec fn scan_told(
    trusted: bool,
    pid: Option<i32>,
    app: Option<AxElement>,
    result: Result<Vec<BannerSnapshot>, String>,
) -> bool {
    match result {
        Ok(banners) => trusted && pid is Some && app is Some && scanner::banner_views(banners@)
            == scanner::scanned(app->0),
        Err(e) => if !trusted {
            e@ == "accessibility permission not granted"@
        } else if pid is None {
            e@ == "Notification Center not found"@
        } else {
            app is None && e@ == "failed to create AXUIElement for Notification Center"@
        },
    }
}

/// Decides what the observer does.
pub struct ObserverEngine {
    /// How long to wait between an event and the scan.
    pub debounce: Span,
}

impl ObserverEngine {
    /// An observer that lets the screen settle for this long before it scans.
    pub fn new(debounce: Span) -> (r: ObserverEngine)
        ensures
            r.debounce == debounce,
    {
        ObserverEngine { debounce }
    }

    /// The first task.
    pub fn first_task(&self) -> (r: ObserverTask)
        ensures
            r == ObserverTask::CheckPermission,
    {
        ObserverTask::CheckPermission
    }

    /// The task that follows, by what came of one.
    pub fn next_task(&self, task: ObserverTask, reply: TaskReply) -> (r: ObserverTask)
        ensures
            r == task_after(task, reply),
    {
        match task {
            ObserverTask::CheckPermission => if reply.ok {
                ObserverTask::FindProcess
            } else {
                ObserverTask::ReportRevoked
            },
            ObserverTask::FindProcess | ObserverTask::AwaitProcess => match reply.pid {
                Some(pid) => ObserverTask::Attach { pid },
                None => ObserverTask::AwaitProcess,
            },
            ObserverTask::Attach { pid } => if reply.ok {
                ObserverTask::Subscribe { pid, core: false }
            } else {
                ObserverTask::Pause
            },
            ObserverTask::Subscribe { pid, core } => if reply.ok {
                ObserverTask::Scan { pid }
            } else if core {
                ObserverTask::Pause
            } else {
                ObserverTask::Subscribe { pid, core: true }
            },
            ObserverTask::Scan { pid } => ObserverTask::AwaitEvent { pid },
            ObserverTask::AwaitEvent { pid } => if reply.ok {
                ObserverTask::CheckListening { pid }
            } else {
                ObserverTask::Pause
            },
            ObserverTask::CheckListening { pid } => if reply.ok {
                ObserverTask::Settle { pid }
            } else {
                ObserverTask::ReportRevoked
            },
            ObserverTask::Settle { pid } => ObserverTask::CheckProcess { pid },
            ObserverTask::CheckProcess { pid } => match reply.pid {
                Some(found) => if found == pid {
                    ObserverTask::Scan { pid }
                } else {
                    ObserverTask::ReportReconnect
                },
                None => ObserverTask::ReportReconnect,
            },
            ObserverTask::ReportReconnect => ObserverTask::Pause,
            ObserverTask::Pause => ObserverTask::FindProcess,
            ObserverTask::ReportRevoked => ObserverTask::Stop,
            ObserverTask::Stop => ObserverTask::Stop,
        }
    }

    /// How long to wait before a task counts as done.
    pub fn wait(&self, task: ObserverTask) -> (r: Span)
        ensures
            r.nanos == task_wait(task, self.debounce),
    {
        match task {
            ObserverTask::Settle { .. } => self.debounce,
            ObserverTask::Pause => Span::from_secs(2),
            _ => Span::from_secs(0),
        }
    }

    /// What a task reports, with the banners that it found.
    pub fn report(&self, task: ObserverTask, banners: Vec<BannerSnapshot>) -> (r: Option<
        MonitorEvent,
    >)
        ensures
            r == reported(task, banners),
    {
        match task {
            ObserverTask::Scan { .. } => Some(MonitorEvent::Banners(banners)),
            ObserverTask::ReportReconnect => Some(MonitorEvent::Reconnected { pid: -1 }),
            ObserverTask::ReportRevoked => Some(MonitorEvent::PermissionRevoked),
            _ => None,
        }
    }
}

/// One scan, apart from the observer: what it finds, or what is in its way.
/// `app` is the element of the process `pid`, where it could be had.
pub fn scan_once(trusted: bool, pid: Option<i32>, app: &Option<AxElement>) -> (r: Result<
    Vec<BannerSnapshot>,
    String,
>)
    ensures
        scan_told(trusted, pid, *app, r),
{
    if !trusted {
        return Err("accessibility permission not granted".to_string());
    }
    if pid.is_none() {
        return Err("Notification Center not found".to_string());
    }
    match app {
        Some(element) => Ok(scan_for_banners(element)),
        None => Err("failed to create AXUIElement for Notification Center".to_string()),
    }
}

// ---------------------------------------------------------------------------
// Laws
// ---------------------------------------------------------------------------

/// Whether tasks follow one another from the first one on.
pub open spec fn is_run(tasks: Seq<ObserverTask>, replies: Seq<TaskReply>) -> bool {
    &&& tasks.len() > 0
    &&& tasks[0] == ObserverTask::CheckPermission
    &&& tasks.len() <= replies.len() + 1
    &&& forall|i: int|
        #![trigger tasks[i], replies[i]]
        0 <= i && i + 1 < tasks.len() ==> tasks[i + 1] == task_after(tasks[i], replies[i])
}

/// The observer never gives up but for the permission: where a run stops, a
/// check of the permission has failed and the loss has been reported.
pub proof fn law_only_a_lost_permission_stops(
    tasks: Seq<ObserverTask>,
    replies: Seq<TaskReply>,
    at: int,
)
    requires
        is_run(tasks, replies),
        0 <= at < tasks.len(),
        tasks[at] == ObserverTask::Stop,
    ensures
        exists|i: int|
            #![trigger tasks[i]]
            0 < i < at && tasks[i] == ObserverTask::ReportRevoked && !replies[i - 1].ok && (tasks[i
                - 1] == ObserverTask::CheckPermission || tasks[i - 1] is CheckListening),
    decreases at,
{
    assert(tasks[at - 1 + 1] == task_after(tasks[at - 1], replies[at - 1]));
    if tasks[at - 1] == ObserverTask::Stop {
        law_only_a_lost_permission_stops(tasks, replies, at - 1);
    } else {
        assert(tasks[at - 2 + 1] == task_after(tasks[at - 2], replies[at - 2]));
        assert(tasks[at - 1] == ObserverTask::ReportRevoked);
    }
}

/// Only a process that was just subscribed to, or just found to be running
/// still, is scanned.
pub proof fn law_scans_follow_a_look_at_the_process(
    tasks: Seq<ObserverTask>,
    replies: Seq<TaskReply>,
    at: int,
    pid: i32,
)
    requires
        is_run(tasks, replies),
        0 <= at < tasks.len(),
        tasks[at] == (ObserverTask::Scan { pid }),
    ensures
        at > 0,
        tasks[at - 1] is Subscribe && tasks[at - 1]->Subscribe_pid == pid && replies[at - 1].ok
            || tasks[at - 1] == (ObserverTask::CheckProcess { pid }) && replies[at - 1].pid == Some(
            pid,
        ),
{
    assert(tasks[at - 1 + 1] == task_after(tasks[at - 1], replies[at - 1]));
}

/// A burst of events is one scan: between an event and the scan that it leads
/// to, the permission is checked, the screen settles, and the process is looked
/// up, in this order.
pub proof fn law_events_are_debounced(
    tasks: Seq<ObserverTask>,
    replies: Seq<TaskReply>,
    at: int,
    pid: i32,
)
    requires
        is_run(tasks, replies),
        0 <= at,
        at + 4 < tasks.len(),
        tasks[at] == (ObserverTask::AwaitEvent { pid }),
        tasks[at + 4] == (ObserverTask::Scan { pid }),
        replies[at].ok,
    ensures
        tasks[at + 1] == (ObserverTask::CheckListening { pid }),
        tasks[at + 2] == (ObserverTask::Settle { pid }),
        tasks[at + 3] == (ObserverTask::CheckProcess { pid }),
{
    assert(tasks[at + 1] == task_after(tasks[at], replies[at]));
    assert(tasks[at + 1 + 1] == task_after(tasks[at + 1], replies[at + 1]));
    assert(tasks[at + 2 + 1] == task_after(tasks[at + 2], replies[at + 2]));
    assert(tasks[at + 3 + 1] == task_after(tasks[at + 3], replies[at + 3]));
}

/// When the process is gone or another one, that is reported and the observer
/// starts over with looking for it.
pub proof fn law_restarts_are_survived(pid: i32, reply: TaskReply, any: TaskReply)
    requires
        reply.pid != Some(pid),
    ensures
        task_after(ObserverTask::CheckProcess { pid }, reply) == ObserverTask::ReportReconnect,
        task_after(ObserverTask::ReportReconnect, any) == ObserverTask::Pause,
        task_after(ObserverTask::Pause, any) == ObserverTask::FindProcess,
{
}

/// With the permission and a process that can be attached to, the observer
/// subscribes to everything and scans once before it waits for events.
pub proof fn law_observing_begins_with_a_scan(pid: i32, any: TaskReply)
    ensures
        ({
            let ok = TaskReply { ok: true, pid: Some(pid) };
            let find = task_after(ObserverTask::CheckPermission, ok);
            let attach = task_after(find, ok);
            let subscribe = task_after(attach, ok);
            let scan = task_after(subscribe, ok);
            &&& find == ObserverTask::FindProcess
            &&& attach == (ObserverTask::Attach { pid })
            &&& subscribe == (ObserverTask::Subscribe { pid, core: false })
            &&& scan == (ObserverTask::Scan { pid })
            &&& task_after(scan, any) == (ObserverTask::AwaitEvent { pid })
        }),
{
}

/// A process is looked for until it is there, and then attached to, however
/// often the look has to be repeated and whatever else a look tells.
pub proof fn law_the_process_is_awaited(reply: TaskReply)
    ensures
        reply.pid is None ==> task_after(ObserverTask::FindProcess, reply)
            == ObserverTask::AwaitProcess,
        reply.pid is None ==> task_after(ObserverTask::AwaitProcess, reply)
            == ObserverTask::AwaitProcess,
        reply.pid matches Some(pid) ==> task_after(ObserverTask::FindProcess, reply) == (
        ObserverTask::Attach { pid }),
        reply.pid matches Some(pid) ==> task_after(ObserverTask::AwaitProcess, reply) == (
        ObserverTask::Attach { pid }),
{
}

/// Where not all events can be subscribed to, the core set is tried, once.
/// Where nothing can be subscribed to, or the process cannot be attached to, or
/// its events stop, the observer pauses and looks for the process again.
pub proof fn law_setbacks_start_the_search_over(pid: i32, reply: TaskReply, any: TaskReply)
    requires
        !reply.ok,
    ensures
        task_after(ObserverTask::Subscribe { pid, core: false }, reply) == (
        ObserverTask::Subscribe { pid, core: true }),
        task_after(ObserverTask::Subscribe { pid, core: true }, reply) == ObserverTask::Pause,
        task_after(ObserverTask::Attach { pid }, reply) == ObserverTask::Pause,
        task_after(ObserverTask::AwaitEvent { pid }, reply) == ObserverTask::Pause,
        task_after(ObserverTask::Pause, any) == ObserverTask::FindProcess,
{
}

/// Without the permission nothing follows but its report and the end, at the
/// start and after every event.
pub proof fn law_a_missing_permission_is_reported(pid: i32, reply: TaskReply, any: TaskReply)
    requires
        !reply.ok,
    ensures
        task_after(ObserverTask::CheckPermission, reply) == ObserverTask::ReportRevoked,
        task_after(ObserverTask::CheckListening { pid }, reply) == ObserverTask::ReportRevoked,
        task_after(ObserverTask::ReportRevoked, any) == ObserverTask::Stop,
        task_after(ObserverTask::Stop, any) == ObserverTask::Stop,
{
}

/// An event that finds the permission granted and the process running leads to a
/// scan of that process.
pub proof fn law_events_lead_to_a_scan(pid: i32, replies: Seq<TaskReply>)
    requires
        replies.len() == 4,
        replies[0].ok,
        replies[1].ok,
        replies[3].pid == Some(pid),
    ensures
        ({
            let check = task_after(ObserverTask::AwaitEvent { pid }, replies[0]);
            let settle = task_after(check, replies[1]);
            let look = task_after(settle, replies[2]);
            &&& check == (ObserverTask::CheckListening { pid })
            &&& settle == (ObserverTask::Settle { pid })
            &&& look == (ObserverTask::CheckProcess { pid })
            &&& task_after(look, replies[3]) == (ObserverTask::Scan { pid })
        }),
{
}

/// The observer waits at two places only: for the screen to settle, as long as
/// it was told to, and two seconds before it looks for the process again.
pub proof fn law_waits_of_the_observer(task: ObserverTask, debounce: Span)
    ensures
        task is Settle ==> task_wait(task, debounce) == debounce.nanos,
        task == ObserverTask::Pause ==> task_wait(task, debounce) == 2_000_000_000,
        !(task is Settle) && task != ObserverTask::Pause ==> task_wait(task, debounce) == 0,
{
}

/// Every scan is reported with what it found, a restart and a missing permission
/// are reported, and no other task reports anything.
pub proof fn law_what_is_reported(task: ObserverTask, banners: Vec<BannerSnapshot>)
    ensures
        task is Scan ==> reported(task, banners) == Some(MonitorEvent::Banners(banners)),
        task == ObserverTask::ReportReconnect <==> reported(task, banners) matches Some(
            MonitorEvent::Reconnected { .. },
        ),
        task == ObserverTask::ReportRevoked <==> reported(task, banners) == Some(
            MonitorEvent::PermissionRevoked,
        ),
        reported(task, banners) is Some ==> task is Scan || task is ReportReconnect
            || task is ReportRevoked,
{
}

/// A single scan succeeds exactly where the permission is there, the process was
/// found and its element could be had; otherwise the first of these that is
/// missing is told.
pub proof fn law_single_scans_succeed_or_tell(
    trusted: bool,
    pid: Option<i32>,
    app: Option<AxElement>,
    result: Result<Vec<BannerSnapshot>, String>,
)
    requires
        scan_told(trusted, pid, app, result),
    ensures
        result is Ok <==> trusted && pid is Some && app is Some,
        result matches Ok(banners) ==> scanner::banner_views(banners@) == scanner::scanned(app->0),
        result matches Err(e) ==> {
            &&& !trusted ==> e@ == "accessibility permission not granted"@
            &&& trusted && pid is None ==> e@ == "Notification Center not found"@
            &&& trusted && pid is Some ==> e@
                == "failed to create AXUIElement for Notification Center"@
        },
{
}

} // verus!
