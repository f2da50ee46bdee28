use notification_forwarder::observer::{MonitorEvent, ObserverEngine, ObserverTask, TaskReply};
use notification_forwarder::time::Span;

fn engine() -> ObserverEngine {
    ObserverEngine::new(Span::from_millis(250))
}

fn ok() -> TaskReply {
    TaskReply { ok: true, pid: None }
}

fn failed() -> TaskReply {
    TaskReply { ok: false, pid: None }
}

fn found(pid: i32) -> TaskReply {
    TaskReply { ok: true, pid: Some(pid) }
}

/// The tasks of a run with these replies.
fn run(replies: &[TaskReply]) -> Vec<ObserverTask> {
    let engine = engine();
    let mut tasks = vec![engine.first_task()];
    for reply in replies {
        let task = *tasks.last().unwrap();
        tasks.push(engine.next_task(task, *reply));
    }
    tasks
}

#[test]
fn a_run_without_trouble() {
    let tasks = run(&[ok(), found(9), ok(), ok(), ok(), ok(), ok(), ok(), found(9), ok(), ok()]);
    assert_eq!(
        tasks,
        vec![
            ObserverTask::CheckPermission,
            ObserverTask::FindProcess,
            ObserverTask::Attach { pid: 9 },
            ObserverTask::Subscribe { pid: 9, core: false },
            ObserverTask::Scan { pid: 9 },
            ObserverTask::AwaitEvent { pid: 9 },
            ObserverTask::CheckListening { pid: 9 },
            ObserverTask::Settle { pid: 9 },
            ObserverTask::CheckProcess { pid: 9 },
            ObserverTask::Scan { pid: 9 },
            ObserverTask::AwaitEvent { pid: 9 },
            ObserverTask::CheckListening { pid: 9 },
        ]
    );
}

#[test]
fn without_the_permission_it_reports_and_stops() {
    assert_eq!(
        run(&[failed(), ok(), ok()]),
        vec![
            ObserverTask::CheckPermission,
            ObserverTask::ReportRevoked,
            ObserverTask::Stop,
            ObserverTask::Stop,
        ]
    );
    let engine = engine();
    assert_eq!(
        engine.next_task(ObserverTask::CheckListening { pid: 9 }, failed()),
        ObserverTask::ReportRevoked
    );
}

#[test]
fn a_missing_process_is_waited_for() {
    assert_eq!(
        run(&[ok(), failed(), failed(), found(4)]),
        vec![
            ObserverTask::CheckPermission,
            ObserverTask::FindProcess,
            ObserverTask::AwaitProcess,
            ObserverTask::AwaitProcess,
            ObserverTask::Attach { pid: 4 },
        ]
    );
}

#[test]
fn the_core_set_is_tried_second() {
    let engine = engine();
    let full = ObserverTask::Subscribe { pid: 9, core: false };
    let core = ObserverTask::Subscribe { pid: 9, core: true };
    assert_eq!(engine.next_task(full, failed()), core);
    assert_eq!(engine.next_task(core, ok()), ObserverTask::Scan { pid: 9 });
    assert_eq!(engine.next_task(core, failed()), ObserverTask::Pause);
}

#[test]
fn faults_lead_back_to_looking_for_the_process() {
    let engine = engine();
    assert_eq!(engine.next_task(ObserverTask::Attach { pid: 9 }, failed()), ObserverTask::Pause);
    assert_eq!(engine.next_task(ObserverTask::AwaitEvent { pid: 9 }, failed()), ObserverTask::Pause);
    assert_eq!(engine.next_task(ObserverTask::Pause, ok()), ObserverTask::FindProcess);
}

#[test]
fn a_changed_process_is_reported() {
    let engine = engine();
    let check = ObserverTask::CheckProcess { pid: 9 };
    assert_eq!(engine.next_task(check, found(10)), ObserverTask::ReportReconnect);
    assert_eq!(engine.next_task(check, failed()), ObserverTask::ReportReconnect);
    assert_eq!(engine.next_task(ObserverTask::ReportReconnect, ok()), ObserverTask::Pause);
}

#[test]
fn waits_and_reports() {
    let engine = engine();
    assert_eq!(engine.debounce, Span::from_millis(250));
    assert_eq!(engine.wait(ObserverTask::Settle { pid: 9 }), Span::from_millis(250));
    assert_eq!(engine.wait(ObserverTask::Pause), Span::from_secs(2));
    assert_eq!(engine.wait(ObserverTask::FindProcess), Span::from_secs(0));
    assert!(matches!(
        engine.report(ObserverTask::Scan { pid: 9 }, vec![]),
        Some(MonitorEvent::Banners(banners)) if banners.is_empty()
    ));
    assert!(matches!(
        engine.report(ObserverTask::ReportReconnect, vec![]),
        Some(MonitorEvent::Reconnected { pid: -1 })
    ));
    assert!(matches!(
        engine.report(ObserverTask::ReportRevoked, vec![]),
        Some(MonitorEvent::PermissionRevoked)
    ));
    assert!(engine.report(ObserverTask::Pause, vec![]).is_none());
}
