use aviutl2_font_select_helper::events::{
    event_name, is_probe_trigger, resolve_root_window, EventAction, EventHandler, EventReply,
    ProbeSource, WinEvent, EVENT_OBJECT_CREATE, EVENT_OBJECT_FOCUS, EVENT_OBJECT_SHOW,
    OBJID_CLIENT, OBJID_WINDOW,
};
use aviutl2_font_select_helper::history::{probe_history, should_probe_now, ProbeHistory};
use aviutl2_font_select_helper::hook::{
    join_line, startup_failure_message, told_by, HookAction, HookReply, HookThread, HookThreadController,
    ThreadMessage,
};
use aviutl2_font_select_helper::probe::ProbeOutcome;
use aviutl2_font_select_helper::retry::{
    delayed_probe, retry_post_line, schedule_probe_retries, WM_APP, WM_SPIKE_PROBE,
};
use aviutl2_font_select_helper::scan::WS_DISABLED;

const MS: u128 = 1_000_000;

#[test]
fn constants_are_those_of_the_window_system() {
    assert_eq!(EVENT_OBJECT_CREATE, 32768);
    assert_eq!(EVENT_OBJECT_SHOW, 32770);
    assert_eq!(EVENT_OBJECT_FOCUS, 32773);
    assert_eq!(OBJID_WINDOW, 0);
    assert_eq!(OBJID_CLIENT, -4);
    assert_eq!(WM_APP, 32768);
    assert_eq!(WM_SPIKE_PROBE, 32849);
    assert_eq!(WS_DISABLED, 134217728);
}

#[test]
fn events_have_names() {
    assert_eq!(event_name(EVENT_OBJECT_CREATE), "EVENT_OBJECT_CREATE");
    assert_eq!(event_name(EVENT_OBJECT_SHOW), "EVENT_OBJECT_SHOW");
    assert_eq!(event_name(EVENT_OBJECT_FOCUS), "EVENT_OBJECT_FOCUS");
    assert_eq!(event_name(0x8001), "UNKNOWN_EVENT");
}

#[test]
fn sources_have_names() {
    assert_eq!(ProbeSource::Event(EVENT_OBJECT_SHOW).name(), "EVENT_OBJECT_SHOW");
    assert_eq!(ProbeSource::Event(1).name(), "UNKNOWN_EVENT");
    assert_eq!(ProbeSource::Delayed.name(), "DELAYED");
}

#[test]
fn triggers() {
    for event in [EVENT_OBJECT_CREATE, EVENT_OBJECT_SHOW] {
        assert!(is_probe_trigger(event, 5, OBJID_WINDOW, 0));
        assert!(!is_probe_trigger(event, 5, OBJID_WINDOW, 1));
        assert!(!is_probe_trigger(event, 5, OBJID_CLIENT, 0));
        assert!(!is_probe_trigger(event, 0, OBJID_WINDOW, 0));
    }
    assert!(is_probe_trigger(EVENT_OBJECT_FOCUS, 5, OBJID_WINDOW, 7));
    assert!(is_probe_trigger(EVENT_OBJECT_FOCUS, 5, OBJID_CLIENT, 7));
    assert!(!is_probe_trigger(EVENT_OBJECT_FOCUS, 5, -8, 0));
    assert!(!is_probe_trigger(EVENT_OBJECT_FOCUS, 0, OBJID_CLIENT, 0));
    assert!(!is_probe_trigger(0x8001, 5, OBJID_WINDOW, 0));
}

#[test]
fn roots() {
    assert_eq!(resolve_root_window(5, 0), 5);
    assert_eq!(resolve_root_window(5, 9), 9);
}

#[test]
fn history_starts_empty_and_lasts() {
    let mut slot: Option<ProbeHistory> = None;
    assert!(should_probe_now(probe_history(&mut slot), 1, 0));
    assert!(slot.is_some());
    assert!(!should_probe_now(probe_history(&mut slot), 1, 0));
}

#[test]
fn probes_of_one_window_are_spaced() {
    let mut history = ProbeHistory::new();
    assert!(should_probe_now(&mut history, 1, 1000 * MS));
    assert!(!should_probe_now(&mut history, 1, 1000 * MS));
    assert!(should_probe_now(&mut history, 2, 1001 * MS));
    assert!(!should_probe_now(&mut history, 1, 1150 * MS - 1));
    assert!(should_probe_now(&mut history, 1, 1150 * MS));
    assert!(!should_probe_now(&mut history, 1, 1200 * MS));
    assert!(!should_probe_now(&mut history, 2, 1151 * MS - 1));
    assert!(should_probe_now(&mut history, 2, 1151 * MS));
}

#[test]
fn refused_requests_do_not_push_the_next_probe_back() {
    let mut history = ProbeHistory::new();
    assert!(should_probe_now(&mut history, 1, 1000 * MS));
    for step in 0..150 {
        let now = (1000 + step) * MS;
        assert!(!should_probe_now(&mut history, 1, now));
        assert!(should_probe_now(&mut history, 100 + step as usize, now));
    }
    assert!(should_probe_now(&mut history, 1, 1150 * MS));
}

#[test]
fn backward_clock_counts_as_standing_still() {
    let mut history = ProbeHistory::new();
    assert!(should_probe_now(&mut history, 1, 1000 * MS));
    assert!(!should_probe_now(&mut history, 1, 0));
    assert!(should_probe_now(&mut history, 1, 1150 * MS));
    assert!(should_probe_now(&mut history, 1, u128::MAX));
}

fn event() -> WinEvent {
    WinEvent {
        event: EVENT_OBJECT_FOCUS,
        hwnd: 0x20,
        id_object: -4,
        id_child: -1,
        event_thread: 77,
    }
}

/// Handles the event and tells what was done, with the lines.
fn handle(
    event: WinEvent,
    history: &mut ProbeHistory,
    ancestor: usize,
    is_window: bool,
    now: u128,
    strong_found: bool,
) -> (Vec<String>, Vec<String>) {
    let mut handler = EventHandler::new(event);
    let mut done: Vec<String> = Vec::new();
    let mut lines: Vec<String> = Vec::new();
    loop {
        let action = handler.action();
        let reply = match action {
            EventAction::Nothing => return (done, lines),
            EventAction::FindAncestor { .. } => EventReply::Ancestor(ancestor),
            EventAction::CheckWindow { .. } => EventReply::WindowChecked(is_window),
            EventAction::ReadClock => EventReply::Clock(now),
            EventAction::RunProbe { .. } => EventReply::Probed(ProbeOutcome { strong_found }),
            EventAction::ScheduleRetries { .. } => EventReply::RetriesScheduled,
        };
        done.push(format!("{:?}", action));
        lines.extend(handler.advance(reply, history));
    }
}

#[test]
fn weak_event_leads_to_retries() {
    let mut history = ProbeHistory::new();
    let (done, lines) = handle(event(), &mut history, 0x10, true, 0, false);
    assert_eq!(
        done,
        vec![
            "FindAncestor { hwnd: 32 }",
            "CheckWindow { root: 16 }",
            "ReadClock",
            "RunProbe { root: 16, source: Event(32773), attempt: 0 }",
            "ScheduleRetries { root: 16 }",
        ]
    );
    assert_eq!(
        lines,
        vec!["[SpikeTest] Trigger event=EVENT_OBJECT_FOCUS root=HWND(0x10) hwnd=HWND(0x20) obj=-4 child=-1 event_thread=77"]
    );
    let (done, lines) = handle(event(), &mut history, 0x10, true, 149 * MS, false);
    assert_eq!(done.len(), 3);
    assert!(lines.is_empty());
    let (done, _) = handle(event(), &mut history, 0x10, true, 150 * MS, true);
    assert_eq!(
        done.last().unwrap(),
        "RunProbe { root: 16, source: Event(32773), attempt: 0 }"
    );
}

#[test]
fn events_without_use_are_dropped() {
    let mut history = ProbeHistory::new();
    let mut other = event();
    other.event = 0x8001;
    assert!(handle(other, &mut history, 1, true, 0, true).0.is_empty());
    let (done, _) = handle(event(), &mut history, 0, false, 0, true);
    assert_eq!(done, vec!["FindAncestor { hwnd: 32 }", "CheckWindow { root: 32 }"]);
    assert!(should_probe_now(&mut history, 32, 0));
}

#[test]
fn handler_ignores_other_results() {
    let mut history = ProbeHistory::new();
    let mut handler = EventHandler::new(event());
    assert!(handler.advance(EventReply::Clock(5), &mut history).is_none());
    assert!(matches!(handler.action(), EventAction::FindAncestor { hwnd: 0x20 }));
    assert!(should_probe_now(&mut history, 0x20, 5));
}

#[test]
fn panic_ends_the_handling() {
    let line = "[SpikeTest] panic in WinEventProc callback";
    let mut history = ProbeHistory::new();
    let mut handler = EventHandler::new(event());
    assert_eq!(handler.advance(EventReply::Panicked, &mut history).unwrap(), line);
    assert!(matches!(handler.action(), EventAction::Nothing));
    assert!(handler.advance(EventReply::Panicked, &mut history).is_none());

    let mut handler = EventHandler::new(event());
    handler.advance(EventReply::Ancestor(0x10), &mut history);
    handler.advance(EventReply::WindowChecked(true), &mut history);
    handler.advance(EventReply::Clock(5), &mut history);
    assert!(matches!(handler.action(), EventAction::RunProbe { root: 0x10, .. }));
    assert_eq!(handler.advance(EventReply::Panicked, &mut history).unwrap(), line);
    assert!(matches!(handler.action(), EventAction::Nothing));
    assert!(!should_probe_now(&mut history, 0x10, 5));
}

#[test]
fn retries_are_planned_and_understood() {
    let schedule = schedule_probe_retries(0x1f);
    assert_eq!(
        schedule.line,
        "[SpikeTest] Scheduling retries root=HWND(0x1f) delays_ms=[80, 220, 500]"
    );
    let delays: Vec<u64> = schedule.retries.iter().map(|r| r.delay_ms).collect();
    assert_eq!(delays, vec![80, 220, 500]);
    for (i, retry) in schedule.retries.iter().enumerate() {
        let probe = delayed_probe(retry.message, retry.wparam, retry.lparam).unwrap();
        assert_eq!(probe.root, 0x1f);
        assert_eq!(probe.attempt, i as u32 + 1);
    }
    assert!(delayed_probe(WM_SPIKE_PROBE + 1, 1, 1).is_none());
    assert_eq!(delayed_probe(WM_SPIKE_PROBE, 1, -1).unwrap().attempt, u32::MAX);
    assert!(retry_post_line(true).is_none());
    assert_eq!(
        retry_post_line(false).unwrap(),
        "[SpikeTest] delayed probe message post failed"
    );
}

fn message(result: i32, message: u32) -> HookReply {
    HookReply::Message(ThreadMessage { result, message, wparam: 0x99, lparam: 2 })
}

/// Runs a thread on prepared hooks and messages; tells what it did, with the lines.
fn run_thread(hooks: &[usize], messages: &[HookReply], panicked: bool) -> (Vec<String>, Vec<String>) {
    let mut thread = HookThread::new(7);
    let mut hooks = hooks.iter();
    let mut messages = messages.iter();
    let mut done: Vec<String> = Vec::new();
    let mut lines: Vec<String> = Vec::new();
    loop {
        let action = thread.action();
        done.push(format!("{:?}", action));
        let reply = match action {
            HookAction::Stop => return (done, lines),
            HookAction::PrepareQueue => HookReply::Prepared,
            HookAction::Install { .. } => HookReply::Installed(*hooks.next().unwrap()),
            HookAction::ReportFailure => HookReply::Reported,
            HookAction::ReportReady { .. } => HookReply::Reported,
            HookAction::NextMessage => *messages.next().unwrap(),
            HookAction::RunProbe { .. } => HookReply::Probed { panicked },
            HookAction::Dispatch => HookReply::Dispatched,
            HookAction::Unhook { .. } => HookReply::Unhooked,
        };
        let (next, line) = thread.advance(reply);
        thread = next;
        lines.extend(line);
    }
}

#[test]
fn hook_thread_lives_and_dies() {
    let messages = [message(1, WM_SPIKE_PROBE), message(1, 15), message(0, 18)];
    let (done, lines) = run_thread(&[0xa, 0, 0xc], &messages, false);
    assert_eq!(
        done,
        vec![
            "PrepareQueue",
            "Install { event: 32768 }",
            "Install { event: 32770 }",
            "Install { event: 32773 }",
            "ReportReady { thread_id: 7 }",
            "NextMessage",
            "RunProbe { root: 153, source: Delayed, attempt: 2 }",
            "NextMessage",
            "Dispatch",
            "NextMessage",
            "Unhook { hook: 10 }",
            "Unhook { hook: 12 }",
            "Stop",
        ]
    );
    assert_eq!(
        lines,
        vec![
            "[SpikeTest] SetWinEventHook installed event=EVENT_OBJECT_CREATE",
            "[SpikeTest] SetWinEventHook failed event=EVENT_OBJECT_SHOW",
            "[SpikeTest] SetWinEventHook installed event=EVENT_OBJECT_FOCUS",
            "[SpikeTest] hook thread started tid=7 hooks=2",
            "[SpikeTest] hook thread stopped and hooks uninstalled",
        ]
    );
}

#[test]
fn hook_thread_without_hooks_fails() {
    let (done, lines) = run_thread(&[0, 0, 0], &[], false);
    assert_eq!(done[4..], ["ReportFailure", "Stop"]);
    assert_eq!(lines.len(), 3);
    assert_eq!(
        startup_failure_message(),
        "no WinEvent hooks were installed; hook thread exiting"
    );
}

#[test]
fn hook_thread_tells_of_trouble() {
    let messages = [message(5, WM_SPIKE_PROBE), message(-1, 0)];
    let (done, lines) = run_thread(&[1, 2, 3], &messages, true);
    assert_eq!(done.last().unwrap(), "Stop");
    assert_eq!(
        lines[3..],
        [
            "[SpikeTest] hook thread started tid=7 hooks=3",
            "[SpikeTest] panic in delayed probe handler",
            "[SpikeTest] GetMessageW failed on hook thread",
            "[SpikeTest] hook thread stopped and hooks uninstalled",
        ]
    );
}

/// What a thread tells its starter, in order.
fn reports(hooks: [usize; 3]) -> Vec<Result<u32, String>> {
    let mut thread = HookThread::new(7);
    let mut hooks = hooks.iter();
    let mut told: Vec<Result<u32, String>> = Vec::new();
    loop {
        let action = thread.action();
        told.extend(told_by(action));
        let reply = match action {
            HookAction::Stop => return told,
            HookAction::PrepareQueue => HookReply::Prepared,
            HookAction::Install { .. } => HookReply::Installed(*hooks.next().unwrap()),
            HookAction::NextMessage => message(0, 18),
            HookAction::Unhook { .. } => HookReply::Unhooked,
            _ => HookReply::Reported,
        };
        thread = thread.advance(reply).0;
    }
}

#[test]
fn start_succeeds_exactly_with_a_hook() {
    for hooks in [[1, 0, 0], [0, 2, 0], [0, 0, 3], [1, 2, 3]] {
        let mut told = reports(hooks);
        assert_eq!(told, vec![Ok(7)]);
        let controller = HookThreadController::start(told.pop()).ok().unwrap();
        assert_eq!(controller.thread_id, 7);
        assert!(controller.join_pending);
    }
    let mut told = reports([0, 0, 0]);
    assert_eq!(told, vec![Err(startup_failure_message())]);
    assert_eq!(
        HookThreadController::start(told.pop()).err().unwrap(),
        "[SpikeTest] no WinEvent hooks were installed; hook thread exiting"
    );
}

#[test]
fn controllers_start() {
    let running = HookThreadController::start(Some(Ok(9))).ok().unwrap();
    assert_eq!(running.thread_id, 9);
    assert!(running.join_pending);
    assert_eq!(
        HookThreadController::start(Some(Err("no hooks".to_string()))).err().unwrap(),
        "[SpikeTest] no hooks"
    );
    assert_eq!(
        HookThreadController::start(None).err().unwrap(),
        "[SpikeTest] hook thread startup channel closed unexpectedly"
    );
}

#[test]
fn controllers_stop_once() {
    let mut controller = HookThreadController { thread_id: 9, join_pending: true };
    let step = controller.stop(true);
    assert!(step.join);
    assert_eq!(step.line, "[SpikeTest] WM_QUIT posted to hook thread");
    let step = controller.stop(false);
    assert!(!step.join);
    assert_eq!(step.line, "[SpikeTest] failed to post WM_QUIT to hook thread");
    assert_eq!(controller.thread_id, 9);
    assert!(join_line(false).is_none());
    assert_eq!(
        join_line(true).unwrap(),
        "[SpikeTest] hook thread panicked during join"
    );
}
