//! Window events: which of them lead to a probe.
//!
//! Handling an event is a dialogue: the handler says what has to be done next,
//! takes the result, and goes on until nothing is left to do.
use crate::history::{history_after, probe_is_due, should_probe_now, ProbeHistory};
use crate::probe::ProbeOutcome;
use crate::text::{decimal, hwnd_text, push_decimal, push_hwnd};
use vstd::prelude::*;
use vstd::string::*;

verus! {

/// A window or control was created.
pub const EVENT_OBJECT_CREATE: u32 = 0x8000;

/// A window or control became visible.
pub const EVENT_OBJECT_SHOW: u32 = 0x8002;

/// A window or control got the keyboard focus.
pub const EVENT_OBJECT_FOCUS: u32 = 0x8005;

/// The object of an event is the window itself.
pub const OBJID_WINDOW: i32 = 0;

/// The object of an event is the client area of the window.
pub const OBJID_CLIENT: i32 = -4;

/// The name of an event.
pub open spec fn event_name_of(event: u32) -> Seq<char> {
    if event == EVENT_OBJECT_CREATE {
        "EVENT_OBJECT_CREATE"@
    } else if event == EVENT_OBJECT_SHOW {
        "EVENT_OBJECT_SHOW"@
    } else if event == EVENT_OBJECT_FOCUS {
        "EVENT_OBJECT_FOCUS"@
    } else {
        "UNKNOWN_EVENT"@
    }
}

/// The name of an event.
pub fn event_name(event: u32) -> (r: &'static str)
    ensures
        r@ == event_name_of(event),
{
    if event == EVENT_OBJECT_CREATE {
        "EVENT_OBJECT_CREATE"
    } else if event == EVENT_OBJECT_SHOW {
        "EVENT_OBJECT_SHOW"
    } else if event == EVENT_OBJECT_FOCUS {
        "EVENT_OBJECT_FOCUS"
    } else {
        "UNKNOWN_EVENT"
    }
}

/// Tells whether an event calls for a probe: a window itself was created or
/// shown, or a window or its client area got the focus.
pub open spec fn is_trigger(event: u32, hwnd: usize, id_object: i32, id_child: i32) -> bool {
    hwnd != 0 && {
        ||| (event == EVENT_OBJECT_CREATE || event == EVENT_OBJECT_SHOW) && id_object
            == OBJID_WINDOW && id_child == 0
        ||| event == EVENT_OBJECT_FOCUS && (id_object == OBJID_WINDOW || id_object == OBJID_CLIENT)
    }
}

/// Tells whether an event calls for a probe.
pub fn is_probe_trigger(event: u32, hwnd: usize, id_object: i32, id_child: i32) -> (r: bool)
    ensures
        r == is_trigger(event, hwnd, id_object, id_child),
        hwnd == 0 ==> !r,
        hwnd != 0 && event == 0x8005 ==> r == (id_object == 0 || id_object == -4),
        hwnd != 0 && (event == 0x8000 || event == 0x8002) ==> r == (id_object == 0 && id_child
            == 0),
        event != 0x8000 && event != 0x8002 && event != 0x8005 ==> !r,
{
    if hwnd == 0 {
        return false;
    }
    if event == EVENT_OBJECT_CREATE || event == EVENT_OBJECT_SHOW {
        id_object == OBJID_WINDOW && id_child == 0
    } else if event == EVENT_OBJECT_FOCUS {
        id_object == OBJID_WINDOW || id_object == OBJID_CLIENT || id_object == 0
    } else {
        false
    }
}

/// The root of a window: its topmost ancestor, or itself when it has none.
pub open spec fn root_of(hwnd: usize, ancestor: usize) -> usize {
    if ancestor == 0 {
        hwnd
    } else {
        ancestor
    }
}

/// The root of a window.
pub fn resolve_root_window(hwnd: usize, ancestor: usize) -> (r: usize)
    ensures
        r == root_of(hwnd, ancestor),
{
    if ancestor == 0 {
        hwnd
    } else {
        ancestor
    }
}

/// What led to a probe.
#[derive(Clone, Copy, Debug)]
pub enum ProbeSource {
    /// A window event.
    Event(u32),
    /// A message that was posted with a delay.
    Delayed,
}

impl ProbeSource {
    /// The name under which a probe is logged.
    pub open spec fn name_of(self) -> Seq<char> {
        match self {
            ProbeSource::Event(event) => event_name_of(event),
            ProbeSource::Delayed => "DELAYED"@,
        }
    }

    /// The name under which a probe is logged.
    pub fn name(&self) -> (r: &'static str)
        ensures
            r@ == self.name_of(),
    {
        match *self {
            ProbeSource::Event(event) => event_name(event),
            ProbeSource::Delayed => "DELAYED",
        }
    }
}

/// A window event.
#[derive(Clone, Copy, Debug)]
pub struct WinEvent {
    pub event: u32,
    pub hwnd: usize,
    pub id_object: i32,
    pub id_child: i32,
    pub event_thread: u32,
}

/// What has to be done next for an event.
#[derive(Clone, Copy, Debug)]
pub enum EventAction {
    /// Find the root ancestor of a window.
    FindAncestor { hwnd: usize },
    /// Check that a handle is that of a window.
    CheckWindow { root: usize },
    /// Read the clock.
    ReadClock,
    /// Probe a window.
    RunProbe { root: usize, source: ProbeSource, attempt: u32 },
    /// Start the delayed probes of a window.
    ScheduleRetries { root: usize },
    /// Nothing: the event is handled.
    Nothing,
}

/// What came of an [`EventAction`].
#[derive(Clone, Copy, Debug)]
pub enum EventReply {
    Ancestor(usize),
    WindowChecked(bool),
    Clock(u128),
    Probed(ProbeOutcome),
    RetriesScheduled,
    /// What was to be done has panicked.
    Panicked,
}

/// How far an event is handled.
#[derive(Clone, Copy, Debug)]
pub enum EventStage {
    Ancestor,
    Window { root: usize },
    Clock { root: usize },
    Probe { root: usize },
    Retries { root: usize },
    Done,
}

/// The handler of one event.
#[derive(Clone, Copy, Debug)]
pub struct EventHandler {
    pub event: WinEvent,
    pub stage: EventStage,
}

/// The line of an event that leads to a probe.
pub open spec fn trigger_line(event: WinEvent, root: usize) -> Seq<char> {
    "[SpikeTest] Trigger event="@ + event_name_of(event.event) + " root="@ + hwnd_text(root)
        + " hwnd="@ + hwnd_text(event.hwnd) + " obj="@ + decimal(event.id_object as int)
        + " child="@ + decimal(event.id_child as int) + " event_thread="@ + decimal(
        event.event_thread as int,
    )
}

fn make_trigger_line(event: &WinEvent, root: usize) -> (r: String)
    ensures
        r@ == trigger_line(*event, root),
{
    let mut line = "[SpikeTest] Trigger event=".to_owned();
    line.append(event_name(event.event));
    line.append(" root=");
    push_hwnd(&mut line, root);
    line.append(" hwnd=");
    push_hwnd(&mut line, event.hwnd);
    line.append(" obj=");
    push_decimal(&mut line, event.id_object as i128);
    line.append(" child=");
    push_decimal(&mut line, event.id_child as i128);
    line.append(" event_thread=");
    push_decimal(&mut line, event.event_thread as i128);
    line
}

impl WinEvent {
    /// Tells whether the event calls for a probe.
    pub open spec fn triggers(self) -> bool {
        is_trigger(self.event, self.hwnd, self.id_object, self.id_child)
    }
}

impl EventHandler {
    /// Where the handling of an event starts: one that does not call for a
    /// probe is handled at once.
    pub open spec fn started(event: WinEvent) -> EventHandler {
        EventHandler {
            event,
            stage: if event.triggers() {
                EventStage::Ancestor
            } else {
                EventStage::Done
            },
        }
    }

    /// What has to be done next. The first probe runs under the name of the
    /// event, as attempt 0.
    pub open spec fn next_action(self) -> EventAction {
        match self.stage {
            EventStage::Ancestor => EventAction::FindAncestor { hwnd: self.event.hwnd },
            EventStage::Window { root } => EventAction::CheckWindow { root },
            EventStage::Clock { .. } => EventAction::ReadClock,
            EventStage::Probe { root } => EventAction::RunProbe {
                root,
                source: ProbeSource::Event(self.event.event),
                attempt: 0,
            },
            EventStage::Retries { root } => EventAction::ScheduleRetries { root },
            EventStage::Done => EventAction::Nothing,
        }
    }

    /// Where a result takes the handler. A panic ends the handling; a result of
    /// something else than what was to be done takes it nowhere.
    pub open spec fn advanced(self, reply: EventReply, history: Map<usize, u128>) -> EventHandler {
        let stage = match (self.stage, reply) {
            (EventStage::Ancestor, EventReply::Ancestor(ancestor)) => {
                let root = root_of(self.event.hwnd, ancestor);
                if root == 0 {
                    EventStage::Done
                } else {
                    EventStage::Window { root }
                }
            },
            (EventStage::Window { root }, EventReply::WindowChecked(valid)) => if valid {
                EventStage::Clock { root }
            } else {
                EventStage::Done
            },
            (EventStage::Clock { root }, EventReply::Clock(now)) => if probe_is_due(
                history,
                root,
                now,
            ) {
                EventStage::Probe { root }
            } else {
                EventStage::Done
            },
            (EventStage::Probe { root }, EventReply::Probed(outcome)) => if outcome.strong_found {
                EventStage::Done
            } else {
                EventStage::Retries { root }
            },
            (EventStage::Retries { .. }, EventReply::RetriesScheduled) => EventStage::Done,
            (_, EventReply::Panicked) => EventStage::Done,
            _ => self.stage,
        };
        EventHandler { event: self.event, stage }
    }

    /// The history after a result: only the clock touches it.
    pub open spec fn recorded(self, reply: EventReply, history: Map<usize, u128>) -> Map<
        usize,
        u128,
    > {
        match (self.stage, reply) {
            (EventStage::Clock { root }, EventReply::Clock(now)) => history_after(
                history,
                root,
                now,
            ),
            _ => history,
        }
    }

    /// The line to log with a result: the one of an event that leads to a probe,
    /// or the one of a panic.
    pub open spec fn line(self, reply: EventReply, history: Map<usize, u128>) -> Option<Seq<char>> {
        match (self.stage, reply) {
            (EventStage::Clock { root }, EventReply::Clock(now)) => if probe_is_due(
                history,
                root,
                now,
            ) {
                Some(trigger_line(self.event, root))
            } else {
                None
            },
            (EventStage::Done, _) => None,
            (_, EventReply::Panicked) => Some("[SpikeTest] panic in WinEventProc callback"@),
            _ => None,
        }
    }

    /// Starts to handle an event.
    pub fn new(event: WinEvent) -> (r: EventHandler)
        ensures
            r == EventHandler::started(event),
    {
        let stage = if is_probe_trigger(event.event, event.hwnd, event.id_object, event.id_child) {
            EventStage::Ancestor
        } else {
            EventStage::Done
        };
        EventHandler { event, stage }
    }

    /// What has to be done next.
    pub fn action(&self) -> (r: EventAction)
        ensures
            r == self.next_action(),
    {
        match self.stage {
            EventStage::Ancestor => EventAction::FindAncestor { hwnd: self.event.hwnd },
            EventStage::Window { root } => EventAction::CheckWindow { root },
            EventStage::Clock { .. } => EventAction::ReadClock,
            EventStage::Probe { root } => EventAction::RunProbe {
                root,
                source: ProbeSource::Event(self.event.event),
                attempt: 0,
            },
            EventStage::Retries { root } => EventAction::ScheduleRetries { root },
            EventStage::Done => EventAction::Nothing,
        }
    }

    /// Takes the result of what had to be done, and gives the line to log.
    pub fn advance(&mut self, reply: EventReply, history: &mut ProbeHistory) -> (r: Option<String>)
        ensures
            *final(self) == old(self).advanced(reply, old(history)@),
            final(history)@ == old(self).recorded(reply, old(history)@),
            r is Some == old(self).line(reply, old(history)@) is Some,
            r is Some ==> r->0@ == old(self).line(reply, old(history)@)->0,
    {
        match (self.stage, reply) {
            (EventStage::Ancestor, EventReply::Ancestor(ancestor)) => {
                let root = resolve_root_window(self.event.hwnd, ancestor);
                self.stage = if root == 0 {
                    EventStage::Done
                } else {
                    EventStage::Window { root }
                };
                None
            },
            (EventStage::Window { root }, EventReply::WindowChecked(valid)) => {
                self.stage = if valid {
                    EventStage::Clock { root }
                } else {
                    EventStage::Done
                };
                None
            },
            (EventStage::Clock { root }, EventReply::Clock(now)) => {
                if should_probe_now(history, root, now) {
                    self.stage = EventStage::Probe { root };
                    Some(make_trigger_line(&self.event, root))
                } else {
                    self.stage = EventStage::Done;
                    None
                }
            },
            (EventStage::Probe { root }, EventReply::Probed(outcome)) => {
                self.stage = if outcome.strong_found {
                    EventStage::Done
                } else {
                    EventStage::Retries { root }
                };
                None
            },
            (EventStage::Retries { .. }, EventReply::RetriesScheduled) => {
                self.stage = EventStage::Done;
                None
            },
            (EventStage::Done, _) => None,
            (_, EventReply::Panicked) => {
                self.stage = EventStage::Done;
                Some("[SpikeTest] panic in WinEventProc callback".to_owned())
            },
            _ => None,
        }
    }
}

/// What the outside says while an event is handled.
pub struct EventSurroundings {
    pub ancestor: usize,
    pub is_window: bool,
    pub now: u128,
    pub outcome: ProbeOutcome,
}

impl EventSurroundings {
    /// What comes of an action.
    pub open spec fn reply(self, action: EventAction) -> EventReply {
        match action {
            EventAction::FindAncestor { .. } => EventReply::Ancestor(self.ancestor),
            EventAction::CheckWindow { .. } => EventReply::WindowChecked(self.is_window),
            EventAction::ReadClock => EventReply::Clock(self.now),
            EventAction::RunProbe { .. } => EventReply::Probed(self.outcome),
            _ => EventReply::RetriesScheduled,
        }
    }
}

impl EventHandler {
    /// How many results the handler takes at most from here on.
    pub open spec fn steps_left(self) -> nat {
        match self.stage {
            EventStage::Ancestor => 5,
            EventStage::Window { .. } => 4,
            EventStage::Clock { .. } => 3,
            EventStage::Probe { .. } => 2,
            EventStage::Retries { .. } => 1,
            EventStage::Done => 0,
        }
    }

    /// All that is done for an event from here on, in order.
    pub open spec fn actions(self, around: EventSurroundings, history: Map<usize, u128>) -> Seq<
        EventAction,
    >
        decreases self.steps_left(),
    {
        if self.stage is Done {
            Seq::empty()
        } else {
            let reply = around.reply(self.next_action());
            seq![self.next_action()] + self.advanced(reply, history).actions(
                around,
                self.recorded(reply, history),
            )
        }
    }

    /// The history when the event is handled.
    pub open spec fn history_at_end(
        self,
        around: EventSurroundings,
        history: Map<usize, u128>,
    ) -> Map<usize, u128>
        decreases self.steps_left(),
    {
        if self.stage is Done {
            history
        } else {
            let reply = around.reply(self.next_action());
            self.advanced(reply, history).history_at_end(around, self.recorded(reply, history))
        }
    }
}

/// An event leads to a probe exactly when it calls for one, its root is a
/// window, and a probe of the root is due; to delayed probes exactly when the
/// probe found no strong candidate. The probe is one of the root, under the name
/// of the event and as attempt 0. Nothing else is ever done, and only an event
/// that leads to a probe is recorded.
pub proof fn event_is_handled(
    event: WinEvent,
    around: EventSurroundings,
    history: Map<usize, u128>,
)
    ensures
        ({
            let root = root_of(event.hwnd, around.ancestor);
            let due = probe_is_due(history, root, around.now);
            let actions = EventHandler::started(event).actions(around, history);
            let end = EventHandler::started(event).history_at_end(around, history);
            &&& !event.triggers() ==> actions == Seq::<EventAction>::empty() && end == history
            &&& event.triggers() ==> root != 0
            &&& event.triggers() && !around.is_window ==> actions == seq![
                EventAction::FindAncestor { hwnd: event.hwnd },
                EventAction::CheckWindow { root },
            ] && end == history
            &&& event.triggers() && around.is_window && !due ==> actions == seq![
                EventAction::FindAncestor { hwnd: event.hwnd },
                EventAction::CheckWindow { root },
                EventAction::ReadClock,
            ] && end == history
            &&& event.triggers() && around.is_window && due && around.outcome.strong_found
                ==> actions == seq![
                EventAction::FindAncestor { hwnd: event.hwnd },
                EventAction::CheckWindow { root },
                EventAction::ReadClock,
                EventAction::RunProbe {
                    root,
                    source: ProbeSource::Event(event.event),
                    attempt: 0,
                },
            ] && end == history.insert(root, around.now)
            &&& event.triggers() && around.is_window && due && !around.outcome.strong_found
                ==> actions == seq![
                EventAction::FindAncestor { hwnd: event.hwnd },
                EventAction::CheckWindow { root },
                EventAction::ReadClock,
                EventAction::RunProbe {
                    root,
                    source: ProbeSource::Event(event.event),
                    attempt: 0,
                },
                EventAction::ScheduleRetries { root },
            ] && end == history.insert(root, around.now)
        }),
{
    reveal_with_fuel(EventHandler::actions, 6);
    reveal_with_fuel(EventHandler::history_at_end, 6);
}

/// A panic, whenever it comes, ends the handling of an event with one line and
/// leaves the history as it is.
pub proof fn panic_ends_the_event(
    handler: EventHandler,
    around: EventSurroundings,
    history: Map<usize, u128>,
)
    requires
        !(handler.stage is Done),
    ensures
        ({
            let end = handler.advanced(EventReply::Panicked, history);
            &&& end.stage is Done
            &&& end.actions(around, history) == Seq::<EventAction>::empty()
            &&& handler.recorded(EventReply::Panicked, history) == history
            &&& handler.line(EventReply::Panicked, history) == Some(
                "[SpikeTest] panic in WinEventProc callback"@,
            )
        }),
{
}

/// A focus event calls for a probe by its object alone, the window or its client
/// area, and whatever its child is. A create or show event does so for the window
/// itself only. No other event does, and none without a window.
pub proof fn triggers_are_told_by_event_and_object(
    event: u32,
    hwnd: usize,
    id_object: i32,
    id_child: i32,
)
    ensures
        !is_trigger(event, 0, id_object, id_child),
        hwnd != 0 ==> (is_trigger(0x8005, hwnd, id_object, id_child) <==> id_object == 0
            || id_object == -4),
        hwnd != 0 ==> (is_trigger(0x8000, hwnd, id_object, id_child) <==> id_object == 0 && id_child
            == 0),
        hwnd != 0 ==> (is_trigger(0x8002, hwnd, id_object, id_child) <==> id_object == 0 && id_child
            == 0),
        is_trigger(event, hwnd, id_object, id_child) ==> event == 0x8000 || event == 0x8002 || event
            == 0x8005,
{
}

/// Two focus events for the same object both call for a probe or neither does,
/// and so do two events of any kind that differ in their windows alone.
pub proof fn triggers_do_not_depend_on_the_rest(
    event: u32,
    hwnd: (usize, usize),
    id_object: i32,
    id_child: (i32, i32),
)
    requires
        hwnd.0 != 0,
        hwnd.1 != 0,
    ensures
        is_trigger(0x8005, hwnd.0, id_object, id_child.0) == is_trigger(
            0x8005,
            hwnd.1,
            id_object,
            id_child.1,
        ),
        is_trigger(event, hwnd.0, id_object, id_child.0) == is_trigger(
            event,
            hwnd.1,
            id_object,
            id_child.0,
        ),
        is_trigger(0x8000, hwnd.0, id_object, id_child.0) == is_trigger(
            0x8002,
            hwnd.0,
            id_object,
            id_child.0,
        ),
{
}

/// Each of the three events has its own name, and all others share one.
pub proof fn events_are_told_apart_by_name(event: u32, other: u32)
    ensures
        event == 0x8000 <==> event_name_of(event) == "EVENT_OBJECT_CREATE"@,
        event == 0x8002 <==> event_name_of(event) == "EVENT_OBJECT_SHOW"@,
        event == 0x8005 <==> event_name_of(event) == "EVENT_OBJECT_FOCUS"@,
        event != 0x8000 && event != 0x8002 && event != 0x8005 <==> event_name_of(event)
            == "UNKNOWN_EVENT"@,
        event_name_of(event) == event_name_of(other) <==> {
            ||| event == other
            ||| event_name_of(event) == "UNKNOWN_EVENT"@ && event_name_of(other)
                == "UNKNOWN_EVENT"@
        },
        ProbeSource::Event(event).name_of() == event_name_of(event),
        ProbeSource::Delayed.name_of() == "DELAYED"@,
{
    reveal_strlit("EVENT_OBJECT_CREATE");
    reveal_strlit("EVENT_OBJECT_SHOW");
    reveal_strlit("EVENT_OBJECT_FOCUS");
    reveal_strlit("UNKNOWN_EVENT");
    assert("EVENT_OBJECT_CREATE"@[13] != "EVENT_OBJECT_FOCUS"@[13]);
    assert("EVENT_OBJECT_CREATE"@.len() != "EVENT_OBJECT_SHOW"@.len());
    assert("EVENT_OBJECT_FOCUS"@.len() != "EVENT_OBJECT_SHOW"@.len());
}

/// The root of a window is its ancestor where there is one and the window itself
/// otherwise; so a window always has a root.
pub proof fn roots_are_ancestors(hwnd: usize, ancestor: usize)
    ensures
        ancestor != 0 ==> root_of(hwnd, ancestor) == ancestor,
        root_of(hwnd, 0) == hwnd,
        hwnd != 0 ==> root_of(hwnd, ancestor) != 0,
{
}

/// An event that calls for a probe is followed all the way, from its root over
/// the window check and the clock to the probe, which is recorded and told, and
/// to the delayed probes. The way ends where the root is no window, where the
/// last probe of it is less than 150 milliseconds old, and where the probe finds
/// a strong candidate.
pub proof fn events_are_followed(
    event: WinEvent,
    ancestor: usize,
    now: u128,
    outcome: ProbeOutcome,
    history: Map<usize, u128>,
)
    ensures
        ({
            let root = if ancestor != 0 {
                ancestor
            } else {
                event.hwnd
            };
            let calls = event.hwnd != 0 && {
                ||| (event.event == 0x8000 || event.event == 0x8002) && event.id_object == 0
                    && event.id_child == 0
                ||| event.event == 0x8005 && (event.id_object == 0 || event.id_object == -4)
            };
            let due = !history.contains_key(root) || now >= history[root] + 150_000_000;
            let new = EventHandler::started(event);
            let rooted = new.advanced(EventReply::Ancestor(ancestor), history);
            let gone = rooted.advanced(EventReply::WindowChecked(false), history);
            let checked = rooted.advanced(EventReply::WindowChecked(true), history);
            let timed = checked.advanced(EventReply::Clock(now), history);
            let probed = timed.advanced(EventReply::Probed(outcome), history);
            let scheduled = probed.advanced(EventReply::RetriesScheduled, history);
            &&& !calls ==> new.next_action() == EventAction::Nothing
            &&& calls ==> {
                &&& new.next_action() == EventAction::FindAncestor { hwnd: event.hwnd }
                &&& rooted.next_action() == EventAction::CheckWindow { root }
                &&& gone.next_action() == EventAction::Nothing
                &&& checked.next_action() == EventAction::ReadClock
                &&& !due ==> {
                    &&& timed.next_action() == EventAction::Nothing
                    &&& checked.recorded(EventReply::Clock(now), history) == history
                    &&& checked.line(EventReply::Clock(now), history) is None
                }
                &&& due ==> {
                    &&& timed.next_action() == EventAction::RunProbe {
                        root,
                        source: ProbeSource::Event(event.event),
                        attempt: 0,
                    }
                    &&& checked.recorded(EventReply::Clock(now), history) == history.insert(
                        root,
                        now,
                    )
                    &&& checked.line(EventReply::Clock(now), history) == Some(
                        "[SpikeTest] Trigger event="@ + event_name_of(event.event) + " root="@
                            + hwnd_text(root) + " hwnd="@ + hwnd_text(event.hwnd) + " obj="@
                            + decimal(event.id_object as int) + " child="@ + decimal(
                            event.id_child as int,
                        ) + " event_thread="@ + decimal(event.event_thread as int),
                    )
                    &&& outcome.strong_found ==> probed.next_action() == EventAction::Nothing
                    &&& !outcome.strong_found ==> probed.next_action()
                        == EventAction::ScheduleRetries { root }
                    &&& !outcome.strong_found ==> scheduled.next_action() == EventAction::Nothing
                }
            }
        }),
{
}

/// Only the clock is recorded and only the clock and a panic are told. A handler
/// keeps its event, and is not moved by a result of something else than what was
/// to be done, nor by any when the event is handled.
pub proof fn handlers_ignore_other_results(
    handler: EventHandler,
    reply: EventReply,
    history: Map<usize, u128>,
)
    ensures
        handler.advanced(reply, history).event == handler.event,
        !(reply is Clock) ==> handler.recorded(reply, history) == history,
        !(reply is Clock) && !(reply is Panicked) ==> handler.line(reply, history) is None,
        (match reply {
            EventReply::Ancestor(_) => !(handler.next_action() is FindAncestor),
            EventReply::WindowChecked(_) => !(handler.next_action() is CheckWindow),
            EventReply::Clock(_) => !(handler.next_action() is ReadClock),
            EventReply::Probed(_) => !(handler.next_action() is RunProbe),
            EventReply::RetriesScheduled => !(handler.next_action() is ScheduleRetries),
            EventReply::Panicked => handler.next_action() is Nothing,
        }) ==> {
            &&& handler.advanced(reply, history) == handler
            &&& handler.recorded(reply, history) == history
            &&& handler.line(reply, history) is None
        },
{
}

} // verus!
