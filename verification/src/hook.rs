//! The hook thread: it installs the event hooks, waits for messages, and
//! removes the hooks when it is told to quit.
//!
//! Running the thread is a dialogue: the state says what has to be done next,
//! takes the result, and goes on until the thread may end.
use crate::events::{
    event_name, event_name_of, ProbeSource, EVENT_OBJECT_CREATE, EVENT_OBJECT_FOCUS,
    EVENT_OBJECT_SHOW,
};
use crate::retry::{
    delayed_probe, delayed_probe_of, probes_are_asked_for_by_one_message,
    retries_are_the_same_for_all_windows, retries_of,
};
use crate::text::{decimal, push_decimal};
use vstd::prelude::*;
use vstd::string::*;

verus! {

/// The events that the thread hooks, in the order in which it does so.
pub const HOOKED_EVENTS: [u32; 3] = [EVENT_OBJECT_CREATE, EVENT_OBJECT_SHOW, EVENT_OBJECT_FOCUS];

/// What the thread has to do next.
#[derive(Clone, Copy, Debug)]
pub enum HookAction {
    /// Make sure that the thread has a message queue.
    PrepareQueue,
    /// Install a hook for an event.
    Install { event: u32 },
    /// Tell the starter that there is no hook.
    ReportFailure,
    /// Tell the starter that the thread is ready.
    ReportReady { thread_id: u32 },
    /// Wait for the next message.
    NextMessage,
    /// Probe a window.
    RunProbe { root: usize, source: ProbeSource, attempt: u32 },
    /// Translate and dispatch the message.
    Dispatch,
    /// Remove a hook.
    Unhook { hook: usize },
    /// End.
    Stop,
}

/// A message, with what waiting for it returned: -1 on failure, 0 when the
/// thread is to quit, something else otherwise.
#[derive(Clone, Copy, Debug)]
pub struct ThreadMessage {
    pub result: i32,
    pub message: u32,
    pub wparam: usize,
    pub lparam: isize,
}

/// What came of a [`HookAction`].
#[derive(Clone, Copy, Debug)]
pub enum HookReply {
    Prepared,
    /// The hook, 0 when it could not be installed.
    Installed(usize),
    Reported,
    Message(ThreadMessage),
    /// The probe is over, or has panicked.
    Probed { panicked: bool },
    Dispatched,
    Unhooked,
}

/// How far the thread has come.
#[derive(Clone, Copy, Debug)]
pub enum HookStage {
    Prepare,
    Install { index: usize },
    ReportFailure,
    ReportReady,
    Wait,
    Probe { root: usize, attempt: u32 },
    Dispatch,
    Unhook { index: usize },
    Stopped,
}

/// The state of the thread.
pub struct HookView {
    pub thread_id: u32,
    pub hooks: Seq<usize>,
    pub stage: HookStage,
}

impl ThreadMessage {
    /// Tells whether the thread ends its loop on this message.
    pub open spec fn quits(self) -> bool {
        self.result == -1 || self.result == 0
    }

    /// Where the loop goes on a message that does not end it: to a probe when
    /// the message asks for one.
    pub open spec fn reaction(self) -> HookStage {
        match delayed_probe_of(self.message, self.wparam, self.lparam) {
            Some(probe) => HookStage::Probe { root: probe.root, attempt: probe.attempt },
            None => HookStage::Dispatch,
        }
    }
}

/// The line on an attempt to install a hook.
pub open spec fn install_line(event: u32, installed: bool) -> Seq<char> {
    if installed {
        "[SpikeTest] SetWinEventHook installed event="@ + event_name_of(event)
    } else {
        "[SpikeTest] SetWinEventHook failed event="@ + event_name_of(event)
    }
}

/// The line of a thread that is ready.
pub open spec fn started_line(thread_id: u32, hooks: int) -> Seq<char> {
    "[SpikeTest] hook thread started tid="@ + decimal(thread_id as int) + " hooks="@ + decimal(hooks)
}

impl HookView {
    /// The state of a thread that starts.
    pub open spec fn started(thread_id: u32) -> HookView {
        HookView { thread_id, hooks: Seq::empty(), stage: HookStage::Prepare }
    }

    /// A thread installs at most one hook for each event, and waits for
    /// messages only when it has a hook.
    pub open spec fn valid(self) -> bool {
        match self.stage {
            HookStage::Prepare => self.hooks.len() == 0,
            HookStage::Install { index } => {
                &&& index < HOOKED_EVENTS@.len()
                &&& self.hooks.len() <= index
            },
            HookStage::ReportFailure => self.hooks.len() == 0,
            HookStage::Unhook { index } => index < self.hooks.len() <= HOOKED_EVENTS@.len(),
            HookStage::Stopped => self.hooks.len() <= HOOKED_EVENTS@.len(),
            _ => 0 < self.hooks.len() <= HOOKED_EVENTS@.len(),
        }
    }

    /// What the thread has to do next. Its probes run under the name of delayed
    /// ones.
    pub open spec fn action(self) -> HookAction {
        match self.stage {
            HookStage::Prepare => HookAction::PrepareQueue,
            HookStage::Install { index } => HookAction::Install {
                event: HOOKED_EVENTS@[index as int],
            },
            HookStage::ReportFailure => HookAction::ReportFailure,
            HookStage::ReportReady => HookAction::ReportReady { thread_id: self.thread_id },
            HookStage::Wait => HookAction::NextMessage,
            HookStage::Probe { root, attempt } => HookAction::RunProbe {
                root,
                source: ProbeSource::Delayed,
                attempt,
            },
            HookStage::Dispatch => HookAction::Dispatch,
            HookStage::Unhook { index } => HookAction::Unhook { hook: self.hooks[index as int] },
            HookStage::Stopped => HookAction::Stop,
        }
    }

    /// The hooks with one more, unless it could not be installed.
    pub open spec fn with_hook(self, hook: usize) -> Seq<usize> {
        if hook == 0 {
            self.hooks
        } else {
            self.hooks.push(hook)
        }
    }

    /// Where a result takes the thread. A result of something else than what
    /// was to be done takes it nowhere.
    pub open spec fn advanced(self, reply: HookReply) -> HookView {
        match (self.stage, reply) {
            (HookStage::Prepare, HookReply::Prepared) => HookView {
                stage: HookStage::Install { index: 0 },
                ..self
            },
            (HookStage::Install { index }, HookReply::Installed(hook)) => HookView {
                hooks: self.with_hook(hook),
                stage: if index + 1 < HOOKED_EVENTS@.len() {
                    HookStage::Install { index: (index + 1) as usize }
                } else if self.with_hook(hook).len() == 0 {
                    HookStage::ReportFailure
                } else {
                    HookStage::ReportReady
                },
                ..self
            },
            (HookStage::ReportFailure, HookReply::Reported) => HookView {
                stage: HookStage::Stopped,
                ..self
            },
            (HookStage::ReportReady, HookReply::Reported) => HookView {
                stage: HookStage::Wait,
                ..self
            },
            (HookStage::Wait, HookReply::Message(message)) => HookView {
                stage: if message.quits() {
                    HookStage::Unhook { index: 0 }
                } else {
                    message.reaction()
                },
                ..self
            },
            (HookStage::Probe { .. }, HookReply::Probed { .. }) => HookView {
                stage: HookStage::Wait,
                ..self
            },
            (HookStage::Dispatch, HookReply::Dispatched) => HookView {
                stage: HookStage::Wait,
                ..self
            },
            (HookStage::Unhook { index }, HookReply::Unhooked) => HookView {
                stage: if index + 1 < self.hooks.len() {
                    HookStage::Unhook { index: (index + 1) as usize }
                } else {
                    HookStage::Stopped
                },
                ..self
            },
            _ => self,
        }
    }

    /// The line to log with a result.
    pub open spec fn line(self, reply: HookReply) -> Option<Seq<char>> {
        match (self.stage, reply) {
            (HookStage::Install { index }, HookReply::Installed(hook)) => Some(
                install_line(HOOKED_EVENTS@[index as int], hook != 0),
            ),
            (HookStage::ReportReady, HookReply::Reported) => Some(
                started_line(self.thread_id, self.hooks.len() as int),
            ),
            (HookStage::Wait, HookReply::Message(message)) => if message.result == -1 {
                Some("[SpikeTest] GetMessageW failed on hook thread"@)
            } else {
                None
            },
            (HookStage::Probe { .. }, HookReply::Probed { panicked }) => if panicked {
                Some("[SpikeTest] panic in delayed probe handler"@)
            } else {
                None
            },
            (HookStage::Unhook { index }, HookReply::Unhooked) => if index + 1 < self.hooks.len() {
                None
            } else {
                Some("[SpikeTest] hook thread stopped and hooks uninstalled"@)
            },
            _ => None,
        }
    }
}

/// The thread, as it runs.
pub struct HookThread {
    thread_id: u32,
    hooks: Vec<usize>,
    stage: HookStage,
}

impl View for HookThread {
    type V = HookView;

    closed spec fn view(&self) -> HookView {
        HookView { thread_id: self.thread_id, hooks: self.hooks@, stage: self.stage }
    }
}

fn make_install_line(event: u32, installed: bool) -> (r: String)
    ensures
        r@ == install_line(event, installed),
{
    let mut line = if installed {
        "[SpikeTest] SetWinEventHook installed event=".to_owned()
    } else {
        "[SpikeTest] SetWinEventHook failed event=".to_owned()
    };
    line.append(event_name(event));
    line
}

fn make_started_line(thread_id: u32, hooks: usize) -> (r: String)
    ensures
        r@ == started_line(thread_id, hooks as int),
{
    let mut line = "[SpikeTest] hook thread started tid=".to_owned();
    push_decimal(&mut line, thread_id as i128);
    line.append(" hooks=");
    push_decimal(&mut line, hooks as i128);
    line
}

impl HookThread {
    #[verifier::type_invariant]
    spec fn valid(self) -> bool {
        self@.valid()
    }

    /// A thread that starts.
    pub fn new(thread_id: u32) -> (r: HookThread)
        ensures
            r@ == HookView::started(thread_id),
    {
        let r = HookThread {
            thread_id,
            hooks: Vec::new(),
            stage: HookStage::Prepare,
        };
        assert(r@.hooks =~= Seq::empty());
        r
    }

    /// What the thread has to do next.
    pub fn action(&self) -> (r: HookAction)
        ensures
            r == self@.action(),
            self@.valid(),
    {
        proof {
            use_type_invariant(self);
        }
        match self.stage {
            HookStage::Prepare => HookAction::PrepareQueue,
            HookStage::Install { index } => {
                let events = HOOKED_EVENTS;
                HookAction::Install { event: events[index] }
            },
            HookStage::ReportFailure => HookAction::ReportFailure,
            HookStage::ReportReady => HookAction::ReportReady { thread_id: self.thread_id },
            HookStage::Wait => HookAction::NextMessage,
            HookStage::Probe { root, attempt } => HookAction::RunProbe {
                root,
                source: ProbeSource::Delayed,
                attempt,
            },
            HookStage::Dispatch => HookAction::Dispatch,
            HookStage::Unhook { index } => HookAction::Unhook { hook: self.hooks[index] },
            HookStage::Stopped => HookAction::Stop,
        }
    }

    /// Takes the result of what had to be done, and gives the thread with the
    /// line to log.
    pub fn advance(self, reply: HookReply) -> (r: (HookThread, Option<String>))
        ensures
            r.0@ == self@.advanced(reply),
            r.1 is Some == self@.line(reply) is Some,
            r.1 is Some ==> r.1->0@ == self@.line(reply)->0,
    {
        proof {
            use_type_invariant(&self);
        }
        let thread_id = self.thread_id;
        let stage = self.stage;
        let mut hooks = self.hooks;
        match (stage, reply) {
            (HookStage::Prepare, HookReply::Prepared) => {
                (HookThread { thread_id, hooks, stage: HookStage::Install { index: 0 } }, None)
            },
            (HookStage::Install { index }, HookReply::Installed(hook)) => {
                let events = HOOKED_EVENTS;
                let line = make_install_line(events[index], hook != 0);
                if hook != 0 {
                    hooks.push(hook);
                }
                let stage = if index + 1 < events.len() {
                    HookStage::Install { index: index + 1 }
                } else if hooks.len() == 0 {
                    HookStage::ReportFailure
                } else {
                    HookStage::ReportReady
                };
                (HookThread { thread_id, hooks, stage }, Some(line))
            },
            (HookStage::ReportFailure, HookReply::Reported) => {
                (HookThread { thread_id, hooks, stage: HookStage::Stopped }, None)
            },
            (HookStage::ReportReady, HookReply::Reported) => {
                let line = make_started_line(thread_id, hooks.len());
                (HookThread { thread_id, hooks, stage: HookStage::Wait }, Some(line))
            },
            (HookStage::Wait, HookReply::Message(message)) => {
                if message.result == -1 {
                    let line = "[SpikeTest] GetMessageW failed on hook thread".to_owned();
                    let stage = HookStage::Unhook { index: 0 };
                    (HookThread { thread_id, hooks, stage }, Some(line))
                } else if message.result == 0 {
                    (HookThread { thread_id, hooks, stage: HookStage::Unhook { index: 0 } }, None)
                } else {
                    let stage = match delayed_probe(
                        message.message,
                        message.wparam,
                        message.lparam,
                    ) {
                        Some(probe) => HookStage::Probe {
                            root: probe.root,
                            attempt: probe.attempt,
                        },
                        None => HookStage::Dispatch,
                    };
                    (HookThread { thread_id, hooks, stage }, None)
                }
            },
            (HookStage::Probe { .. }, HookReply::Probed { panicked }) => {
                let line = if panicked {
                    Some("[SpikeTest] panic in delayed probe handler".to_owned())
                } else {
                    None
                };
                (HookThread { thread_id, hooks, stage: HookStage::Wait }, line)
            },
            (HookStage::Dispatch, HookReply::Dispatched) => {
                (HookThread { thread_id, hooks, stage: HookStage::Wait }, None)
            },
            (HookStage::Unhook { index }, HookReply::Unhooked) => {
                if index + 1 < hooks.len() {
                    let stage = HookStage::Unhook { index: index + 1 };
                    (HookThread { thread_id, hooks, stage }, None)
                } else {
                    let line = "[SpikeTest] hook thread stopped and hooks uninstalled".to_owned();
                    (HookThread { thread_id, hooks, stage: HookStage::Stopped }, Some(line))
                }
            },
            _ => (HookThread { thread_id, hooks, stage }, None),
        }
    }
}

/// What the thread tells its starter when there is no hook.
pub fn startup_failure_message() -> (r: String)
    ensures
        r@ == "no WinEvent hooks were installed; hook thread exiting"@,
{
    "no WinEvent hooks were installed; hook thread exiting".to_owned()
}

/// What the thread tells its starter with an action: its id, or why it failed.
pub open spec fn told_of(action: HookAction) -> Option<Result<u32, Seq<char>>> {
    match action {
        HookAction::ReportReady { thread_id } => Some(Ok(thread_id)),
        HookAction::ReportFailure => Some(
            Err("no WinEvent hooks were installed; hook thread exiting"@),
        ),
        _ => None,
    }
}

/// A result with its message as a character sequence.
pub open spec fn result_view<T>(result: Result<T, String>) -> Result<T, Seq<char>> {
    match result {
        Ok(value) => Ok(value),
        Err(message) => Err(message@),
    }
}

/// What was told, with the message as a character sequence.
pub open spec fn told_view(told: Option<Result<u32, String>>) -> Option<Result<u32, Seq<char>>> {
    match told {
        Some(result) => Some(result_view(result)),
        None => None,
    }
}

/// What the thread tells its starter with an action.
pub fn told_by(action: HookAction) -> (r: Option<Result<u32, String>>)
    ensures
        told_view(r) == told_of(action),
{
    match action {
        HookAction::ReportReady { thread_id } => Some(Ok(thread_id)),
        HookAction::ReportFailure => Some(Err(startup_failure_message())),
        _ => None,
    }
}

/// A hook thread as its starter sees it.
pub struct HookThreadController {
    pub thread_id: u32,
    /// Whether the thread has not been waited for yet.
    pub join_pending: bool,
}

/// What is left to do when a thread was asked to quit.
pub struct StopStep {
    pub line: String,
    /// Whether to wait for the end of the thread.
    pub join: bool,
}

impl HookThreadController {
    /// The controller when its thread was asked to quit.
    pub open spec fn stopped(self) -> HookThreadController {
        HookThreadController { thread_id: self.thread_id, join_pending: false }
    }

    /// How the start of a thread ends that told this, or nothing at all: it runs
    /// under its id, or it failed, and then there is a line to log.
    pub open spec fn concluded(told: Option<Result<u32, Seq<char>>>) -> Result<
        HookThreadController,
        Seq<char>,
    > {
        match told {
            Some(Ok(thread_id)) => Ok(HookThreadController { thread_id, join_pending: true }),
            Some(Err(message)) => Err("[SpikeTest] "@ + message),
            None => Err("[SpikeTest] hook thread startup channel closed unexpectedly"@),
        }
    }

    /// Concludes the start of a thread from what it told, or from its having
    /// ended without a word. After a failure the line is logged before the
    /// thread is waited for.
    pub fn start(told: Option<Result<u32, String>>) -> (r: Result<HookThreadController, String>)
        ensures
            result_view(r) == HookThreadController::concluded(told_view(told)),
    {
        match told {
            Some(Ok(thread_id)) => Ok(HookThreadController { thread_id, join_pending: true }),
            Some(Err(message)) => {
                let mut line = "[SpikeTest] ".to_owned();
                line.append(message.as_str());
                Err(line)
            },
            None => Err("[SpikeTest] hook thread startup channel closed unexpectedly".to_owned()),
        }
    }

    /// Goes on after the thread was asked to quit: there is a line to log, and
    /// the thread is waited for unless it was before.
    pub fn stop(&mut self, posted: bool) -> (r: StopStep)
        ensures
            posted ==> r.line@ == "[SpikeTest] WM_QUIT posted to hook thread"@,
            !posted ==> r.line@ == "[SpikeTest] failed to post WM_QUIT to hook thread"@,
            r.join == old(self).join_pending,
            *final(self) == old(self).stopped(),
    {
        let line = if posted {
            "[SpikeTest] WM_QUIT posted to hook thread".to_owned()
        } else {
            "[SpikeTest] failed to post WM_QUIT to hook thread".to_owned()
        };
        let join = self.join_pending;
        self.join_pending = false;
        StopStep { line, join }
    }
}

/// A thread is waited for at most once: asking it to quit again changes nothing
/// and waits for nothing.
pub proof fn stop_waits_once(controller: HookThreadController)
    ensures
        !controller.stopped().join_pending,
        controller.stopped().stopped() == controller.stopped(),
{
}

/// The line to log when the thread has ended.
pub fn join_line(panicked: bool) -> (r: Option<String>)
    ensures
        !panicked ==> r is None,
        panicked ==> r is Some && r->0@ == "[SpikeTest] hook thread panicked during join"@,
{
    if panicked {
        Some("[SpikeTest] hook thread panicked during join".to_owned())
    } else {
        None
    }
}

impl HookStage {
    /// Orders the stages: a thread that takes a result without a message goes
    /// to a stage of lower rank, or removes one more hook.
    pub open spec fn rank(self) -> nat {
        match self {
            HookStage::Prepare => 9,
            HookStage::Install { index } => if index < 3 {
                (8 - index) as nat
            } else {
                5
            },
            HookStage::ReportFailure => 4,
            HookStage::ReportReady => 4,
            HookStage::Probe { .. } => 3,
            HookStage::Dispatch => 3,
            HookStage::Wait => 2,
            HookStage::Unhook { .. } => 1,
            HookStage::Stopped => 0,
        }
    }
}

/// What the outside says while the thread runs: which hook each event gets,
/// and whether a probe panics when so many messages are still to come.
pub struct HookSurroundings {
    pub hook: spec_fn(u32) -> usize,
    pub panicked: spec_fn(nat) -> bool,
}

impl HookSurroundings {
    /// What comes of an action other than waiting for a message.
    pub open spec fn reply(self, action: HookAction, to_come: nat) -> HookReply {
        match action {
            HookAction::PrepareQueue => HookReply::Prepared,
            HookAction::Install { event } => HookReply::Installed((self.hook)(event)),
            HookAction::RunProbe { .. } => HookReply::Probed { panicked: (self.panicked)(to_come) },
            HookAction::Dispatch => HookReply::Dispatched,
            HookAction::Unhook { .. } => HookReply::Unhooked,
            _ => HookReply::Reported,
        }
    }

    /// The hooks that could be installed for the first `n` events.
    pub open spec fn installed(self, n: int) -> Seq<usize>
        decreases n,
    {
        if n <= 0 {
            Seq::empty()
        } else {
            let hook = (self.hook)(HOOKED_EVENTS@[n - 1]);
            if hook == 0 {
                self.installed(n - 1)
            } else {
                self.installed(n - 1).push(hook)
            }
        }
    }
}

impl HookView {
    /// How many hooks a thread that removes them has still to remove.
    pub open spec fn hooks_left(self) -> nat {
        match self.stage {
            HookStage::Unhook { index } => if index < self.hooks.len() {
                (self.hooks.len() - index) as nat
            } else {
                0
            },
            _ => 0,
        }
    }

    /// All that the thread does from here on, in order, when those messages
    /// come; it then waits for the next one. This speaks of threads with at
    /// most one hook for each event, which is all there are.
    pub open spec fn actions(
        self,
        around: HookSurroundings,
        messages: Seq<ThreadMessage>,
    ) -> Seq<HookAction>
        decreases
            messages.len(),
            self.stage.rank(),
            self.hooks_left(),
        when self.hooks.len() <= HOOKED_EVENTS@.len()
    {
        match self.stage {
            HookStage::Stopped => seq![HookAction::Stop],
            HookStage::Wait => if messages.len() == 0 {
                seq![HookAction::NextMessage]
            } else {
                seq![HookAction::NextMessage] + self.advanced(
                    HookReply::Message(messages.first()),
                ).actions(around, messages.drop_first())
            },
            _ => seq![self.action()] + self.advanced(
                around.reply(self.action(), messages.len()),
            ).actions(around, messages),
        }
    }
}

/// What the loop of the thread does with its messages: it waits for each, and
/// probes or dispatches until one ends the loop.
pub open spec fn loop_actions(messages: Seq<ThreadMessage>) -> Seq<HookAction>
    decreases messages.len(),
{
    if messages.len() == 0 || messages.first().quits() {
        seq![HookAction::NextMessage]
    } else {
        seq![
            HookAction::NextMessage,
            match delayed_probe_of(
                messages.first().message,
                messages.first().wparam,
                messages.first().lparam,
            ) {
                Some(probe) => HookAction::RunProbe {
                    root: probe.root,
                    source: ProbeSource::Delayed,
                    attempt: probe.attempt,
                },
                None => HookAction::Dispatch,
            },
        ] + loop_actions(messages.drop_first())
    }
}

/// Tells whether one of the messages ends the loop.
pub open spec fn loop_ends(messages: Seq<ThreadMessage>) -> bool {
    exists|i: int| 0 <= i < messages.len() && (#[trigger] messages[i]).quits()
}

/// The removal of each of the hooks, in order, and the end of the thread.
pub open spec fn shutdown(hooks: Seq<usize>) -> Seq<HookAction> {
    hooks.map_values(|hook: usize| HookAction::Unhook { hook }).push(HookAction::Stop)
}

proof fn lemma_shutdown(
    view: HookView,
    around: HookSurroundings,
    messages: Seq<ThreadMessage>,
    index: usize,
)
    requires
        view.stage == (HookStage::Unhook { index }),
        index < view.hooks.len() <= HOOKED_EVENTS@.len(),
    ensures
        view.actions(around, messages) == shutdown(view.hooks.skip(index as int)),
    decreases view.hooks.len() - index,
{
    let next = view.advanced(HookReply::Unhooked);
    let rest = view.hooks.skip(index as int);
    assert(view.actions(around, messages) == seq![view.action()] + next.actions(around, messages));
    if index + 1 < view.hooks.len() {
        lemma_shutdown(next, around, messages, (index + 1) as usize);
        assert(shutdown(rest) =~= seq![view.action()] + shutdown(view.hooks.skip(index + 1)));
    } else {
        assert(next.actions(around, messages) == seq![HookAction::Stop]);
        assert(shutdown(rest) =~= seq![view.action()] + seq![HookAction::Stop]);
    }
}

proof fn lemma_loop(view: HookView, around: HookSurroundings, messages: Seq<ThreadMessage>)
    requires
        view.stage == HookStage::Wait,
        view.valid(),
    ensures
        view.actions(around, messages) == loop_actions(messages) + if loop_ends(messages) {
            shutdown(view.hooks)
        } else {
            Seq::empty()
        },
    decreases messages.len(),
{
    if messages.len() == 0 {
        assert(view.actions(around, messages) =~= loop_actions(messages) + Seq::empty());
    } else {
        let message = messages.first();
        let rest = messages.drop_first();
        let next = view.advanced(HookReply::Message(message));
        assert(view.actions(around, messages) == seq![HookAction::NextMessage] + next.actions(
            around,
            rest,
        ));
        if message.quits() {
            assert(messages[0].quits());
            lemma_shutdown(next, around, rest, 0);
            assert(view.hooks.skip(0) =~= view.hooks);
        } else {
            let back = next.advanced(around.reply(next.action(), rest.len()));
            assert(back == view);
            assert(next.actions(around, rest) == seq![next.action()] + view.actions(around, rest));
            lemma_loop(view, around, rest);
            assert(loop_ends(messages) == loop_ends(rest)) by {
                if loop_ends(messages) {
                    let i = choose|i: int|
                        0 <= i < messages.len() && (#[trigger] messages[i]).quits();
                    assert(rest[i - 1].quits());
                }
                if loop_ends(rest) {
                    let i = choose|i: int| 0 <= i < rest.len() && (#[trigger] rest[i]).quits();
                    assert(messages[i + 1].quits());
                }
            }
            assert(view.actions(around, messages) =~= seq![
                HookAction::NextMessage,
                next.action(),
            ] + view.actions(around, rest));
            assert(loop_actions(messages) =~= seq![HookAction::NextMessage, next.action()]
                + loop_actions(rest));
        }
    }
    assert(view.actions(around, messages) =~= loop_actions(messages) + if loop_ends(messages) {
        shutdown(view.hooks)
    } else {
        Seq::empty()
    });
}

/// A hook thread first makes sure of its message queue, and then tries to
/// install its hooks. Without any it reports its failure and ends. Otherwise it
/// reports that it is ready, once and before it looks at any message, works on
/// its messages, and when one of them ends its loop removes each hook that it
/// installed, once and in order, and ends.
pub proof fn hook_thread_runs(
    thread_id: u32,
    around: HookSurroundings,
    messages: Seq<ThreadMessage>,
)
    ensures
        ({
            let hooks = around.installed(HOOKED_EVENTS@.len() as int);
            let installs = HOOKED_EVENTS@.map_values(|event: u32| HookAction::Install { event });
            HookView::started(thread_id).actions(around, messages) == seq![HookAction::PrepareQueue]
                + installs + if hooks.len() == 0 {
                seq![HookAction::ReportFailure, HookAction::Stop]
            } else {
                seq![HookAction::ReportReady { thread_id }] + loop_actions(messages)
                    + if loop_ends(messages) {
                    shutdown(hooks)
                } else {
                    Seq::empty()
                }
            }
        }),
{
    let n = messages.len();
    let start = HookView::started(thread_id);
    let v0 = start.advanced(around.reply(start.action(), n));
    let v1 = v0.advanced(around.reply(v0.action(), n));
    let v2 = v1.advanced(around.reply(v1.action(), n));
    let v3 = v2.advanced(around.reply(v2.action(), n));
    let v4 = v3.advanced(around.reply(v3.action(), n));
    reveal_with_fuel(HookSurroundings::installed, 4);
    let hooks = around.installed(3);
    assert(v3.hooks =~= hooks);
    assert(start.actions(around, messages) == seq![start.action()] + v0.actions(around, messages));
    assert(v0.actions(around, messages) == seq![v0.action()] + v1.actions(around, messages));
    assert(v1.actions(around, messages) == seq![v1.action()] + v2.actions(around, messages));
    assert(v2.actions(around, messages) == seq![v2.action()] + v3.actions(around, messages));
    assert(v3.actions(around, messages) == seq![v3.action()] + v4.actions(around, messages));
    let installs = HOOKED_EVENTS@.map_values(|event: u32| HookAction::Install { event });
    assert(installs =~= seq![v0.action(), v1.action(), v2.action()]);
    let first = seq![HookAction::PrepareQueue] + installs;
    if hooks.len() == 0 {
        assert(v4.actions(around, messages) == seq![HookAction::Stop]);
        assert(start.actions(around, messages) =~= first + seq![
            HookAction::ReportFailure,
            HookAction::Stop,
        ]);
    } else {
        lemma_loop(v4, around, messages);
        assert(start.actions(around, messages) =~= first + (seq![
            HookAction::ReportReady { thread_id },
        ] + loop_actions(messages) + if loop_ends(messages) {
            shutdown(hooks)
        } else {
            Seq::empty()
        }));
    }
}

/// All that a thread tells its starter with its actions, in order.
pub open spec fn told_by_all(actions: Seq<HookAction>) -> Seq<Result<u32, Seq<char>>> {
    actions.filter_map(|action: HookAction| told_of(action))
}

proof fn lemma_told_apart(first: Seq<HookAction>, rest: Seq<HookAction>)
    ensures
        told_by_all(first + rest) == told_by_all(first) + told_by_all(rest),
    decreases rest.len(),
{
    if rest.len() == 0 {
        assert(first + rest =~= first);
    } else {
        lemma_told_apart(first, rest.drop_last());
        assert((first + rest).drop_last() =~= first + rest.drop_last());
        assert((first + rest).last() == rest.last());
    }
    assert(told_by_all(first + rest) =~= told_by_all(first) + told_by_all(rest));
}

proof fn lemma_nothing_told(actions: Seq<HookAction>)
    requires
        forall|i: int| 0 <= i < actions.len() ==> told_of(#[trigger] actions[i]) is None,
    ensures
        told_by_all(actions) == Seq::<Result<u32, Seq<char>>>::empty(),
    decreases actions.len(),
{
    if actions.len() > 0 {
        lemma_nothing_told(actions.drop_last());
    }
}

proof fn lemma_loop_tells_nothing(messages: Seq<ThreadMessage>)
    ensures
        forall|i: int|
            0 <= i < loop_actions(messages).len() ==> told_of(
                #[trigger] loop_actions(messages)[i],
            ) is None,
    decreases messages.len(),
{
    if messages.len() > 0 && !messages.first().quits() {
        lemma_loop_tells_nothing(messages.drop_first());
    }
}

/// A thread tells its starter one thing, whatever happens: its own id when any
/// hook was installed, and its failure otherwise. So a start succeeds exactly
/// when a hook was installed, and then under the id of the thread.
pub proof fn start_needs_a_hook(
    thread_id: u32,
    around: HookSurroundings,
    messages: Seq<ThreadMessage>,
)
    ensures
        ({
            let any = exists|i: int|
                0 <= i < HOOKED_EVENTS@.len() && (around.hook)(#[trigger] HOOKED_EVENTS@[i]) != 0;
            let told = told_by_all(HookView::started(thread_id).actions(around, messages));
            let end = HookThreadController::concluded(Some(told[0]));
            &&& told.len() == 1
            &&& any ==> told[0] == Ok::<u32, Seq<char>>(thread_id)
            &&& !any ==> told[0] == Err::<u32, Seq<char>>(
                "no WinEvent hooks were installed; hook thread exiting"@,
            )
            &&& any ==> end == Ok::<HookThreadController, Seq<char>>(
                (HookThreadController { thread_id, join_pending: true }),
            )
            &&& !any ==> end == Err::<HookThreadController, Seq<char>>(
                "[SpikeTest] "@ + "no WinEvent hooks were installed; hook thread exiting"@,
            )
        }),
{
    let hooks = around.installed(3);
    reveal_with_fuel(HookSurroundings::installed, 4);
    let any = exists|i: int|
        0 <= i < HOOKED_EVENTS@.len() && (around.hook)(#[trigger] HOOKED_EVENTS@[i]) != 0;
    assert(any == (hooks.len() > 0));
    hook_thread_runs(thread_id, around, messages);
    let actions = HookView::started(thread_id).actions(around, messages);
    let first = seq![HookAction::PrepareQueue] + HOOKED_EVENTS@.map_values(
        |event: u32| HookAction::Install { event },
    );
    let report = if hooks.len() == 0 {
        HookAction::ReportFailure
    } else {
        HookAction::ReportReady { thread_id }
    };
    let rest = if hooks.len() == 0 {
        seq![HookAction::Stop]
    } else {
        loop_actions(messages) + if loop_ends(messages) {
            shutdown(hooks)
        } else {
            Seq::empty()
        }
    };
    assert(actions =~= first + (seq![report] + rest));
    lemma_loop_tells_nothing(messages);
    lemma_nothing_told(first);
    lemma_nothing_told(rest);
    lemma_told_apart(first, seq![report] + rest);
    lemma_told_apart(seq![report], rest);
    Seq::lemma_filter_map_singleton(report, |action: HookAction| told_of(action));
    assert(told_by_all(actions) =~= seq![told_of(report)->0]);
}

/// A waiting thread leaves its loop exactly when waiting returned -1 or 0,
/// whatever the message. Otherwise it probes on the message that asks for a
/// probe, dispatches any other, and waits again.
pub proof fn waiting_threads_answer_messages(
    view: HookView,
    message: ThreadMessage,
    panicked: bool,
)
    requires
        view.action() == HookAction::NextMessage,
        view.hooks.len() > 0,
    ensures
        ({
            let next = view.advanced(HookReply::Message(message));
            let quits = message.result == -1 || message.result == 0;
            let asks = message.message == 0x8051;
            &&& next.hooks == view.hooks
            &&& next.thread_id == view.thread_id
            &&& quits ==> next.action() == HookAction::Unhook { hook: view.hooks[0] }
            &&& !quits && asks ==> {
                &&& next.action() matches HookAction::RunProbe { root, source, attempt } && root
                    == message.wparam && source == ProbeSource::Delayed && attempt
                    == message.lparam as int % 0x1_0000_0000
                &&& next.advanced(HookReply::Probed { panicked }) == view
            }
            &&& !quits && !asks ==> {
                &&& next.action() == HookAction::Dispatch
                &&& next.advanced(HookReply::Dispatched) == view
            }
            &&& message.result == -1 ==> view.line(HookReply::Message(message)) == Some(
                "[SpikeTest] GetMessageW failed on hook thread"@,
            )
            &&& message.result != -1 ==> view.line(HookReply::Message(message)) is None
            &&& !quits && asks && panicked ==> next.line(HookReply::Probed { panicked }) == Some(
                "[SpikeTest] panic in delayed probe handler"@,
            )
            &&& !panicked ==> next.line(HookReply::Probed { panicked }) is None
        }),
{
    probes_are_asked_for_by_one_message(message.message, message.wparam, message.lparam);
}

/// Every message of a schedule, when it is received, is followed by the probe
/// that it was posted for, and then by the wait for the next message.
pub proof fn scheduled_probes_are_run(view: HookView, root: usize, i: int, result: i32)
    requires
        view.action() == HookAction::NextMessage,
        0 <= i < retries_of(root).len(),
        result > 0,
    ensures
        ({
            let retry = retries_of(root)[i];
            let next = view.advanced(
                HookReply::Message(
                    ThreadMessage {
                        result,
                        message: retry.message,
                        wparam: retry.wparam,
                        lparam: retry.lparam,
                    },
                ),
            );
            let back = next.advanced(HookReply::Probed { panicked: false });
            &&& next.action() == HookAction::RunProbe {
                root,
                source: ProbeSource::Delayed,
                attempt: (i + 1) as u32,
            }
            &&& back.action() == HookAction::NextMessage
        }),
{
    retries_are_the_same_for_all_windows(root, root, i);
}

/// A thread that starts makes sure of its queue, tries to hook the creation, the
/// showing and the focus of windows, in this order, and tells of each attempt. It
/// keeps the hooks that it got, in order. With any it reports its own id and
/// waits for messages; with none it reports its failure and stops.
pub proof fn starting_threads_install_their_hooks(thread_id: u32, a: usize, b: usize, c: usize)
    ensures
        ({
            let new = HookView::started(thread_id);
            let ready = new.advanced(HookReply::Prepared);
            let first = ready.advanced(HookReply::Installed(a));
            let second = first.advanced(HookReply::Installed(b));
            let third = second.advanced(HookReply::Installed(c));
            let reported = third.advanced(HookReply::Reported);
            let installed = "[SpikeTest] SetWinEventHook installed event="@;
            let failed = "[SpikeTest] SetWinEventHook failed event="@;
            &&& new.action() == HookAction::PrepareQueue
            &&& ready.action() == HookAction::Install { event: 0x8000 }
            &&& first.action() == HookAction::Install { event: 0x8002 }
            &&& second.action() == HookAction::Install { event: 0x8005 }
            &&& third.hooks == seq![a, b, c].filter(|hook: usize| hook != 0)
            &&& reported.hooks == third.hooks
            &&& a != 0 || b != 0 || c != 0 ==> {
                &&& third.action() == HookAction::ReportReady { thread_id }
                &&& third.line(HookReply::Reported) == Some(
                    "[SpikeTest] hook thread started tid="@ + decimal(thread_id as int)
                        + " hooks="@ + decimal(third.hooks.len() as int),
                )
                &&& reported.action() == HookAction::NextMessage
            }
            &&& a == 0 && b == 0 && c == 0 ==> {
                &&& third.action() == HookAction::ReportFailure
                &&& third.line(HookReply::Reported) is None
                &&& reported.action() == HookAction::Stop
            }
            &&& new.line(HookReply::Prepared) is None
            &&& ready.line(HookReply::Installed(a)) == Some(
                (if a != 0 {
                    installed
                } else {
                    failed
                }) + event_name_of(0x8000),
            )
            &&& first.line(HookReply::Installed(b)) == Some(
                (if b != 0 {
                    installed
                } else {
                    failed
                }) + event_name_of(0x8002),
            )
            &&& second.line(HookReply::Installed(c)) == Some(
                (if c != 0 {
                    installed
                } else {
                    failed
                }) + event_name_of(0x8005),
            )
        }),
{
    reveal(Seq::filter);
    reveal_with_fuel(Seq::filter, 4);
    let hooks = seq![a, b, c];
    assert(hooks.drop_last() =~= seq![a, b]);
    assert(hooks.drop_last().drop_last() =~= seq![a]);
    assert(hooks.drop_last().drop_last().drop_last() =~= Seq::empty());
}

/// The thread when so many hooks more have been removed.
pub open spec fn unhooked(view: HookView, n: nat) -> HookView
    decreases n,
{
    if n == 0 {
        view
    } else {
        unhooked(view, (n - 1) as nat).advanced(HookReply::Unhooked)
    }
}

/// A thread that leaves its loop removes its hooks, each once and in order. When
/// the last one is removed it tells so and stops, and never does anything again.
pub proof fn leaving_threads_remove_their_hooks(view: HookView, message: ThreadMessage, n: nat)
    requires
        view.action() == HookAction::NextMessage,
        message.result == -1 || message.result == 0,
        n <= view.hooks.len(),
        0 < view.hooks.len() <= 3,
    ensures
        ({
            let leaving = unhooked(view.advanced(HookReply::Message(message)), n);
            let line = leaving.line(HookReply::Unhooked);
            &&& leaving.hooks == view.hooks
            &&& n < view.hooks.len() ==> leaving.action() == HookAction::Unhook {
                hook: view.hooks[n as int],
            }
            &&& n == view.hooks.len() ==> leaving.action() == HookAction::Stop
            &&& n == view.hooks.len() - 1 ==> line == Some(
                "[SpikeTest] hook thread stopped and hooks uninstalled"@,
            )
            &&& n != view.hooks.len() - 1 ==> line is None
        }),
    decreases n,
{
    if n > 0 {
        leaving_threads_remove_their_hooks(view, message, (n - 1) as nat);
        lemma_unhooking_stage(view, message, (n - 1) as nat);
    }
}

proof fn lemma_unhooking_stage(view: HookView, message: ThreadMessage, n: nat)
    requires
        view.stage == HookStage::Wait,
        message.result == -1 || message.result == 0,
        n < view.hooks.len() <= 3,
    ensures
        unhooked(view.advanced(HookReply::Message(message)), n) == (HookView {
            stage: HookStage::Unhook { index: n as usize },
            ..view
        }),
    decreases n,
{
    if n > 0 {
        lemma_unhooking_stage(view, message, (n - 1) as nat);
    }
}

/// A thread is not moved by a result of something else than what was to be done,
/// nor by any when it has stopped; it says nothing of such a result.
pub proof fn threads_ignore_other_results(view: HookView, reply: HookReply)
    requires
        match reply {
            HookReply::Prepared => !(view.action() is PrepareQueue),
            HookReply::Installed(_) => !(view.action() is Install),
            HookReply::Reported => !(view.action() is ReportReady) && !(
            view.action() is ReportFailure),
            HookReply::Message(_) => !(view.action() is NextMessage),
            HookReply::Probed { .. } => !(view.action() is RunProbe),
            HookReply::Dispatched => !(view.action() is Dispatch),
            HookReply::Unhooked => !(view.action() is Unhook),
        },
    ensures
        view.advanced(reply) == view,
        view.line(reply) is None,
{
}

/// What a starter concludes: a thread that told its id runs under it and is to be
/// waited for; a message of failure is told after a fixed word; silence has a
/// line of its own.
pub proof fn starters_conclude_from_what_was_told(thread_id: u32, message: Seq<char>)
    ensures
        HookThreadController::concluded(Some(Ok(thread_id))) == Ok::<
            HookThreadController,
            Seq<char>,
        >((HookThreadController { thread_id, join_pending: true })),
        HookThreadController::concluded(Some(Err(message))) == Err::<
            HookThreadController,
            Seq<char>,
        >("[SpikeTest] "@ + message),
        HookThreadController::concluded(None) == Err::<HookThreadController, Seq<char>>(
            "[SpikeTest] hook thread startup channel closed unexpectedly"@,
        ),
{
}

/// Results and messages show in their views.
pub proof fn told_views_are_faithful(result: Result<u32, String>)
    ensures
        result matches Ok(thread_id) ==> result_view(result) == Ok::<u32, Seq<char>>(thread_id),
        result matches Err(message) ==> result_view(result) == Err::<u32, Seq<char>>(message@),
        told_view(Some(result)) == Some(result_view(result)),
        told_view(None) is None,
{
}

/// A thread tells its starter something with its two reports and with nothing
/// else it does.
pub proof fn only_reports_tell(action: HookAction)
    ensures
        told_of(action) is Some <==> action is ReportReady || action is ReportFailure,
        action matches HookAction::ReportReady { thread_id } ==> told_of(action) == Some(
            Ok::<u32, Seq<char>>(thread_id),
        ),
        action is ReportFailure ==> told_of(action) == Some(
            Err::<u32, Seq<char>>("no WinEvent hooks were installed; hook thread exiting"@),
        ),
{
}

/// Asking a thread to quit keeps its id and leaves nothing to wait for.
pub proof fn stopping_keeps_the_thread(controller: HookThreadController)
    ensures
        controller.stopped().thread_id == controller.thread_id,
        !controller.stopped().join_pending,
{
}

} // verus!
