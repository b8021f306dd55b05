//! The demo listeners: what they do with the lines of their clients.

use vstd::prelude::*;
use vstd::string::*;

use crate::dispatcher::{self, CommandSink, Dispatcher, DispatcherState};
use crate::forward;
use crate::json;
use crate::pipe::{self, parse_pipe_line};
use crate::scheduler::CommandView;
use crate::session;
use crate::sink;
use crate::text;
use crate::windows_pipe::{
    self, parse_control_instruction, ControlFault, ControlParseError, ControlParseResult,
    ControlView, EventView, PipeEvent,
};

verus! {

/// The path of a named pipe.
pub open spec fn path_of(name: Seq<char>) -> Seq<char> {
    "\\\\.\\\\pipe\\\\"@ + name
}

/// The path of a named pipe.
pub fn pipe_path(name: &str) -> (path: String)
    ensures
        path@ == path_of(name@),
{
    "\\\\.\\\\pipe\\\\".to_owned().concat(name)
}

/// What a demo tells its user.
#[derive(Debug)]
pub enum Notice {
    /// Nothing.
    Quiet,
    /// A line on the output.
    Say(String),
    /// A line on the error output.
    Complain(String),
}

/// What a demo tells its user, as plain values.
pub enum NoticeView {
    /// Nothing.
    Quiet,
    /// A line on the output.
    Say(Seq<char>),
    /// A line on the error output.
    Complain(Seq<char>),
}

impl View for Notice {
    type V = NoticeView;

    open spec fn view(&self) -> NoticeView {
        match self {
            Notice::Quiet => NoticeView::Quiet,
            Notice::Say(line) => NoticeView::Say(line@),
            Notice::Complain(line) => NoticeView::Complain(line@),
        }
    }
}

// ---------------------------------------------------------------------------
// Scheduler lines
// ---------------------------------------------------------------------------

/// Whether a scheduler line makes a dispatcher tick.
pub open spec fn line_ticks(ticking: bool, line: Seq<char>) -> bool {
    ticking && pipe::pipe_line(line) is Ok
}

/// A dispatcher after a scheduler line: the command queued and, while ticking is on,
/// one tick.
pub open spec fn line_scheduled(
    state: DispatcherState,
    ticking: bool,
    line: Seq<char>,
) -> DispatcherState {
    match pipe::pipe_line(line) {
        Ok(command) => if ticking {
            state.enqueued(command).ticked()
        } else {
            state.enqueued(command)
        },
        Err(_) => state,
    }
}

/// What is told of a scheduler line.
pub open spec fn schedule_notice(
    ticking: bool,
    line: Seq<char>,
    queued: Seq<char>,
) -> NoticeView {
    match pipe::pipe_line(line) {
        Ok(_) => if ticking {
            NoticeView::Quiet
        } else {
            NoticeView::Say(queued + line)
        },
        Err(fault) => NoticeView::Complain(
            forward::complaint("pipe line"@, line, pipe::fault_message(fault)),
        ),
    }
}

/// Queues the command of a scheduler line and ticks once while ticking is on.
fn schedule_line<Sink: CommandSink>(
    dispatcher: &mut Dispatcher<Sink>,
    ticking: bool,
    line: &str,
    queued: &str,
) -> (notice: Notice)
    requires
        line_ticks(ticking, line@) ==> old(dispatcher)@.can_step(old(dispatcher)@.rate),
    ensures
        final(dispatcher)@ == line_scheduled(old(dispatcher)@, ticking, line@),
        old(dispatcher)@.valid() ==> final(dispatcher)@.valid(),
        notice@ == schedule_notice(ticking, line@, queued@),
{
    match dispatcher.enqueue_from_pipe(line) {
        Ok(()) => if ticking {
            dispatcher.tick();
            Notice::Quiet
        } else {
            Notice::Say(queued.to_owned().concat(line))
        },
        Err(error) => {
            let reason = error.to_string();
            Notice::Complain(forward::complaint_text("pipe line", line, reason.as_str()))
        },
    }
}

// ---------------------------------------------------------------------------
// The demo
// ---------------------------------------------------------------------------

/// What a line asks of the demo.
#[derive(Debug)]
pub enum DemoRequest {
    /// Nothing: the line is blank.
    Ignore,
    /// Another pipe, without a name.
    UnnamedPipe,
    /// Another pipe.
    SwitchPipe(String),
    /// A control event.
    Control(PipeEvent),
    /// Something that is refused with a complaint.
    Refused(String),
    /// What the line says as a scheduler line.
    Schedule(String),
}

/// What a line asks of the demo, as plain values.
pub enum DemoView {
    /// Nothing.
    Ignore,
    /// Another pipe, without a name.
    UnnamedPipe,
    /// Another pipe.
    SwitchPipe(Seq<char>),
    /// A control event.
    Control(EventView),
    /// Something that is refused with a complaint.
    Refused(Seq<char>),
    /// A scheduler line.
    Schedule(Seq<char>),
}

impl View for DemoRequest {
    type V = DemoView;

    open spec fn view(&self) -> DemoView {
        match self {
            DemoRequest::Ignore => DemoView::Ignore,
            DemoRequest::UnnamedPipe => DemoView::UnnamedPipe,
            DemoRequest::SwitchPipe(name) => DemoView::SwitchPipe(name@),
            DemoRequest::Control(event) => DemoView::Control(event@),
            DemoRequest::Refused(complaint) => DemoView::Refused(complaint@),
            DemoRequest::Schedule(line) => DemoView::Schedule(line@),
        }
    }
}

/// The text behind `pipe:`, whatever the case of its letters, in small letters and
/// without the whitespace around it.
pub open spec fn pipe_switch(line: Seq<char>) -> Option<Seq<char>> {
    let lowered = text::ascii_lower(line);
    if text::before(lowered, ':') == "pipe"@ {
        match text::after(lowered, ':') {
            Some(name) => Some(text::trim(name)),
            None => None,
        }
    } else {
        None
    }
}

/// What a bare line that says `outcome` as a control instruction asks of the demo.
pub open spec fn demo_control(
    line: Seq<char>,
    outcome: Result<ControlView, ControlFault>,
) -> DemoView {
    match outcome {
        Ok(ControlView::Event(Some(event))) => controlled(line, event),
        Ok(ControlView::Event(None)) => DemoView::Schedule(line),
        Ok(ControlView::JsonRpc { event, .. }) => controlled(line, event),
        Err(ControlFault::JsonRpc { message, .. }) => DemoView::Refused(
            forward::complaint("control instruction"@, line, message),
        ),
        Err(ControlFault::Other(message)) => DemoView::Refused(
            forward::complaint("control instruction"@, line, message),
        ),
    }
}

/// What a control event asks of the demo: a scheduled command is left to the
/// scheduler line that it came from.
pub open spec fn controlled(line: Seq<char>, event: EventView) -> DemoView {
    if event is Scheduled {
        DemoView::Schedule(line)
    } else {
        DemoView::Control(event)
    }
}

/// What a bare line asks of the demo, given what it says as a control instruction.
pub open spec fn demo_request(
    line: Seq<char>,
    outcome: Result<ControlView, ControlFault>,
) -> DemoView {
    if line.len() == 0 {
        DemoView::Ignore
    } else {
        match pipe_switch(line) {
            Some(name) => if name.len() == 0 {
                DemoView::UnnamedPipe
            } else {
                DemoView::SwitchPipe(name)
            },
            None => demo_control(line, outcome),
        }
    }
}

/// The name of the pipe that a line switches to.
fn read_pipe_switch(line: &str) -> (out: Option<String>)
    ensures
        match out {
            Some(name) => pipe_switch(line@) == Some(name@),
            None => pipe_switch(line@) is None,
        },
{
    let lowered = text::ascii_lowered(line);
    let (front, back) = text::cut(lowered.as_str(), ':');
    if text::same_text(front, "pipe") {
        match back {
            Some(name) => Some(text::trimmed(name).to_owned()),
            None => None,
        }
    } else {
        None
    }
}

/// What a control event asks of the demo.
fn take_control(line: &str, event: PipeEvent) -> (request: DemoRequest)
    ensures
        request@ == controlled(line@, event@),
{
    if let PipeEvent::Scheduled(_) = &event {
        DemoRequest::Schedule(line.to_owned())
    } else {
        DemoRequest::Control(event)
    }
}

/// Refuses a control instruction.
fn refuse(line: &str, message: &str) -> (request: DemoRequest)
    ensures
        request@ == DemoView::Refused(
            forward::complaint("control instruction"@, line@, message@),
        ),
{
    DemoRequest::Refused(forward::complaint_text("control instruction", line, message))
}

/// What a bare line that was read as a control instruction asks of the demo.
pub fn interpret_demo_control(
    line: &str,
    outcome: Result<ControlParseResult, ControlParseError>,
) -> (request: DemoRequest)
    ensures
        request@ == demo_control(line@, windows_pipe::outcome(outcome)),
{
    match outcome {
        Ok(ControlParseResult::Event(Some(event))) => take_control(line, event),
        Ok(ControlParseResult::Event(None)) => DemoRequest::Schedule(line.to_owned()),
        Ok(ControlParseResult::JsonRpc { id: _, event }) => take_control(line, event),
        Err(ControlParseError::JsonRpc(detail, _)) => refuse(line, detail.message.as_str()),
        Err(ControlParseError::Other(message)) => refuse(line, message.as_str()),
    }
}

/// Reads what a line asks of the demo.
pub fn read_demo_request(line: &str) -> (request: DemoRequest)
    ensures
        request@ == demo_request(
            text::trim(line@),
            windows_pipe::control(text::trim(line@), json::json_form(text::trim(line@))),
        ),
        !json::may_open_structure(text::trim(line@)) ==> request@ == demo_request(
            text::trim(line@),
            windows_pipe::shorthand(text::trim(line@)),
        ),
{
    let bare = text::trimmed(line);
    if bare.is_empty() {
        return DemoRequest::Ignore;
    }
    match read_pipe_switch(bare) {
        Some(name) => if name.as_str().is_empty() {
            DemoRequest::UnnamedPipe
        } else {
            DemoRequest::SwitchPipe(name)
        },
        None => interpret_demo_control(bare, parse_control_instruction(bare)),
    }
}

/// Whether the demo can carry out a request.
pub open spec fn demo_fits(state: DispatcherState, ticking: bool, request: DemoView) -> bool {
    match request {
        DemoView::Control(event) => session::event_fits(state, event),
        DemoView::Schedule(line) => line_ticks(ticking, line) ==> state.can_step(state.rate),
        _ => true,
    }
}

/// The demo's dispatcher after a request.
pub open spec fn demo_applied(
    state: DispatcherState,
    ticking: bool,
    request: DemoView,
) -> DispatcherState {
    match request {
        DemoView::Control(event) => session::event_applied(state, event),
        DemoView::Schedule(line) => line_scheduled(state, ticking, line),
        _ => state,
    }
}

/// Whether the demo ticks after a request.
pub open spec fn demo_ticking(ticking: bool, request: DemoView) -> bool {
    match request {
        DemoView::Control(event) => match session::event_ticking(event) {
            Some(switched) => switched,
            None => ticking,
        },
        _ => ticking,
    }
}

/// What the demo tells of an event once it left the dispatcher in `state`.
pub open spec fn demo_message(state: DispatcherState, event: EventView) -> Seq<char> {
    match event {
        EventView::Start => "ticking resumed; enqueueing will trigger ticks"@,
        EventView::Stop => "ticking paused; commands will queue until 'start'"@,
        EventView::Pause => "ticking paused; commands will queue until 'start'"@,
        EventView::Disconnected => "ticking paused; commands will queue until 'start'"@,
        EventView::Tick => "executed single tick"@,
        EventView::Step(delta) => "advanced clock by "@ + text::decimal(delta as nat),
        EventView::Advance(target) => "advanced clock to "@ + text::decimal(target as nat),
        EventView::RunTicks(ticks) => "ran "@ + text::decimal(ticks as nat) + " tick(s)"@,
        EventView::SetRate(rate) => "tick rate updated to "@ + text::decimal(rate as nat),
        EventView::Now => sink::time_logged(state.now),
        EventView::AddFileNote { file, note } => "received file note for "@ + file + ": "@ + note,
        EventView::Scheduled(_) => Seq::empty(),
    }
}

/// What the demo tells of a request once it left the dispatcher in `state`.
pub open spec fn demo_notice(
    state: DispatcherState,
    ticking: bool,
    request: DemoView,
) -> NoticeView {
    match request {
        DemoView::Ignore => NoticeView::Quiet,
        DemoView::UnnamedPipe => NoticeView::Complain(
            "pipe control requires a name after 'pipe:'"@,
        ),
        DemoView::SwitchPipe(name) => NoticeView::Say("switching to new pipe name: "@ + name),
        DemoView::Control(event) => NoticeView::Say(demo_message(state, event)),
        DemoView::Refused(complaint) => NoticeView::Complain(complaint),
        DemoView::Schedule(line) => schedule_notice(
            ticking,
            line,
            "queued without ticking: "@,
        ),
    }
}

/// What a request came to in the demo.
#[derive(Debug)]
pub struct DemoReport {
    /// Whether lines that queue a command make the demo tick from now on.
    pub ticking: bool,
    /// What the user is told.
    pub notice: Notice,
}

/// Whether the demo can carry out a request.
pub fn demo_allowed<Sink: CommandSink>(
    dispatcher: &Dispatcher<Sink>,
    ticking: bool,
    request: &DemoRequest,
) -> (out: bool)
    ensures
        out == demo_fits(dispatcher@, ticking, request@),
{
    match request {
        DemoRequest::Control(event) => session::fits(dispatcher, event),
        DemoRequest::Schedule(line) => !ticking || parse_pipe_line(line.as_str()).is_err()
            || dispatcher.can_step(dispatcher.tick_rate()),
        _ => true,
    }
}

/// What the demo tells of an event, at a time that the event does not change.
fn demo_text(event: &PipeEvent, now: u64) -> (message: String)
    ensures
        forall|state: DispatcherState|
            (event is Now ==> state.now == now) ==> message@ == #[trigger] demo_message(
                state,
                event@,
            ),
{
    match event {
        PipeEvent::Start => "ticking resumed; enqueueing will trigger ticks".to_owned(),
        PipeEvent::Stop | PipeEvent::Pause | PipeEvent::Disconnected =>
            "ticking paused; commands will queue until 'start'".to_owned(),
        PipeEvent::Tick => "executed single tick".to_owned(),
        PipeEvent::Step(delta) => "advanced clock by ".to_owned().concat(
            text::decimal_text(*delta).as_str(),
        ),
        PipeEvent::Advance(target) => "advanced clock to ".to_owned().concat(
            text::decimal_text(*target).as_str(),
        ),
        PipeEvent::RunTicks(ticks) => "ran ".to_owned().concat(
            text::decimal_text(*ticks).as_str(),
        ).concat(" tick(s)"),
        PipeEvent::SetRate(rate) => "tick rate updated to ".to_owned().concat(
            text::decimal_text(*rate).as_str(),
        ),
        PipeEvent::Now => sink::log_time(now),
        PipeEvent::AddFileNote { file, note } => "received file note for ".to_owned().concat(
            file.as_str(),
        ).concat(": ").concat(note.as_str()),
        PipeEvent::Scheduled(_) => String::new(),
    }
}

/// Carries out what a line asks of the demo.
pub fn apply_demo_request<Sink: CommandSink>(
    dispatcher: &mut Dispatcher<Sink>,
    ticking: bool,
    request: DemoRequest,
) -> (report: DemoReport)
    requires
        demo_fits(old(dispatcher)@, ticking, request@),
    ensures
        final(dispatcher)@ == demo_applied(old(dispatcher)@, ticking, request@),
        old(dispatcher)@.valid() ==> final(dispatcher)@.valid(),
        report.ticking == demo_ticking(ticking, request@),
        report.notice@ == demo_notice(final(dispatcher)@, ticking, request@),
{
    match request {
        DemoRequest::Ignore => DemoReport { ticking, notice: Notice::Quiet },
        DemoRequest::UnnamedPipe => DemoReport {
            ticking,
            notice: Notice::Complain("pipe control requires a name after 'pipe:'".to_owned()),
        },
        DemoRequest::SwitchPipe(name) => DemoReport {
            ticking,
            notice: Notice::Say(
                "switching to new pipe name: ".to_owned().concat(name.as_str()),
            ),
        },
        DemoRequest::Control(event) => {
            let message = demo_text(&event, dispatcher.now());
            let done = session::apply_event(dispatcher, event);
            let ticking = match done.ticking {
                Some(switched) => switched,
                None => ticking,
            };
            DemoReport { ticking, notice: Notice::Say(message) }
        },
        DemoRequest::Refused(complaint) => DemoReport {
            ticking,
            notice: Notice::Complain(complaint),
        },
        DemoRequest::Schedule(line) => {
            let notice = schedule_line(
                dispatcher,
                ticking,
                line.as_str(),
                "queued without ticking: ",
            );
            DemoReport { ticking, notice }
        },
    }
}

// ---------------------------------------------------------------------------
// Waiting for the start
// ---------------------------------------------------------------------------

/// Whether a bare line is the start signal.
pub open spec fn is_start(line: Seq<char>) -> bool {
    text::ascii_lower(line) == "start"@
}

/// Whether a line makes the waiting demo tick.
pub open spec fn waiting_ticks(started: bool, line: Seq<char>) -> bool {
    let bare = text::trim(line);
    bare.len() > 0 && if is_start(bare) {
        !started
    } else {
        line_ticks(started, bare)
    }
}

/// The waiting demo's dispatcher after a line: the first start signal ticks once, and
/// what comes later ticks after every command. Before, commands are only queued.
pub open spec fn waiting_applied(
    state: DispatcherState,
    started: bool,
    line: Seq<char>,
) -> DispatcherState {
    let bare = text::trim(line);
    if bare.len() == 0 {
        state
    } else if is_start(bare) {
        if started {
            state
        } else {
            state.ticked()
        }
    } else {
        line_scheduled(state, started, bare)
    }
}

/// Whether the waiting demo is started after a line.
pub open spec fn waiting_started(started: bool, line: Seq<char>) -> bool {
    started || is_start(text::trim(line))
}

/// Whether a line is the start signal that the waiting demo waits for.
pub open spec fn is_first_start(started: bool, line: Seq<char>) -> bool {
    !started && is_start(text::trim(line))
}

/// What the waiting demo tells of a line before it does anything about it.
pub open spec fn waiting_announcement(started: bool, line: Seq<char>) -> NoticeView {
    if is_first_start(started, line) {
        NoticeView::Say("starting dispatcher ticks"@)
    } else {
        NoticeView::Quiet
    }
}

/// What the waiting demo tells of a line once it is done with it.
pub open spec fn waiting_notice(started: bool, line: Seq<char>) -> NoticeView {
    let bare = text::trim(line);
    if bare.len() == 0 {
        NoticeView::Quiet
    } else if is_start(bare) {
        if started {
            NoticeView::Say("start signal received again; already ticking after enqueues"@)
        } else {
            NoticeView::Quiet
        }
    } else {
        schedule_notice(started, bare, "queued command without ticking: "@)
    }
}

/// What a line came to in the waiting demo.
#[derive(Debug)]
pub struct WaitReport {
    /// Whether the start signal has come.
    pub started: bool,
    /// What the user is told.
    pub notice: Notice,
}

/// Whether a bare line is the start signal.
fn read_start(line: &str) -> (out: bool)
    ensures
        out == is_start(line@),
{
    text::same_text(text::ascii_lowered(line).as_str(), "start")
}

/// Whether the waiting demo can take a line: where the line makes it tick, time stays
/// within the range of timestamps.
pub fn waiting_allowed<Sink: CommandSink>(
    dispatcher: &Dispatcher<Sink>,
    started: bool,
    line: &str,
) -> (out: bool)
    ensures
        out == (waiting_ticks(started, line@) ==> dispatcher@.can_step(dispatcher@.rate)),
{
    let bare = text::trimmed(line);
    let ticks = !bare.is_empty() && if read_start(bare) {
        !started
    } else {
        started && parse_pipe_line(bare).is_ok()
    };
    !ticks || dispatcher.can_step(dispatcher.tick_rate())
}

/// What is told of a line of the waiting demo's client before the line is taken: the
/// start signal is announced before it ticks.
pub fn announce_waiting_line(started: bool, line: &str) -> (notice: Notice)
    ensures
        notice@ == waiting_announcement(started, line@),
{
    if !started && read_start(text::trimmed(line)) {
        Notice::Say("starting dispatcher ticks".to_owned())
    } else {
        Notice::Quiet
    }
}

/// Takes a line of the waiting demo's client, once it is announced.
pub fn take_waiting_line<Sink: CommandSink>(
    dispatcher: &mut Dispatcher<Sink>,
    started: bool,
    line: &str,
) -> (report: WaitReport)
    requires
        waiting_ticks(started, line@) ==> old(dispatcher)@.can_step(old(dispatcher)@.rate),
    ensures
        final(dispatcher)@ == waiting_applied(old(dispatcher)@, started, line@),
        old(dispatcher)@.valid() ==> final(dispatcher)@.valid(),
        report.started == waiting_started(started, line@),
        report.notice@ == waiting_notice(started, line@),
{
    let bare = text::trimmed(line);
    if bare.is_empty() {
        proof {
            reveal_strlit("start");
            assert(text::ascii_lower(bare@).len() == 0);
        }
        return WaitReport { started, notice: Notice::Quiet };
    }
    if read_start(bare) {
        if started {
            let message = "start signal received again; already ticking after enqueues";
            WaitReport { started, notice: Notice::Say(message.to_owned()) }
        } else {
            dispatcher.tick();
            WaitReport { started: true, notice: Notice::Quiet }
        }
    } else {
        let notice = schedule_line(
            dispatcher,
            started,
            bare,
            "queued command without ticking: ",
        );
        WaitReport { started, notice }
    }
}

// ---------------------------------------------------------------------------
// Laws
// ---------------------------------------------------------------------------


/// Before the start signal the waiting demo runs nothing: time stands still, and
/// what parses is queued.
pub proof fn nothing_runs_before_start(state: DispatcherState, line: Seq<char>)
    requires
        !waiting_started(false, line),
    ensures
        !waiting_ticks(false, line),
        waiting_applied(state, false, line).now == state.now,
        waiting_applied(state, false, line).calls == state.calls,
        text::trim(line).len() > 0 ==> match pipe::pipe_line(text::trim(line)) {
            Ok(command) => waiting_applied(state, false, line) == state.enqueued(command),
            Err(_) => waiting_applied(state, false, line) == state,
        },
{
}

/// The start signal is announced exactly when it changes whether the demo is started,
/// and it makes the demo tick once.
pub proof fn start_is_announced(state: DispatcherState, started: bool, line: Seq<char>)
    ensures
        waiting_announcement(started, line) is Say <==> started != waiting_started(started, line),
        waiting_announcement(started, line) is Say ==> waiting_applied(state, started, line)
            == state.ticked(),
{
    reveal_strlit("start");
    if text::trim(line).len() == 0 {
        assert(text::ascii_lower(text::trim(line)).len() == 0);
    }
}

/// Once the start signal has come it stays.
pub proof fn start_stays(line: Seq<char>)
    ensures
        waiting_started(true, line),
{
}

/// While ticking is paused a scheduler line runs nothing in the demo. While it is on,
/// every scheduler line that parses advances time by the tick rate.
pub proof fn scheduling_ticks_while_on(state: DispatcherState, line: Seq<char>)
    requires
        state.can_step(state.rate),
    ensures
        ({
            let paused = demo_applied(state, false, DemoView::Schedule(line));
            paused.now == state.now && paused.calls == state.calls
        }),
        pipe::pipe_line(line) is Ok ==> demo_applied(state, true, DemoView::Schedule(line)).now
            == state.now + state.rate,
{
}

/// Pipes stand below the path of named pipes.
pub proof fn paths_of_pipes(name: Seq<char>)
    ensures
        path_of(name) == seq!['\\', '\\', '.', '\\', '\\', 'p', 'i', 'p', 'e', '\\', '\\'] + name,
{
    reveal_strlit("\\\\.\\\\pipe\\\\");
    assert("\\\\.\\\\pipe\\\\"@ =~= seq![
        '\\',
        '\\',
        '.',
        '\\',
        '\\',
        'p',
        'i',
        'p',
        'e',
        '\\',
        '\\',
    ]);
}

/// A line switches pipes exactly when it has `pipe`, in whatever letters, in front of its
/// first colon. What stands behind is the name, in small letters and without the
/// whitespace around it.
pub proof fn lines_that_switch_pipes(
    typed: Seq<char>,
    front: Seq<char>,
    name: Seq<char>,
    back: Seq<char>,
)
    requires
        !typed.contains(':'),
        text::all_white(front),
        text::is_bare(name),
        text::all_white(back),
    ensures
        text::ascii_lower(typed) == "pipe"@ ==> pipe_switch(
            typed + seq![':'] + (front + name + back),
        ) == Some(text::ascii_lower(name)),
        text::ascii_lower(typed) != "pipe"@ ==> pipe_switch(
            typed + seq![':'] + (front + name + back),
        ) is None,
        pipe_switch(typed) is None,
{
    let rest = front + name + back;
    let (low, lowered) = (text::ascii_lower(typed), text::ascii_lower(rest));
    assert forall|i: int| 0 <= i < low.len() implies low[i] != ':' by {
        assert(typed[i] != ':');
        lemma_letters(typed[i]);
    }
    assert(text::ascii_lower(typed + seq![':'] + rest) =~= low + seq![':'] + lowered);
    text::cut_between(low, ':', lowered);
    text::cut_nowhere(low, ':');
    assert(lowered =~= text::ascii_lower(front) + text::ascii_lower(name) + text::ascii_lower(
        back,
    ));
    lemma_white_stays(front);
    lemma_white_stays(back);
    if name.len() > 0 {
        lemma_letters(name[0]);
        lemma_letters(name[name.len() - 1]);
    }
    text::trim_finds_the_bare_text(
        text::ascii_lower(front),
        text::ascii_lower(name),
        text::ascii_lower(back),
    );
}

proof fn lemma_letters(c: char)
    ensures
        text::is_white(text::ascii_lower_char(c)) == text::is_white(c),
        (text::ascii_lower_char(c) == ':') == (c == ':'),
{
}

proof fn lemma_white_stays(s: Seq<char>)
    requires
        text::all_white(s),
    ensures
        text::all_white(text::ascii_lower(s)),
{
    assert forall|i: int| 0 <= i < s.len() implies text::is_white(
        #[trigger] text::ascii_lower(s)[i],
    ) by {
        assert(text::is_white(s[i]));
        lemma_letters(s[i]);
    }
}

/// What a bare line asks of the demo: nothing where it is empty, another pipe where it
/// names one, and otherwise what it says as a control instruction, whether it came as a
/// request or not. What is no control instruction is a scheduler line.
pub proof fn what_lines_ask_of_the_demo(
    line: Seq<char>,
    outcome: Result<ControlView, ControlFault>,
    event: EventView,
    id: Option<Seq<char>>,
    code: i64,
    message: Seq<char>,
    data: Option<Seq<char>>,
)
    requires
        line.len() > 0,
    ensures
        demo_request(Seq::empty(), outcome) == DemoView::Ignore,
        pipe_switch(line) matches Some(name) ==> demo_request(line, outcome) == if name.len() == 0 {
            DemoView::UnnamedPipe
        } else {
            DemoView::SwitchPipe(name)
        },
        pipe_switch(line) is None ==> {
            &&& demo_request(line, Ok(ControlView::Event(None))) == DemoView::Schedule(line)
            &&& !(event is Scheduled) ==> demo_request(line, Ok(ControlView::Event(Some(event))))
                == DemoView::Control(event)
            &&& !(event is Scheduled) ==> demo_request(line, Ok(ControlView::JsonRpc { id, event }))
                == DemoView::Control(event)
            &&& event is Scheduled ==> demo_request(line, Ok(ControlView::Event(Some(event))))
                == DemoView::Schedule(line)
            &&& demo_request(line, Err(ControlFault::Other(message))) == DemoView::Refused(
                "failed to parse control instruction '"@ + line + "': "@ + message,
            )
            &&& demo_request(line, Err(ControlFault::JsonRpc { code, message, data, id }))
                == DemoView::Refused(
                "failed to parse control instruction '"@ + line + "': "@ + message,
            )
        },
{
    reveal_strlit("failed to parse ");
    reveal_strlit("control instruction");
    reveal_strlit(" '");
    reveal_strlit("failed to parse control instruction '");
    assert("failed to parse "@ + "control instruction"@ + " '"@
        =~= "failed to parse control instruction '"@);
}

/// A scheduler line adds the command that it holds as it is, and while ticking is on one
/// tick follows. A line that does not parse changes nothing.
pub proof fn scheduler_lines_add_their_command(
    state: DispatcherState,
    line: Seq<char>,
    command: CommandView,
)
    ensures
        pipe::pipe_line(line) == Ok::<CommandView, pipe::LineFault>(command) ==> {
            let paused = demo_applied(state, false, DemoView::Schedule(line));
            let ticked = demo_applied(state, true, DemoView::Schedule(line));
            &&& paused.pending.to_multiset() == state.pending.to_multiset().insert(command)
            &&& paused.now == state.now && paused.rate == state.rate && paused.calls == state.calls
            &&& dispatcher::all_commands(ticked) == dispatcher::all_commands(state).insert(command)
            &&& state.can_step(state.rate) ==> dispatcher::settled(
                state,
                ticked,
                state.now + state.rate,
            )
        },
        pipe::pipe_line(line) is Err ==> demo_applied(state, true, DemoView::Schedule(line))
            == state && demo_applied(state, false, DemoView::Schedule(line)) == state,
{
    let queued = state.enqueued(command);
    dispatcher::enqueueing_only_queues(state, command);
    dispatcher::commands_are_conserved(state, command, 0, 0, 0, 0);
    dispatcher::commands_are_conserved(queued, command, 0, 0, 0, 0);
    dispatcher::due_commands_run_at_once(queued, 0, 0);
}

/// A control event does to the demo's dispatcher what it does to any, and nothing else a
/// line can ask for changes it.
pub proof fn requests_that_change_nothing(
    state: DispatcherState,
    ticking: bool,
    event: EventView,
    text: Seq<char>,
)
    ensures
        demo_applied(state, ticking, DemoView::Control(event)) == session::event_applied(
            state,
            event,
        ),
        demo_applied(state, ticking, DemoView::Ignore) == state,
        demo_applied(state, ticking, DemoView::UnnamedPipe) == state,
        demo_applied(state, ticking, DemoView::SwitchPipe(text)) == state,
        demo_applied(state, ticking, DemoView::Refused(text)) == state,
{
}

/// Only the control events that turn ticking turn it in the demo: `Start` on, and `Stop`,
/// `Pause` and `Disconnected` off.
pub proof fn what_turns_the_demo(ticking: bool, request: DemoView)
    ensures
        demo_ticking(ticking, DemoView::Control(EventView::Start)),
        !demo_ticking(ticking, DemoView::Control(EventView::Stop)),
        !demo_ticking(ticking, DemoView::Control(EventView::Pause)),
        !demo_ticking(ticking, DemoView::Control(EventView::Disconnected)),
        !(request matches DemoView::Control(EventView::Start)) && !(
        request matches DemoView::Control(EventView::Stop)) && !(
        request matches DemoView::Control(EventView::Pause)) && !(
        request matches DemoView::Control(EventView::Disconnected)) ==> demo_ticking(
            ticking,
            request,
        ) == ticking,
{
}

/// The demo can carry out all but what takes time out of its range and a rate of zero.
pub proof fn what_fits_the_demo(
    state: DispatcherState,
    ticking: bool,
    request: DemoView,
    event: EventView,
    line: Seq<char>,
)
    ensures
        demo_fits(state, ticking, DemoView::Control(event)) <==> session::event_fits(state, event),
        demo_fits(state, ticking, DemoView::Schedule(line)) <==> !ticking || pipe::pipe_line(
            line,
        ) is Err || state.now + state.rate <= u64::MAX,
        !(request is Control) && !(request is Schedule) ==> demo_fits(state, ticking, request),
{
}

/// What the demo tells of events.
pub proof fn what_the_demo_tells(
    state: DispatcherState,
    number: u64,
    file: Seq<char>,
    note: Seq<char>,
)
    ensures
        demo_message(state, EventView::Start) == "ticking resumed; enqueueing will trigger ticks"@,
        demo_message(state, EventView::Stop)
            == "ticking paused; commands will queue until 'start'"@,
        demo_message(state, EventView::Pause) == demo_message(state, EventView::Stop),
        demo_message(state, EventView::Disconnected) == demo_message(state, EventView::Stop),
        demo_message(state, EventView::Tick) == "executed single tick"@,
        demo_message(state, EventView::Step(number)) == "advanced clock by "@ + text::decimal(
            number as nat,
        ),
        demo_message(state, EventView::Advance(number)) == "advanced clock to "@ + text::decimal(
            number as nat,
        ),
        demo_message(state, EventView::RunTicks(number)) == "ran "@ + text::decimal(number as nat)
            + " tick(s)"@,
        demo_message(state, EventView::SetRate(number)) == "tick rate updated to "@
            + text::decimal(number as nat),
        demo_message(state, EventView::Now) == "[sim-time] "@ + text::decimal(state.now as nat),
        demo_message(state, EventView::AddFileNote { file, note }) == "received file note for "@
            + file + ": "@ + note,
{
}

/// What the demo tells of requests: events and new pipes are told, a command that only
/// waits is told, and what is wrong is complained about.
pub proof fn what_the_demo_notes(
    state: DispatcherState,
    ticking: bool,
    event: EventView,
    text: Seq<char>,
)
    ensures
        demo_notice(state, ticking, DemoView::Ignore) == NoticeView::Quiet,
        demo_notice(state, ticking, DemoView::UnnamedPipe) == NoticeView::Complain(
            "pipe control requires a name after 'pipe:'"@,
        ),
        demo_notice(state, ticking, DemoView::SwitchPipe(text)) == NoticeView::Say(
            "switching to new pipe name: "@ + text,
        ),
        demo_notice(state, ticking, DemoView::Control(event)) == NoticeView::Say(
            demo_message(state, event),
        ),
        demo_notice(state, ticking, DemoView::Refused(text)) == NoticeView::Complain(text),
        pipe::pipe_line(text) is Ok ==> demo_notice(state, true, DemoView::Schedule(text))
            == NoticeView::Quiet,
        pipe::pipe_line(text) is Ok ==> demo_notice(state, false, DemoView::Schedule(text))
            == NoticeView::Say("queued without ticking: "@ + text),
        pipe::pipe_line(text) matches Err(fault) ==> demo_notice(
            state,
            ticking,
            DemoView::Schedule(text),
        ) == NoticeView::Complain(
            "failed to parse pipe line '"@ + text + "': "@ + pipe::fault_message(fault),
        ),
{
    lemma_complaint();
}

proof fn lemma_complaint()
    ensures
        "failed to parse "@ + "pipe line"@ + " '"@ == "failed to parse pipe line '"@,
{
    reveal_strlit("failed to parse ");
    reveal_strlit("pipe line");
    reveal_strlit(" '");
    reveal_strlit("failed to parse pipe line '");
    assert("failed to parse "@ + "pipe line"@ + " '"@ =~= "failed to parse pipe line '"@);
}

/// The start signal is the word `start`, in whatever letters, with or without whitespace
/// around it. The first one ticks once and is announced, any other changes nothing and is
/// told.
pub proof fn start_signals(
    state: DispatcherState,
    front: Seq<char>,
    typed: Seq<char>,
    back: Seq<char>,
)
    requires
        text::all_white(front),
        text::ascii_lower(typed) == "start"@,
        text::all_white(back),
    ensures
        ({
            let line = front + typed + back;
            &&& waiting_started(false, line)
            &&& waiting_ticks(false, line)
            &&& !waiting_ticks(true, line)
            &&& waiting_applied(state, false, line) == state.ticked()
            &&& waiting_applied(state, true, line) == state
            &&& waiting_announcement(false, line) == NoticeView::Say("starting dispatcher ticks"@)
            &&& waiting_announcement(true, line) == NoticeView::Quiet
            &&& waiting_notice(false, line) == NoticeView::Quiet
            &&& waiting_notice(true, line) == NoticeView::Say(
                "start signal received again; already ticking after enqueues"@,
            )
        }),
{
    reveal_strlit("start");
    let word = text::ascii_lower(typed);
    assert(typed.len() == word.len());
    assert(word[0] == text::ascii_lower_char(typed[0]));
    assert(word[4] == text::ascii_lower_char(typed[4]));
    lemma_letters(typed[0]);
    lemma_letters(typed[4]);
    text::trim_finds_the_bare_text(front, typed, back);
}

/// Any other line that holds a command adds it as it is, and once the demo is started one
/// tick follows. A line that holds none changes nothing and is complained about unless it
/// is blank.
pub proof fn waiting_lines(
    state: DispatcherState,
    front: Seq<char>,
    bare: Seq<char>,
    back: Seq<char>,
    command: CommandView,
)
    requires
        text::all_white(front),
        text::is_bare(bare),
        text::all_white(back),
        text::ascii_lower(bare) != "start"@,
    ensures
        ({
            let line = front + bare + back;
            let (queued, ticked) = (
                waiting_applied(state, false, line),
                waiting_applied(state, true, line),
            );
            &&& !waiting_started(false, line)
            &&& waiting_announcement(false, line) == NoticeView::Quiet
            &&& waiting_announcement(true, line) == NoticeView::Quiet
            &&& bare.len() == 0 ==> queued == state && ticked == state && waiting_notice(
                true,
                line,
            ) == NoticeView::Quiet && waiting_notice(false, line) == NoticeView::Quiet
                && !waiting_ticks(true, line)
            &&& bare.len() > 0 && pipe::pipe_line(bare) == Ok::<CommandView, pipe::LineFault>(
                command,
            ) ==> {
                &&& queued.pending.to_multiset() == state.pending.to_multiset().insert(command)
                &&& queued.now == state.now && queued.calls == state.calls
                &&& dispatcher::all_commands(ticked) == dispatcher::all_commands(state).insert(
                    command,
                )
                &&& waiting_ticks(true, line)
                &&& state.can_step(state.rate) ==> dispatcher::settled(
                    state,
                    ticked,
                    state.now + state.rate,
                )
                &&& waiting_notice(true, line) == NoticeView::Quiet
                &&& waiting_notice(false, line) == NoticeView::Say(
                    "queued command without ticking: "@ + bare,
                )
            }
            &&& bare.len() > 0 ==> (pipe::pipe_line(bare) matches Err(fault) ==> {
                &&& queued == state && ticked == state
                &&& !waiting_ticks(true, line)
                &&& waiting_notice(true, line) == NoticeView::Complain(
                    "failed to parse pipe line '"@ + bare + "': "@ + pipe::fault_message(fault),
                )
                &&& waiting_notice(false, line) == waiting_notice(true, line)
            })
        }),
{
    lemma_complaint();
    text::trim_finds_the_bare_text(front, bare, back);
    let queued = state.enqueued(command);
    dispatcher::enqueueing_only_queues(state, command);
    dispatcher::commands_are_conserved(state, command, 0, 0, 0, 0);
    dispatcher::commands_are_conserved(queued, command, 0, 0, 0, 0);
    dispatcher::due_commands_run_at_once(queued, 0, 0);
}

/// A request and a notice say what they hold.
pub proof fn requests_say_what_they_hold(event: PipeEvent, text: String)
    ensures
        DemoRequest::Ignore@ == DemoView::Ignore,
        DemoRequest::UnnamedPipe@ == DemoView::UnnamedPipe,
        DemoRequest::SwitchPipe(text)@ == DemoView::SwitchPipe(text@),
        DemoRequest::Control(event)@ == DemoView::Control(event@),
        DemoRequest::Refused(text)@ == DemoView::Refused(text@),
        DemoRequest::Schedule(text)@ == DemoView::Schedule(text@),
        Notice::Quiet@ == NoticeView::Quiet,
        Notice::Say(text)@ == NoticeView::Say(text@),
        Notice::Complain(text)@ == NoticeView::Complain(text@),
{
}

}
