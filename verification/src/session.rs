//! What events and commands do to a dispatcher, and what the user is told.

use vstd::prelude::*;
use vstd::string::*;

use crate::dispatcher::{self, CommandSink, Dispatcher, DispatcherState};
use crate::pipe::{self, parse_pipe_line};
use crate::repl::{ReplCommand, ReplView};
use crate::scheduler::CommandView;
use crate::text;
use crate::windows_pipe::{self, EventView, PipeEvent};

verus! {

/// What an event came to.
#[derive(Debug)]
pub struct EventReport {
    /// Whether periodic ticking goes on or off, where the event says so.
    pub ticking: Option<bool>,
    /// What the user is told.
    pub message: Option<String>,
}

/// Whether a dispatcher can carry out an event: time stays within the range of
/// timestamps, and the tick rate is not set to zero.
pub open spec fn event_fits(state: DispatcherState, event: EventView) -> bool {
    match event {
        EventView::Tick => state.can_step(state.rate),
        EventView::Step(delta) => state.can_step(delta),
        EventView::RunTicks(ticks) => state.can_run(ticks as nat),
        EventView::SetRate(rate) => rate > 0,
        _ => true,
    }
}

/// A dispatcher after an event.
pub open spec fn event_applied(state: DispatcherState, event: EventView) -> DispatcherState {
    match event {
        EventView::Tick => state.ticked(),
        EventView::Step(delta) => state.stepped(delta),
        EventView::Advance(target) => state.advanced(target),
        EventView::RunTicks(ticks) => state.ran(ticks as nat),
        EventView::SetRate(rate) => DispatcherState { rate, ..state },
        EventView::Scheduled(command) => state.enqueued(command),
        _ => state,
    }
}

/// Whether an event turns periodic ticking on or off.
pub open spec fn event_ticking(event: EventView) -> Option<bool> {
    match event {
        EventView::Start => Some(true),
        EventView::Stop => Some(false),
        EventView::Pause => Some(false),
        EventView::Disconnected => Some(false),
        _ => None,
    }
}

/// What is told of an event once it left the dispatcher in `state`.
pub open spec fn event_message(state: DispatcherState, event: EventView) -> Option<Seq<char>> {
    match event {
        EventView::Scheduled(_) => None,
        EventView::Tick => Some(
            "performed single tick at rate "@ + text::decimal(state.rate as nat),
        ),
        EventView::Step(delta) => Some(
            "advanced clock by "@ + text::decimal(delta as nat) + " without changing tick rate"@,
        ),
        EventView::Advance(target) => Some("advanced clock to "@ + text::decimal(target as nat)),
        EventView::RunTicks(ticks) => Some(
            "ran "@ + text::decimal(ticks as nat) + " tick(s) at rate "@ + text::decimal(
                state.rate as nat,
            ) + "; current time: "@ + text::decimal(state.now as nat),
        ),
        EventView::SetRate(rate) => Some("tick rate updated to "@ + text::decimal(rate as nat)),
        EventView::Now => Some("current simulated time: "@ + text::decimal(state.now as nat)),
        EventView::AddFileNote { file, note } => Some(
            "received file note for "@ + file + ": "@ + note,
        ),
        EventView::Start => Some("ticking started"@),
        EventView::Stop => Some("ticking stopped"@),
        EventView::Pause => Some("ticking stopped"@),
        EventView::Disconnected => Some("ticking stopped"@),
    }
}

/// What is told of an event that came over the pipe.
pub open spec fn pipe_message(state: DispatcherState, event: EventView) -> Option<Seq<char>> {
    match event_message(state, event) {
        Some(message) => Some(message + " (pipe)"@),
        None => None,
    }
}

/// Whether the dispatcher can carry out an event.
pub fn fits<Sink: CommandSink>(dispatcher: &Dispatcher<Sink>, event: &PipeEvent) -> (out: bool)
    ensures
        out == event_fits(dispatcher@, event@),
{
    match event {
        PipeEvent::Tick => dispatcher.can_step(dispatcher.tick_rate()),
        PipeEvent::Step(delta) => dispatcher.can_step(*delta),
        PipeEvent::RunTicks(ticks) => dispatcher.can_run(*ticks),
        PipeEvent::SetRate(rate) => *rate > 0,
        _ => true,
    }
}

/// A text and a number behind it.
fn with_decimal(front: &str, number: u64) -> (out: String)
    ensures
        out@ == front@ + text::decimal(number as nat),
{
    front.to_owned().concat(text::decimal_text(number).as_str())
}

/// Carries out an event and tells what it came to.
fn carry_out<Sink: CommandSink>(dispatcher: &mut Dispatcher<Sink>, event: PipeEvent) -> (report:
    EventReport)
    requires
        event_fits(old(dispatcher)@, event@),
    ensures
        final(dispatcher)@ == event_applied(old(dispatcher)@, event@),
        old(dispatcher)@.valid() ==> final(dispatcher)@.valid(),
        report.ticking == event_ticking(event@),
        windows_pipe::text_view(report.message) == event_message(final(dispatcher)@, event@),
{
    match event {
        PipeEvent::Scheduled(command) => {
            dispatcher.enqueue_payload(command.timestamp, command.command);
            EventReport { ticking: None, message: None }
        },
        PipeEvent::Tick => {
            dispatcher.tick();
            let message = with_decimal("performed single tick at rate ", dispatcher.tick_rate());
            EventReport { ticking: None, message: Some(message) }
        },
        PipeEvent::Step(delta) => {
            dispatcher.step(delta);
            let message = with_decimal("advanced clock by ", delta).concat(
                " without changing tick rate",
            );
            EventReport { ticking: None, message: Some(message) }
        },
        PipeEvent::Advance(target) => {
            dispatcher.advance_to(target);
            let message = with_decimal("advanced clock to ", target);
            EventReport { ticking: None, message: Some(message) }
        },
        PipeEvent::RunTicks(ticks) => {
            dispatcher.run_for_ticks(ticks);
            let rate = text::decimal_text(dispatcher.tick_rate());
            let now = text::decimal_text(dispatcher.now());
            let message = with_decimal("ran ", ticks).concat(" tick(s) at rate ").concat(
                rate.as_str(),
            ).concat("; current time: ").concat(now.as_str());
            EventReport { ticking: None, message: Some(message) }
        },
        PipeEvent::SetRate(rate) => {
            dispatcher.set_tick_rate(rate);
            let message = with_decimal("tick rate updated to ", rate);
            EventReport { ticking: None, message: Some(message) }
        },
        PipeEvent::Now => {
            let message = with_decimal("current simulated time: ", dispatcher.now());
            EventReport { ticking: None, message: Some(message) }
        },
        PipeEvent::AddFileNote { file, note } => {
            let message = "received file note for ".to_owned().concat(file.as_str()).concat(
                ": ",
            ).concat(note.as_str());
            EventReport { ticking: None, message: Some(message) }
        },
        PipeEvent::Start => EventReport {
            ticking: Some(true),
            message: Some("ticking started".to_owned()),
        },
        PipeEvent::Stop => EventReport {
            ticking: Some(false),
            message: Some("ticking stopped".to_owned()),
        },
        PipeEvent::Pause => EventReport {
            ticking: Some(false),
            message: Some("ticking stopped".to_owned()),
        },
        PipeEvent::Disconnected => EventReport {
            ticking: Some(false),
            message: Some("ticking stopped".to_owned()),
        },
    }
}

/// Applies an event that came over the pipe.
pub fn apply_event<Sink: CommandSink>(
    dispatcher: &mut Dispatcher<Sink>,
    event: PipeEvent,
) -> (report: EventReport)
    requires
        event_fits(old(dispatcher)@, event@),
    ensures
        final(dispatcher)@ == event_applied(old(dispatcher)@, event@),
        old(dispatcher)@.valid() ==> final(dispatcher)@.valid(),
        report.ticking == event_ticking(event@),
        windows_pipe::text_view(report.message) == pipe_message(final(dispatcher)@, event@),
{
    let report = carry_out(dispatcher, event);
    let message: Option<String> = match report.message {
        Some(message) => Some(message.concat(" (pipe)")),
        None => None,
    };
    EventReport { ticking: report.ticking, message }
}

/// Ticks once when an interval has passed and ticking is on.
pub fn interval_passed<Sink: CommandSink>(dispatcher: &mut Dispatcher<Sink>, ticking: bool)
    requires
        ticking ==> old(dispatcher)@.can_step(old(dispatcher)@.rate),
    ensures
        final(dispatcher)@ == (if ticking {
            old(dispatcher)@.ticked()
        } else {
            old(dispatcher)@
        }),
        old(dispatcher)@.valid() ==> final(dispatcher)@.valid(),
{
    if ticking {
        dispatcher.tick();
    }
}

/// What a client does about a command of its user.
#[derive(Debug)]
pub enum ReplAction {
    /// Turn periodic ticking on or off, where that is said, and print the message.
    Report {
        /// Whether periodic ticking goes on or off.
        ticking: Option<bool>,
        /// What the user is told.
        message: String,
    },
    /// Pass the event to the queue that feeds the dispatcher.
    Queue(PipeEvent),
    /// Complain on the error output.
    Complain(String),
    /// Show the command reference.
    Help,
    /// Terminate.
    Quit,
}

/// What a client does about a command, as plain values.
pub enum ReplActionView {
    /// Turn ticking on or off and print the message.
    Report {
        /// Whether periodic ticking goes on or off.
        ticking: Option<bool>,
        /// What the user is told.
        message: Seq<char>,
    },
    /// Pass the event to the queue.
    Queue(EventView),
    /// Complain.
    Complain(Seq<char>),
    /// Show the command reference.
    Help,
    /// Terminate.
    Quit,
}

impl View for ReplAction {
    type V = ReplActionView;

    open spec fn view(&self) -> ReplActionView {
        match self {
            ReplAction::Report { ticking, message } => ReplActionView::Report {
                ticking: *ticking,
                message: message@,
            },
            ReplAction::Queue(event) => ReplActionView::Queue(event@),
            ReplAction::Complain(message) => ReplActionView::Complain(message@),
            ReplAction::Help => ReplActionView::Help,
            ReplAction::Quit => ReplActionView::Quit,
        }
    }
}

/// What a command asks of a dispatcher, if it asks anything. A line in the pipe
/// format asks for what it says.
pub open spec fn command_event(command: ReplView) -> Option<EventView> {
    match command {
        ReplView::Start => Some(EventView::Start),
        ReplView::Stop => Some(EventView::Stop),
        ReplView::Tick => Some(EventView::Tick),
        ReplView::Step(delta) => Some(EventView::Step(delta)),
        ReplView::Advance(target) => Some(EventView::Advance(target)),
        ReplView::RunTicks(ticks) => Some(EventView::RunTicks(ticks)),
        ReplView::SetRate(rate) => Some(EventView::SetRate(rate)),
        ReplView::Enqueue(scheduled) => Some(EventView::Scheduled(scheduled)),
        ReplView::PipeLine(line) => match pipe::pipe_line(line) {
            Ok(scheduled) => Some(EventView::Scheduled(scheduled)),
            Err(_) => None,
        },
        ReplView::Now => Some(EventView::Now),
        ReplView::Help => None,
        ReplView::Quit => None,
    }
}

/// Whether a command waits in the queue before the dispatcher sees it.
pub open spec fn is_queued(command: ReplView) -> bool {
    command is Enqueue || command is PipeLine
}

/// Whether a dispatcher can carry out a command.
pub open spec fn command_fits(state: DispatcherState, command: ReplView) -> bool {
    command_event(command) matches Some(event) ==> event_fits(state, event)
}

/// A dispatcher after a command of the user. Scheduled commands go through the queue
/// and do not change it yet.
pub open spec fn command_applied(state: DispatcherState, command: ReplView) -> DispatcherState {
    match command_event(command) {
        Some(event) if !is_queued(command) => event_applied(state, event),
        _ => state,
    }
}

/// What the client does about a command once it left the dispatcher in `state`.
pub open spec fn command_action(
    state: DispatcherState,
    command: ReplView,
    interval: Seq<char>,
) -> ReplActionView {
    match command {
        ReplView::Help => ReplActionView::Help,
        ReplView::Quit => ReplActionView::Quit,
        ReplView::Start => ReplActionView::Report {
            ticking: Some(true),
            message: "ticking started (interval: "@ + interval + ")"@,
        },
        ReplView::Enqueue(scheduled) => ReplActionView::Queue(EventView::Scheduled(scheduled)),
        ReplView::PipeLine(line) => match pipe::pipe_line(line) {
            Ok(scheduled) => ReplActionView::Queue(EventView::Scheduled(scheduled)),
            Err(fault) => ReplActionView::Complain(
                "failed to parse pipe line: "@ + pipe::fault_message(fault),
            ),
        },
        _ => ReplActionView::Report {
            ticking: event_ticking(command_event(command)->0),
            message: event_message(state, command_event(command)->0)->0,
        },
    }
}

/// Carries out an event and reports it to the user.
fn report_event<Sink: CommandSink>(dispatcher: &mut Dispatcher<Sink>, event: PipeEvent) -> (action:
    ReplAction)
    requires
        event_fits(old(dispatcher)@, event@),
        !(event@ is Scheduled),
    ensures
        final(dispatcher)@ == event_applied(old(dispatcher)@, event@),
        old(dispatcher)@.valid() ==> final(dispatcher)@.valid(),
        action@ == (ReplActionView::Report {
            ticking: event_ticking(event@),
            message: event_message(final(dispatcher)@, event@)->0,
        }),
{
    let report = carry_out(dispatcher, event);
    let message = match report.message {
        Some(message) => message,
        None => String::new(),
    };
    ReplAction::Report { ticking: report.ticking, message }
}

/// Carries out a command of the user. `interval` is the tick interval as it is shown
/// to the user.
pub fn apply_command<Sink: CommandSink>(
    dispatcher: &mut Dispatcher<Sink>,
    command: ReplCommand,
    interval: &str,
) -> (action: ReplAction)
    requires
        command_fits(old(dispatcher)@, command@),
    ensures
        final(dispatcher)@ == command_applied(old(dispatcher)@, command@),
        old(dispatcher)@.valid() ==> final(dispatcher)@.valid(),
        action@ == command_action(final(dispatcher)@, command@, interval@),
{
    match command {
        ReplCommand::Start => {
            let message = "ticking started (interval: ".to_owned().concat(interval).concat(")");
            ReplAction::Report { ticking: Some(true), message }
        },
        ReplCommand::Stop => report_event(dispatcher, PipeEvent::Stop),
        ReplCommand::Tick => report_event(dispatcher, PipeEvent::Tick),
        ReplCommand::Step(delta) => report_event(dispatcher, PipeEvent::Step(delta)),
        ReplCommand::Advance(target) => report_event(dispatcher, PipeEvent::Advance(target)),
        ReplCommand::RunTicks(ticks) => report_event(dispatcher, PipeEvent::RunTicks(ticks)),
        ReplCommand::SetRate(rate) => report_event(dispatcher, PipeEvent::SetRate(rate)),
        ReplCommand::Enqueue(scheduled) => ReplAction::Queue(PipeEvent::Scheduled(scheduled)),
        ReplCommand::PipeLine(line) => match parse_pipe_line(line.as_str()) {
            Ok(parsed) => ReplAction::Queue(PipeEvent::Scheduled(parsed.into_scheduled())),
            Err(error) => {
                let reason = error.to_string();
                ReplAction::Complain(
                    "failed to parse pipe line: ".to_owned().concat(reason.as_str()),
                )
            },
        },
        ReplCommand::Now => report_event(dispatcher, PipeEvent::Now),
        ReplCommand::Help => ReplAction::Help,
        ReplCommand::Quit => ReplAction::Quit,
    }
}

/// Whether the dispatcher can carry out a command of the user.
pub fn command_allowed<Sink: CommandSink>(
    dispatcher: &Dispatcher<Sink>,
    command: &ReplCommand,
) -> (out: bool)
    ensures
        out == command_fits(dispatcher@, command@),
{
    match command {
        ReplCommand::Tick => dispatcher.can_step(dispatcher.tick_rate()),
        ReplCommand::Step(delta) => dispatcher.can_step(*delta),
        ReplCommand::RunTicks(ticks) => dispatcher.can_run(*ticks),
        ReplCommand::SetRate(rate) => *rate > 0,
        _ => true,
    }
}

// ---------------------------------------------------------------------------
// Laws
// ---------------------------------------------------------------------------


/// Whatever event a dispatcher carries out, its state stays valid, time does not go
/// back, and its sink calls stay orderly.
pub proof fn events_keep_order(state: DispatcherState, event: EventView)
    requires
        event_fits(state, event),
    ensures
        state.valid() ==> event_applied(state, event).valid(),
        event_applied(state, event).now >= state.now,
        dispatcher::orderly(state.calls, state.now) ==> dispatcher::orderly(
            event_applied(state, event).calls,
            event_applied(state, event).now,
        ),
{
    let ticks = if let EventView::RunTicks(ticks) = event {
        ticks as nat
    } else {
        0
    };
    let delta = match event {
        EventView::Tick => state.rate,
        EventView::Step(delta) => delta,
        _ => 0,
    };
    let target = if let EventView::Advance(target) = event {
        target
    } else {
        0
    };
    let command = if let EventView::Scheduled(command) = event {
        command
    } else {
        CommandView { timestamp: 0, command: Seq::empty() }
    };
    let now = if event is Advance {
        crate::clock::moved_to(state.now, target)
    } else {
        (state.now + delta) as u64
    };
    assert(ticks * state.rate >= 0) by (nonlinear_arith);
    if state.valid() {
        dispatcher::operations_keep_validity(state, now, command, ticks);
    }
    dispatcher::time_never_goes_back(state, delta, target, ticks, command);
    if dispatcher::orderly(state.calls, state.now) {
        dispatcher::calls_stay_orderly(state, delta, target, ticks, command);
    }
}

/// A command that the user types does to the dispatcher what its event does, unless
/// it waits in the queue. Then it does nothing until the queue hands its event over.
pub proof fn commands_are_events(state: DispatcherState, command: ReplView, event: EventView)
    requires
        command_event(command) == Some(event),
    ensures
        is_queued(command) <==> event is Scheduled,
        !is_queued(command) ==> command_applied(state, command) == event_applied(state, event),
        is_queued(command) ==> command_applied(state, command) == state,
        is_queued(command) ==> forall|after: DispatcherState, interval: Seq<char>|
            #[trigger]
            command_action(after, command, interval) == ReplActionView::Queue(event),
{
}

/// A scheduled command joins the pending ones as it is, its timestamp as given whatever
/// the time is. Nothing else changes and nothing is called.
pub proof fn scheduled_commands_are_queued_as_given(state: DispatcherState, command: CommandView)
    ensures
        ({
            let after = event_applied(state, EventView::Scheduled(command));
            &&& after.pending.to_multiset() == state.pending.to_multiset().insert(command)
            &&& after.now == state.now
            &&& after.rate == state.rate
            &&& after.calls == state.calls
        }),
{
    dispatcher::enqueueing_only_queues(state, command);
}

/// Whatever happens, no command is lost, made up, run twice or changed. Only a scheduled
/// command adds one.
pub proof fn events_conserve_commands(state: DispatcherState, event: EventView)
    ensures
        dispatcher::all_commands(event_applied(state, event)) == match event {
            EventView::Scheduled(command) => dispatcher::all_commands(state).insert(command),
            _ => dispatcher::all_commands(state),
        },
{
    let command = if let EventView::Scheduled(command) = event {
        command
    } else {
        CommandView { timestamp: 0, command: Seq::empty() }
    };
    let number = match event {
        EventView::Step(number) => number,
        EventView::Advance(number) => number,
        EventView::RunTicks(number) => number,
        _ => 0,
    };
    dispatcher::commands_are_conserved(state, command, 0, number, number, number as nat);
}

/// A tick moves time by the rate, a step by its delta, and an advance to its target
/// unless that is over. Each publishes the new time once, runs all that is due and
/// nothing else.
pub proof fn events_move_time(state: DispatcherState, number: u64)
    ensures
        event_fits(state, EventView::Tick) ==> dispatcher::settled(
            state,
            event_applied(state, EventView::Tick),
            state.now + state.rate,
        ),
        event_fits(state, EventView::Step(number)) ==> dispatcher::settled(
            state,
            event_applied(state, EventView::Step(number)),
            state.now + number,
        ),
        number >= state.now ==> dispatcher::settled(
            state,
            event_applied(state, EventView::Advance(number)),
            number as int,
        ),
        number <= state.now ==> dispatcher::settled(
            state,
            event_applied(state, EventView::Advance(number)),
            state.now as int,
        ),
{
    dispatcher::due_commands_run_at_once(state, 0, number);
    if event_fits(state, EventView::Step(number)) {
        dispatcher::due_commands_run_at_once(state, number, number);
    }
}

/// What one event runs, it runs in run order: earlier commands first.
pub proof fn events_run_in_order(state: DispatcherState, number: u64, i: int, j: int)
    requires
        state.valid(),
        state.calls.len() < i <= j,
    ensures
        j < event_applied(state, EventView::Tick).calls.len() ==> dispatcher::no_later(
            event_applied(state, EventView::Tick).calls[i],
            event_applied(state, EventView::Tick).calls[j],
        ),
        j < event_applied(state, EventView::Step(number)).calls.len() ==> dispatcher::no_later(
            event_applied(state, EventView::Step(number)).calls[i],
            event_applied(state, EventView::Step(number)).calls[j],
        ),
        j < event_applied(state, EventView::Advance(number)).calls.len() ==> dispatcher::no_later(
            event_applied(state, EventView::Advance(number)).calls[i],
            event_applied(state, EventView::Advance(number)).calls[j],
        ),
{
    dispatcher::due_commands_run_in_order(state, number, number, i, j);
}

/// Running a number of ticks is that many ticks, one after the other: none for zero, and
/// one more for one more.
pub proof fn running_is_ticking(state: DispatcherState, ticks: u64)
    requires
        ticks < u64::MAX,
    ensures
        event_applied(state, EventView::RunTicks(0)) == state,
        event_applied(state, EventView::RunTicks((ticks + 1) as u64)) == event_applied(
            event_applied(state, EventView::RunTicks(ticks)),
            EventView::Tick,
        ),
{
}

/// Setting the rate sets the rate and nothing else. What only concerns the user or the
/// interval leaves the dispatcher as it is.
pub proof fn other_events_move_nothing(
    state: DispatcherState,
    rate: u64,
    file: Seq<char>,
    note: Seq<char>,
)
    ensures
        ({
            let after = event_applied(state, EventView::SetRate(rate));
            &&& after.rate == rate
            &&& after.now == state.now
            &&& after.pending == state.pending
            &&& after.calls == state.calls
        }),
        event_applied(state, EventView::Start) == state,
        event_applied(state, EventView::Stop) == state,
        event_applied(state, EventView::Pause) == state,
        event_applied(state, EventView::Now) == state,
        event_applied(state, EventView::Disconnected) == state,
        event_applied(state, EventView::AddFileNote { file, note }) == state,
{
}

/// The events that a dispatcher cannot carry out: those that take time out of its range,
/// and a tick rate of zero. It carries out all others.
pub proof fn what_fits(state: DispatcherState, event: EventView, number: u64)
    ensures
        event_fits(state, EventView::Tick) <==> state.now + state.rate <= u64::MAX,
        event_fits(state, EventView::Step(number)) <==> state.now + number <= u64::MAX,
        event_fits(state, EventView::RunTicks(number)) <==> state.now + number * state.rate
            <= u64::MAX,
        event_fits(state, EventView::SetRate(number)) <==> number != 0,
        !(event is Tick || event is Step || event is RunTicks || event is SetRate) ==> event_fits(
            state,
            event,
        ),
{
}

/// Starting turns ticking on. Stopping, pausing and a client that is gone turn it off, and
/// no other event does either.
pub proof fn what_turns_ticking(event: EventView)
    ensures
        event_ticking(event) == Some(true) <==> event is Start,
        event_ticking(event) == Some(false) <==> event is Stop || event is Pause || event
            is Disconnected,
{
}

/// What is told of an event names the numbers that matter: what was asked for, and the
/// rate and the time as they are then.
pub proof fn what_is_told(
    state: DispatcherState,
    number: u64,
    file: Seq<char>,
    note: Seq<char>,
    command: CommandView,
)
    ensures
        event_message(state, EventView::Scheduled(command)) is None,
        event_message(state, EventView::Tick) == Some(
            "performed single tick at rate "@ + text::decimal(state.rate as nat),
        ),
        event_message(state, EventView::Step(number)) == Some(
            "advanced clock by "@ + text::decimal(number as nat) + " without changing tick rate"@,
        ),
        event_message(state, EventView::Advance(number)) == Some(
            "advanced clock to "@ + text::decimal(number as nat),
        ),
        event_message(state, EventView::RunTicks(number)) == Some(
            "ran "@ + text::decimal(number as nat) + " tick(s) at rate "@ + text::decimal(
                state.rate as nat,
            ) + "; current time: "@ + text::decimal(state.now as nat),
        ),
        event_message(state, EventView::SetRate(number)) == Some(
            "tick rate updated to "@ + text::decimal(number as nat),
        ),
        event_message(state, EventView::Now) == Some(
            "current simulated time: "@ + text::decimal(state.now as nat),
        ),
        event_message(state, EventView::AddFileNote { file, note }) == Some(
            "received file note for "@ + file + ": "@ + note,
        ),
        event_message(state, EventView::Start) == Some("ticking started"@),
        event_message(state, EventView::Stop) == Some("ticking stopped"@),
        event_message(state, EventView::Pause) == Some("ticking stopped"@),
        event_message(state, EventView::Disconnected) == Some("ticking stopped"@),
{
}

/// Over the pipe the same is told, marked as such at its end.
pub proof fn pipe_messages_are_marked(state: DispatcherState, event: EventView)
    ensures
        event_message(state, event) matches Some(message) ==> pipe_message(state, event) == Some(
            message + " (pipe)"@,
        ),
        event_message(state, event) is None ==> pipe_message(state, event) is None,
{
}

/// Every command that the user types asks for the event of the same name and number. A
/// line in the pipe format asks for the command that it holds, and a line that holds none,
/// `help` and `quit` ask for nothing.
pub proof fn what_commands_ask_for(number: u64, command: CommandView, line: Seq<char>)
    ensures
        command_event(ReplView::Start) == Some(EventView::Start),
        command_event(ReplView::Stop) == Some(EventView::Stop),
        command_event(ReplView::Tick) == Some(EventView::Tick),
        command_event(ReplView::Now) == Some(EventView::Now),
        command_event(ReplView::Step(number)) == Some(EventView::Step(number)),
        command_event(ReplView::Advance(number)) == Some(EventView::Advance(number)),
        command_event(ReplView::RunTicks(number)) == Some(EventView::RunTicks(number)),
        command_event(ReplView::SetRate(number)) == Some(EventView::SetRate(number)),
        command_event(ReplView::Enqueue(command)) == Some(EventView::Scheduled(command)),
        pipe::pipe_line(line) == Ok::<CommandView, pipe::LineFault>(command) ==> command_event(
            ReplView::PipeLine(line),
        ) == Some(EventView::Scheduled(command)),
        pipe::pipe_line(line) is Err ==> command_event(ReplView::PipeLine(line)) is None,
        command_event(ReplView::Help) is None,
        command_event(ReplView::Quit) is None,
{
}

/// A command fits where its event does, and one without an event always does.
pub proof fn commands_fit_like_events(state: DispatcherState, command: ReplView)
    ensures
        command_event(command) is None ==> command_fits(state, command),
        command_event(command) matches Some(event) ==> (command_fits(state, command)
            <==> event_fits(state, event)),
        command is Enqueue || command is PipeLine || command is Help || command is Quit
            ==> command_applied(state, command) == state && command_fits(state, command),
{
}

/// What the client does about a command: `help` and `quit` are its own, a command to
/// schedule goes to the queue as given, a pipe line that does not parse is complained
/// about with its fault, and all others are reported as their events are.
pub proof fn what_the_client_does(
    state: DispatcherState,
    command: ReplView,
    interval: Seq<char>,
    scheduled: CommandView,
    line: Seq<char>,
)
    ensures
        command_action(state, ReplView::Help, interval) == ReplActionView::Help,
        command_action(state, ReplView::Quit, interval) == ReplActionView::Quit,
        command_action(state, ReplView::Enqueue(scheduled), interval) == ReplActionView::Queue(
            EventView::Scheduled(scheduled),
        ),
        pipe::pipe_line(line) == Ok::<CommandView, pipe::LineFault>(scheduled) ==> command_action(
            state,
            ReplView::PipeLine(line),
            interval,
        ) == ReplActionView::Queue(EventView::Scheduled(scheduled)),
        pipe::pipe_line(line) matches Err(fault) ==> command_action(
            state,
            ReplView::PipeLine(line),
            interval,
        ) == ReplActionView::Complain(
            "failed to parse pipe line: "@ + pipe::fault_message(fault),
        ),
        command_action(state, ReplView::Start, interval) == (ReplActionView::Report {
            ticking: Some(true),
            message: "ticking started (interval: "@ + interval + ")"@,
        }),
        command is Stop || command is Tick || command is Now || command is Step || command
            is Advance || command is RunTicks || command is SetRate ==> (command_event(
            command,
        ) matches Some(event) && event_message(state, event) matches Some(message)
            && command_action(state, command, interval) == (ReplActionView::Report {
            ticking: event_ticking(event),
            message,
        })),
{
}

/// What a client does says what it holds.
pub proof fn actions_say_what_they_hold(
    ticking: Option<bool>,
    message: String,
    event: PipeEvent,
)
    ensures
        (ReplAction::Report { ticking, message })@ == (ReplActionView::Report {
            ticking,
            message: message@,
        }),
        ReplAction::Queue(event)@ == ReplActionView::Queue(event@),
        ReplAction::Complain(message)@ == ReplActionView::Complain(message@),
        ReplAction::Help@ == ReplActionView::Help,
        ReplAction::Quit@ == ReplActionView::Quit,
{
}

}
