//! A client that drives a dispatcher through a transport.

use vstd::prelude::*;
use vstd::string::*;

use crate::dispatcher::{self, CommandSink, Dispatcher, DispatcherState};
use crate::pipe::{self, LineFault, PipeParseError};
use crate::scheduler::CommandView;
use crate::text;

verus! {

/// Errors of a [`SimulationClient`].
#[derive(Debug)]
pub enum ClientError {
    /// Pipe input did not parse.
    Pipe(PipeParseError),
    /// Reading from a transport source failed.
    Io(std::io::Error),
}

impl ClientError {
    /// The error as it is printed: as the error that it holds.
    pub fn to_string(&self) -> (message: String)
        ensures
            self matches ClientError::Pipe(error) ==> forall|fault: LineFault| #[trigger]
                error.reports(fault) ==> message@ == pipe::fault_message(fault),
    {
        match self {
            ClientError::Pipe(error) => error.to_string(),
            ClientError::Io(error) => pipe::io_error_text(error),
        }
    }
}

impl From<PipeParseError> for ClientError {
    fn from(error: PipeParseError) -> Self {
        ClientError::Pipe(error)
    }
}

impl vstd::std_specs::convert::FromSpecImpl<PipeParseError> for ClientError {
    open spec fn obeys_from_spec() -> bool {
        true
    }

    open spec fn from_spec(error: PipeParseError) -> ClientError {
        ClientError::Pipe(error)
    }
}

impl From<std::io::Error> for ClientError {
    fn from(error: std::io::Error) -> Self {
        ClientError::Io(error)
    }
}

impl vstd::std_specs::convert::FromSpecImpl<std::io::Error> for ClientError {
    open spec fn obeys_from_spec() -> bool {
        true
    }

    open spec fn from_spec(error: std::io::Error) -> ClientError {
        ClientError::Io(error)
    }
}

/// A transport that drives a dispatcher of its own, as plain values.
#[verifier::ext_equal]
pub struct TransportState {
    /// Whether the transport was started and not stopped since.
    pub running: bool,
    /// The dispatcher.
    pub dispatcher: DispatcherState,
    /// What is still to be read from the pipe: line by line, or why a read fails.
    pub unread: Seq<Result<String, std::io::Error>>,
}

/// What a line of pipe input asks for: nothing where it is blank.
pub open spec fn fed_line(line: Seq<char>) -> Result<Option<CommandView>, LineFault> {
    if text::trim(line).len() == 0 {
        Ok(None)
    } else {
        match pipe::pipe_line(text::trim_line_end(line)) {
            Ok(command) => Ok(Some(command)),
            Err(fault) => Err(fault),
        }
    }
}

/// A dispatcher after a line that asks for `command`: queued, and one tick.
pub open spec fn fed(state: DispatcherState, command: Option<CommandView>) -> DispatcherState {
    match command {
        Some(command) => state.enqueued(command).ticked(),
        None => state,
    }
}

/// What ends the reading of pipe input before its end.
pub enum ReadFault {
    /// A line that does not parse.
    Line(LineFault),
    /// A read that failed.
    Read(std::io::Error),
}

/// What one read of pipe input asks for.
pub open spec fn fed_read(read: Result<String, std::io::Error>) -> Result<
    Option<CommandView>,
    ReadFault,
> {
    match read {
        Ok(line) => match fed_line(line@) {
            Ok(command) => Ok(command),
            Err(fault) => Err(ReadFault::Line(fault)),
        },
        Err(error) => Err(ReadFault::Read(error)),
    }
}

/// How many ticks pipe input takes: one for every command up to the first fault.
pub open spec fn ticks_needed(reads: Seq<Result<String, std::io::Error>>) -> nat
    decreases reads.len(),
{
    if reads.len() == 0 {
        0
    } else {
        match fed_read(reads.first()) {
            Err(_) => 0,
            Ok(None) => ticks_needed(reads.drop_first()),
            Ok(Some(_)) => 1 + ticks_needed(reads.drop_first()),
        }
    }
}

impl TransportState {
    /// The rate of the dispatcher changed.
    pub open spec fn with_rate(self, rate: u64) -> TransportState {
        TransportState { dispatcher: DispatcherState { rate, ..self.dispatcher }, ..self }
    }

    /// A command queued. While the transport runs, time moves to its timestamp.
    pub open spec fn with_command(self, command: CommandView) -> TransportState {
        let queued = self.dispatcher.enqueued(command);
        TransportState {
            dispatcher: if self.running {
                queued.advanced(command.timestamp)
            } else {
                queued
            },
            ..self
        }
    }

    /// The unread input read to its end, or up to the first fault.
    pub open spec fn read_through(self) -> (TransportState, Option<ReadFault>)
        decreases self.unread.len(),
    {
        if self.unread.len() == 0 {
            (self, None)
        } else {
            let rest = TransportState { unread: self.unread.drop_first(), ..self };
            match fed_read(self.unread.first()) {
                Err(fault) => (rest, Some(fault)),
                Ok(command) => TransportState {
                    dispatcher: fed(self.dispatcher, command),
                    ..rest
                }.read_through(),
            }
        }
    }

    /// The transport started: it runs, and its unread input is read through.
    pub open spec fn started(self) -> (TransportState, Option<ReadFault>) {
        TransportState { running: true, ..self }.read_through()
    }

    /// Whether a start stays within the range of timestamps.
    pub open spec fn can_start(self) -> bool {
        self.dispatcher.can_run(ticks_needed(self.unread))
    }

    /// Whether `out` is how a start ends that meets `fault`.
    pub open spec fn ends_with(out: Result<(), ClientError>, fault: Option<ReadFault>) -> bool {
        match fault {
            None => out is Ok,
            Some(ReadFault::Line(fault)) => out matches Err(ClientError::Pipe(error))
                && error.reports(fault),
            Some(ReadFault::Read(error)) => out == Err::<(), ClientError>(ClientError::Io(error)),
        }
    }
}

/// A transport backend that can drive a dispatcher.
pub trait ClientTransport: Send {
    /// Whether the transport drives a dispatcher of its own directly, as the two
    /// transports here do. Of any other nothing is promised.
    open spec fn is_direct(&self) -> bool {
        false
    }

    /// The state of a direct transport.
    open spec fn state(&self) -> TransportState {
        arbitrary()
    }

    /// Establishes the connections that the transport needs.
    fn connect(&mut self) -> (out: Result<(), ClientError>)
        ensures
            old(self).is_direct() ==> {
                &&& out is Ok
                &&& final(self).is_direct()
                &&& final(self).state() == old(self).state()
            },
    ;

    /// Sets by how much one tick advances simulated time.
    fn set_tick_rate(&mut self, tick_rate: u64) -> (out: Result<(), ClientError>)
        requires
            tick_rate > 0,
        ensures
            old(self).is_direct() ==> {
                &&& out is Ok
                &&& final(self).is_direct()
                &&& final(self).state() == old(self).state().with_rate(tick_rate)
            },
    ;

    /// Schedules a command.
    fn enqueue_command(&mut self, timestamp: u64, command: String) -> (out: Result<
        (),
        ClientError,
    >)
        ensures
            old(self).is_direct() ==> {
                &&& out is Ok
                &&& final(self).is_direct()
                &&& final(self).state() == old(self).state().with_command(
                    CommandView { timestamp, command: command@ },
                )
            },
    ;

    /// Starts processing.
    fn start(&mut self) -> (out: Result<(), ClientError>)
        requires
            old(self).is_direct() ==> old(self).state().can_start(),
        ensures
            old(self).is_direct() ==> {
                &&& final(self).is_direct()
                &&& final(self).state() == old(self).state().started().0
                &&& TransportState::ends_with(out, old(self).state().started().1)
            },
    ;

    /// Stops processing.
    fn stop(&mut self) -> (out: Result<(), ClientError>)
        ensures
            old(self).is_direct() ==> {
                &&& out is Ok
                &&& final(self).is_direct()
                &&& final(self).state() == (TransportState { running: false, ..old(self).state() })
            },
    ;
}

/// A client that delegates to a transport.
pub struct SimulationClient {
    transport: Box<dyn ClientTransport>,
}

impl SimulationClient {
    /// Whether the client's transport drives a dispatcher of its own directly.
    pub closed spec fn is_direct(&self) -> bool {
        self.transport.is_direct()
    }

    /// The state of the client's transport.
    pub closed spec fn state(&self) -> TransportState {
        self.transport.state()
    }

    /// A client that owns a dispatcher in memory.
    pub fn from_dispatcher<Sink: CommandSink + Send + 'static>(
        dispatcher: Dispatcher<Sink>,
    ) -> (client: Self)
        ensures
            client.is_direct(),
            client.state() == (TransportState {
                running: false,
                dispatcher: dispatcher@,
                unread: Seq::empty(),
            }),
    {
        SimulationClient { transport: Box::new(InMemoryTransport::new(dispatcher)) }
    }

    /// A client that feeds a dispatcher from pipe input, which comes as what reading
    /// line by line brings.
    pub fn from_pipe_reader<Sink: CommandSink + Send + 'static>(
        dispatcher: Dispatcher<Sink>,
        reads: Vec<Result<String, std::io::Error>>,
    ) -> (client: Self)
        ensures
            client.is_direct(),
            client.state() == (TransportState {
                running: false,
                dispatcher: dispatcher@,
                unread: reads@,
            }),
    {
        SimulationClient { transport: Box::new(PipeTransport::new(dispatcher, reads)) }
    }

    /// Connects the transport.
    pub fn connect(&mut self) -> (out: Result<(), ClientError>)
        ensures
            old(self).is_direct() ==> {
                &&& out is Ok
                &&& final(self).is_direct()
                &&& final(self).state() == old(self).state()
            },
    {
        self.transport.connect()
    }

    /// Sets by how much one tick advances simulated time.
    pub fn set_tick_rate(&mut self, tick_rate: u64) -> (out: Result<(), ClientError>)
        requires
            tick_rate > 0,
        ensures
            old(self).is_direct() ==> {
                &&& out is Ok
                &&& final(self).is_direct()
                &&& final(self).state() == old(self).state().with_rate(tick_rate)
            },
    {
        self.transport.set_tick_rate(tick_rate)
    }

    /// Queues a command. While the client is started, time moves to the command's
    /// timestamp, so that everything due by then runs.
    pub fn enqueue_command(&mut self, timestamp: u64, command: String) -> (out: Result<
        (),
        ClientError,
    >)
        ensures
            old(self).is_direct() ==> {
                &&& out is Ok
                &&& final(self).is_direct()
                &&& final(self).state() == old(self).state().with_command(
                    CommandView { timestamp, command: command@ },
                )
            },
    {
        self.transport.enqueue_command(timestamp, command)
    }

    /// Starts the transport. Pipe input is read through: every line queues its
    /// command and ticks once, blank lines are passed over, and the first line that
    /// does not parse, or the first read that failed, ends it with its error.
    pub fn start(&mut self) -> (out: Result<(), ClientError>)
        requires
            old(self).is_direct() ==> old(self).state().can_start(),
        ensures
            old(self).is_direct() ==> {
                &&& final(self).is_direct()
                &&& final(self).state() == old(self).state().started().0
                &&& TransportState::ends_with(out, old(self).state().started().1)
            },
    {
        self.transport.start()
    }

    /// Stops the transport.
    pub fn stop(&mut self) -> (out: Result<(), ClientError>)
        ensures
            old(self).is_direct() ==> {
                &&& out is Ok
                &&& final(self).is_direct()
                &&& final(self).state() == (TransportState { running: false, ..old(self).state() })
            },
    {
        self.transport.stop()
    }
}

/// A transport that drives a dispatcher in memory.
struct InMemoryTransport<Sink: CommandSink> {
    dispatcher: Dispatcher<Sink>,
    running: bool,
}

impl<Sink: CommandSink> InMemoryTransport<Sink> {
    fn new(dispatcher: Dispatcher<Sink>) -> (transport: Self)
        ensures
            transport.dispatcher == dispatcher,
            !transport.running,
    {
        InMemoryTransport { dispatcher, running: false }
    }
}

impl<Sink: CommandSink + Send> ClientTransport for InMemoryTransport<Sink> {
    closed spec fn is_direct(&self) -> bool {
        true
    }

    closed spec fn state(&self) -> TransportState {
        TransportState {
            running: self.running,
            dispatcher: self.dispatcher@,
            unread: Seq::empty(),
        }
    }

    fn connect(&mut self) -> (out: Result<(), ClientError>) {
        Ok(())
    }

    fn set_tick_rate(&mut self, tick_rate: u64) -> (out: Result<(), ClientError>) {
        self.dispatcher.set_tick_rate(tick_rate);
        Ok(())
    }

    fn enqueue_command(&mut self, timestamp: u64, command: String) -> (out: Result<
        (),
        ClientError,
    >) {
        self.dispatcher.enqueue(timestamp, command);
        if self.running {
            self.dispatcher.advance_to(timestamp);
        }
        Ok(())
    }

    fn start(&mut self) -> (out: Result<(), ClientError>) {
        self.running = true;
        Ok(())
    }

    fn stop(&mut self) -> (out: Result<(), ClientError>) {
        self.running = false;
        Ok(())
    }
}

/// A transport that reads commands from pipe input.
struct PipeTransport<Sink: CommandSink> {
    dispatcher: Dispatcher<Sink>,
    reads: Vec<Result<String, std::io::Error>>,
    running: bool,
}

impl<Sink: CommandSink> PipeTransport<Sink> {
    fn new(
        dispatcher: Dispatcher<Sink>,
        reads: Vec<Result<String, std::io::Error>>,
    ) -> (transport: Self)
        ensures
            transport.dispatcher == dispatcher,
            transport.reads == reads,
            !transport.running,
    {
        PipeTransport { dispatcher, reads, running: false }
    }
}

impl<Sink: CommandSink + Send> ClientTransport for PipeTransport<Sink> {
    closed spec fn is_direct(&self) -> bool {
        true
    }

    closed spec fn state(&self) -> TransportState {
        TransportState {
            running: self.running,
            dispatcher: self.dispatcher@,
            unread: self.reads@,
        }
    }

    fn connect(&mut self) -> (out: Result<(), ClientError>) {
        Ok(())
    }

    fn set_tick_rate(&mut self, tick_rate: u64) -> (out: Result<(), ClientError>) {
        self.dispatcher.set_tick_rate(tick_rate);
        Ok(())
    }

    fn enqueue_command(&mut self, timestamp: u64, command: String) -> (out: Result<
        (),
        ClientError,
    >) {
        self.dispatcher.enqueue(timestamp, command);
        if self.running {
            self.dispatcher.advance_to(timestamp);
        }
        Ok(())
    }

    fn start(&mut self) -> (out: Result<(), ClientError>) {
        self.running = true;
        loop
            invariant
                self.running,
                self.state().can_start(),
                self.state().read_through() == old(self).state().started(),
            decreases self.reads@.len(),
        {
            if self.reads.len() == 0 {
                return Ok(());
            }
            proof {
                let needed = ticks_needed(self.reads@);
                let rate = self.dispatcher@.rate;
                if needed > 0 {
                    let left = (needed - 1) as nat;
                    assert(needed * rate == rate + left * rate && left * rate >= 0)
                        by (nonlinear_arith)
                        requires
                            needed == left + 1,
                    ;
                }
                assert(self.reads@.remove(0) == self.reads@.drop_first());
            }
            match self.reads.remove(0) {
                Ok(line) => {
                    let taken = feed_line(&mut self.dispatcher, line.as_str());
                    if taken.is_err() {
                        return taken;
                    }
                },
                Err(error) => {
                    return Err(ClientError::from(error));
                },
            }
        }
    }

    fn stop(&mut self) -> (out: Result<(), ClientError>) {
        self.running = false;
        Ok(())
    }
}

/// Feeds one line of pipe input to a dispatcher: queues its command and ticks once.
/// A blank line does nothing, and neither does one that does not parse.
pub fn feed_line<Sink: CommandSink>(dispatcher: &mut Dispatcher<Sink>, line: &str) -> (out: Result<
    (),
    ClientError,
>)
    requires
        fed_line(line@) matches Ok(Some(_)) ==> old(dispatcher)@.can_step(old(dispatcher)@.rate),
    ensures
        match fed_line(line@) {
            Ok(command) => out is Ok && final(dispatcher)@ == fed(old(dispatcher)@, command),
            Err(fault) => {
                &&& TransportState::ends_with(out, Some(ReadFault::Line(fault)))
                &&& final(dispatcher)@ == old(dispatcher)@
            },
        },
        old(dispatcher)@.valid() ==> final(dispatcher)@.valid(),
{
    if text::trimmed(line).is_empty() {
        return Ok(());
    }
    match dispatcher.enqueue_from_pipe(text::without_line_end(line)) {
        Ok(()) => {
            dispatcher.tick();
            Ok(())
        },
        Err(error) => Err(ClientError::from(error)),
    }
}

/// How many ticks pipe input takes when it is read through.
pub fn count_ticks(reads: &Vec<Result<String, std::io::Error>>) -> (ticks: u64)
    ensures
        ticks == ticks_needed(reads@),
{
    let mut ticks: u64 = 0;
    let mut at: usize = 0;
    assert(reads@.skip(0) == reads@);
    while at < reads.len()
        invariant
            ticks <= at <= reads.len(),
            ticks + ticks_needed(reads@.skip(at as int)) == ticks_needed(reads@),
        decreases reads.len() - at,
    {
        assert(reads@.skip(at as int).first() == reads@[at as int]);
        assert(reads@.skip(at as int).drop_first() == reads@.skip(at + 1));
        match &reads[at] {
            Ok(line) => {
                if !text::trimmed(line.as_str()).is_empty() {
                    match pipe::parse_pipe_line(text::without_line_end(line.as_str())) {
                        Ok(_) => {
                            ticks = ticks + 1;
                        },
                        Err(_) => {
                            return ticks;
                        },
                    }
                }
            },
            Err(_) => {
                return ticks;
            },
        }
        at = at + 1;
    }
    ticks
}

// ---------------------------------------------------------------------------
// Laws
// ---------------------------------------------------------------------------

/// A start that meets no fault reads all of the input and ticks once per command.
/// One that does leaves unread what comes behind the fault. Either way the
/// transport runs, and neither the rate changes nor does time go back.
pub proof fn start_reads_through(state: TransportState)
    requires
        state.can_start(),
    ensures
        ({
            let (after, fault) = state.started();
            &&& after.running
            &&& after.dispatcher.rate == state.dispatcher.rate
            &&& after.dispatcher.now == state.dispatcher.now + ticks_needed(state.unread)
                * state.dispatcher.rate
            &&& fault is None ==> after.unread.len() == 0
            &&& after.unread == state.unread.skip(state.unread.len() - after.unread.len())
        }),
{
    lemma_read_through(TransportState { running: true, ..state });
}

proof fn lemma_read_through(state: TransportState)
    requires
        state.can_start(),
    ensures
        ({
            let (after, fault) = state.read_through();
            &&& after.running == state.running
            &&& after.dispatcher.rate == state.dispatcher.rate
            &&& after.dispatcher.now == state.dispatcher.now + ticks_needed(state.unread)
                * state.dispatcher.rate
            &&& fault is None ==> after.unread.len() == 0
            &&& after.unread.len() <= state.unread.len()
            &&& after.unread == state.unread.skip(state.unread.len() - after.unread.len())
        }),
    decreases state.unread.len(),
{
    let unread = state.unread;
    let rate = state.dispatcher.rate;
    let needed = ticks_needed(unread);
    assert(needed == 0 ==> needed * rate == 0) by (nonlinear_arith);
    if unread.len() == 0 {
        assert(unread.skip(0) == unread);
    } else {
        let rest = unread.drop_first();
        if let Ok(command) = fed_read(unread.first()) {
            let next = TransportState {
                dispatcher: fed(state.dispatcher, command),
                unread: rest,
                ..state
            };
            let left = ticks_needed(rest);
            assert(needed == 1 + left ==> needed * rate == rate + left * rate) by (nonlinear_arith);
            assert(left * rate >= 0) by (nonlinear_arith);
            lemma_read_through(next);
            let after = next.read_through().0;
            assert(after.unread == unread.skip(unread.len() - after.unread.len()));
        }
    }
}

/// Reading input in two parts is reading it at once, unless the first part meets a
/// fault.
pub proof fn reading_in_parts(
    state: TransportState,
    first: Seq<Result<String, std::io::Error>>,
    second: Seq<Result<String, std::io::Error>>,
)
    requires
        (TransportState { unread: first, ..state }).read_through().1 is None,
    ensures
        (TransportState { unread: first + second, ..state }).read_through() == (TransportState {
            unread: second,
            ..(TransportState { unread: first, ..state }).read_through().0
        }).read_through(),
    decreases first.len(),
{
    if first.len() == 0 {
        assert(first + second == second);
    } else {
        let both = first + second;
        assert(both.first() == first.first());
        assert(both.drop_first() == first.drop_first() + second);
        let command = fed_read(first.first())->Ok_0;
        let next = TransportState { dispatcher: fed(state.dispatcher, command), ..state };
        reading_in_parts(next, first.drop_first(), second);
    }
}

/// A transport that is not running only queues: time stands still and nothing runs.
pub proof fn stopped_transport_only_queues(state: TransportState, command: CommandView)
    requires
        !state.running,
    ensures
        state.with_command(command).dispatcher == state.dispatcher.enqueued(command),
        state.with_command(command).dispatcher.now == state.dispatcher.now,
        state.with_command(command).dispatcher.calls == state.dispatcher.calls,
{
}

/// A running transport leaves nothing pending that is due by a command's timestamp,
/// the command itself included.
pub proof fn running_transport_runs_the_command(state: TransportState, command: CommandView)
    requires
        state.running,
        state.dispatcher.valid(),
    ensures
        ({
            let after = state.with_command(command).dispatcher;
            &&& after.now >= command.timestamp
            &&& forall|i: int|
                0 <= i < after.pending.len() ==> (#[trigger] after.pending[i]).timestamp
                    > command.timestamp
        }),
{
    let queued = state.dispatcher.enqueued(command);
    dispatcher::operations_keep_validity(state.dispatcher, 0, command, 0);
    dispatcher::dispatch_runs_what_is_due(
        queued,
        crate::clock::moved_to(queued.now, command.timestamp),
    );
}

/// Whatever a transport is told to do, its dispatcher stays valid.
pub proof fn transports_keep_validity(state: TransportState, command: CommandView, rate: u64)
    requires
        state.dispatcher.valid(),
        rate > 0,
    ensures
        state.with_rate(rate).dispatcher.valid(),
        state.with_command(command).dispatcher.valid(),
        state.started().0.dispatcher.valid(),
{
    dispatcher::operations_keep_validity(state.dispatcher, 0, command, 0);
    let queued = state.dispatcher.enqueued(command);
    let target = crate::clock::moved_to(queued.now, command.timestamp);
    dispatcher::operations_keep_validity(queued, target, command, 0);
    lemma_reading_keeps_validity(TransportState { running: true, ..state });
}

proof fn lemma_reading_keeps_validity(state: TransportState)
    requires
        state.dispatcher.valid(),
    ensures
        state.read_through().0.dispatcher.valid(),
    decreases state.unread.len(),
{
    if state.unread.len() > 0 {
        if let Ok(command) = fed_read(state.unread.first()) {
            let next = TransportState {
                dispatcher: fed(state.dispatcher, command),
                unread: state.unread.drop_first(),
                ..state
            };
            if let Some(command) = command {
                let queued = state.dispatcher.enqueued(command);
                dispatcher::operations_keep_validity(state.dispatcher, 0, command, 0);
                dispatcher::operations_keep_validity(
                    queued,
                    (queued.now + queued.rate) as u64,
                    command,
                    0,
                );
            }
            lemma_reading_keeps_validity(next);
        }
    }
}

/// The commands of pipe input, line by line, up to the first read that failed or the
/// first line that is neither blank nor in the pipe format.
pub open spec fn commands_read(reads: Seq<Result<String, std::io::Error>>) -> Seq<CommandView>
    decreases reads.len(),
{
    if reads.len() == 0 {
        Seq::empty()
    } else {
        match reads[0] {
            Err(_) => Seq::empty(),
            Ok(line) => if text::trim(line@).len() == 0 {
                commands_read(reads.drop_first())
            } else {
                match pipe::pipe_line(text::trim_line_end(line@)) {
                    Err(_) => Seq::empty(),
                    Ok(command) => seq![command] + commands_read(reads.drop_first()),
                }
            },
        }
    }
}

/// Reading pipe input through loses no command and makes none up: those that ran and
/// those that are pending afterwards are those from before and those of the input, up to
/// its first fault. Every one of them takes one tick.
pub proof fn reading_conserves_commands(state: TransportState)
    ensures
        dispatcher::all_commands(state.started().0.dispatcher) == dispatcher::all_commands(
            state.dispatcher,
        ).add(commands_read(state.unread).to_multiset()),
        ticks_needed(state.unread) == commands_read(state.unread).len(),
        state.can_start() ==> state.started().0.dispatcher.now == state.dispatcher.now
            + commands_read(state.unread).len() * state.dispatcher.rate,
{
    lemma_reading_conserves(TransportState { running: true, ..state });
    if state.can_start() {
        start_reads_through(state);
    }
}

proof fn lemma_reading_conserves(state: TransportState)
    ensures
        dispatcher::all_commands(state.read_through().0.dispatcher) == dispatcher::all_commands(
            state.dispatcher,
        ).add(commands_read(state.unread).to_multiset()),
        ticks_needed(state.unread) == commands_read(state.unread).len(),
    decreases state.unread.len(),
{
    broadcast use vstd::seq_lib::group_to_multiset_ensures;

    let reads = state.unread;
    let goal = dispatcher::all_commands(state.dispatcher).add(commands_read(reads).to_multiset());
    if reads.len() > 0 {
        if let Ok(command) = fed_read(reads.first()) {
            let rest = reads.drop_first();
            let next = TransportState {
                dispatcher: fed(state.dispatcher, command),
                unread: rest,
                ..state
            };
            lemma_reading_conserves(next);
            if let Some(command) = command {
                let queued = state.dispatcher.enqueued(command);
                dispatcher::commands_are_conserved(state.dispatcher, command, 0, 0, 0, 0);
                dispatcher::commands_are_conserved(queued, command, 0, 0, 0, 0);
                vstd::seq_lib::lemma_multiset_commutative(seq![command], commands_read(rest));
                assert(seq![command] =~= Seq::empty().push(command));
            }
        }
    }
    assert(dispatcher::all_commands(state.read_through().0.dispatcher) =~= goal);
}

/// One line of input with a command queues just that command and ticks once, so that
/// what is due by then runs. A blank line does nothing.
pub proof fn lines_queue_and_tick(state: DispatcherState, command: CommandView)
    requires
        state.can_step(state.rate),
    ensures
        fed(state, None) == state,
        dispatcher::all_commands(fed(state, Some(command))) == dispatcher::all_commands(
            state,
        ).insert(command),
        dispatcher::settled(state, fed(state, Some(command)), state.now + state.rate),
        dispatcher::published(fed(state, Some(command)).calls) == dispatcher::published(
            state.calls,
        ).push(state.now + state.rate),
        state.valid() ==> fed(state, Some(command)).valid(),
{
    let queued = state.enqueued(command);
    dispatcher::commands_are_conserved(state, command, 0, 0, 0, 0);
    dispatcher::commands_are_conserved(queued, command, 0, 0, 0, 0);
    dispatcher::due_commands_run_at_once(queued, 0, 0);
    assert(queued.rate * 1 == queued.rate) by (nonlinear_arith);
    dispatcher::every_tick_is_published(queued, 1);
    dispatcher::one_tick(queued);
    assert(dispatcher::published(fed(state, Some(command)).calls) =~= dispatcher::published(
        state.calls,
    ).push(state.now + state.rate));
    if state.valid() {
        dispatcher::operations_keep_validity(state, 0, command, 0);
        dispatcher::operations_keep_validity(
            queued,
            (queued.now + queued.rate) as u64,
            command,
            0,
        );
    }
}

/// What a line of input asks for: nothing where it is blank, and else what it says in the
/// pipe format without the end of the line.
pub proof fn what_lines_ask_for(body: Seq<char>, ends: Seq<char>)
    requires
        body.len() > 0 && !text::is_white(body[body.len() - 1]),
        forall|i: int| 0 <= i < ends.len() ==> #[trigger] ends[i] == '\r' || ends[i] == '\n',
    ensures
        fed_line(ends) == Ok::<Option<CommandView>, LineFault>(None),
        pipe::pipe_line(body) matches Ok(command) ==> fed_line(body + ends) == Ok::<
            Option<CommandView>,
            LineFault,
        >(Some(command)),
        pipe::pipe_line(body) matches Err(fault) ==> fed_line(body + ends) == Err::<
            Option<CommandView>,
            LineFault,
        >(fault),
{
    text::line_ends_are_taken_off(body, ends);
    assert(text::all_white(ends));
    text::trim_finds_the_bare_text(Seq::empty(), Seq::empty(), ends);
    assert(Seq::<char>::empty() + Seq::<char>::empty() + ends =~= ends);
    lemma_trim_keeps_some(body, ends);
}

proof fn lemma_trim_keeps_some(body: Seq<char>, ends: Seq<char>)
    requires
        body.len() > 0 && !text::is_white(body[body.len() - 1]),
        text::all_white(ends),
    ensures
        text::trim(body + ends).len() > 0,
    decreases body.len(),
{
    if text::is_white(body[0]) {
        let shorter = body.drop_first();
        assert(body.len() > 1);
        assert(shorter[shorter.len() - 1] == body[body.len() - 1]);
        assert((body + ends).drop_first() =~= shorter + ends);
        assert((body + ends).first() == body[0]);
        lemma_trim_keeps_some(shorter, ends);
    } else {
        text::trim_finds_the_bare_text(Seq::empty(), body, ends);
        assert(Seq::<char>::empty() + body + ends =~= body + ends);
    }
}

/// A line of whitespace asks for nothing.
pub proof fn blank_lines_ask_for_nothing(line: Seq<char>)
    requires
        text::all_white(line),
    ensures
        fed_line(line) == Ok::<Option<CommandView>, LineFault>(None),
{
    text::trim_finds_the_bare_text(line, Seq::empty(), Seq::empty());
    assert(line + Seq::<char>::empty() + Seq::<char>::empty() =~= line);
}

/// A start fails exactly where a read failed or a line is neither blank nor in the pipe
/// format, and then with what is wrong there: all reads before it are good, and the one
/// behind it is the next unread.
pub proof fn the_first_fault_ends_a_start(
    state: TransportState,
    good: Seq<Result<String, std::io::Error>>,
    bad: Result<String, std::io::Error>,
    rest: Seq<Result<String, std::io::Error>>,
)
    requires
        state.unread == good + seq![bad] + rest,
        forall|i: int| 0 <= i < good.len() ==> fed_read(#[trigger] good[i]) is Ok,
    ensures
        bad matches Err(error) ==> state.started().1 == Some(ReadFault::Read(error))
            && state.started().0.unread == rest,
        bad matches Ok(line) ==> (fed_line(line@) matches Err(fault) ==> state.started().1 == Some(
            ReadFault::Line(fault),
        ) && state.started().0.unread == rest),
        (TransportState { unread: good, ..state }).started().1 is None,
{
    lemma_first_fault(TransportState { running: true, ..state }, good, bad, rest);
}

proof fn lemma_first_fault(
    state: TransportState,
    good: Seq<Result<String, std::io::Error>>,
    bad: Result<String, std::io::Error>,
    rest: Seq<Result<String, std::io::Error>>,
)
    requires
        state.unread == good + seq![bad] + rest,
        forall|i: int| 0 <= i < good.len() ==> fed_read(#[trigger] good[i]) is Ok,
    ensures
        fed_read(bad) matches Err(fault) ==> state.read_through().1 == Some(fault)
            && state.read_through().0.unread == rest,
        (TransportState { unread: good, ..state }).read_through().1 is None,
    decreases good.len(),
{
    if good.len() == 0 {
        assert(state.unread.first() == bad);
        assert(state.unread.drop_first() =~= rest);
    } else {
        let shorter = good.drop_first();
        assert forall|i: int| 0 <= i < shorter.len() implies fed_read(
            #[trigger] shorter[i],
        ) is Ok by {
            assert(shorter[i] == good[i + 1]);
        }
        assert(fed_read(good[0]) is Ok);
        assert(state.unread.first() == good[0]);
        assert(state.unread.drop_first() =~= shorter + seq![bad] + rest);
        let next = TransportState {
            dispatcher: fed(state.dispatcher, fed_read(good[0])->Ok_0),
            unread: shorter + seq![bad] + rest,
            ..state
        };
        lemma_first_fault(next, shorter, bad, rest);
    }
}

/// A start without input changes nothing but that the transport runs.
pub proof fn start_without_input(state: TransportState)
    requires
        state.unread.len() == 0,
    ensures
        state.started().1 is None,
        state.started().0.running,
        state.started().0.dispatcher == state.dispatcher,
        state.started().0.unread.len() == 0,
{
}

/// A start keeps the sink calls orderly.
pub proof fn starts_keep_calls_orderly(state: TransportState)
    requires
        state.can_start(),
        dispatcher::orderly(state.dispatcher.calls, state.dispatcher.now),
    ensures
        dispatcher::orderly(state.started().0.dispatcher.calls, state.started().0.dispatcher.now),
{
    lemma_reading_stays_orderly(TransportState { running: true, ..state });
}

proof fn lemma_reading_stays_orderly(state: TransportState)
    requires
        state.can_start(),
        dispatcher::orderly(state.dispatcher.calls, state.dispatcher.now),
    ensures
        dispatcher::orderly(
            state.read_through().0.dispatcher.calls,
            state.read_through().0.dispatcher.now,
        ),
    decreases state.unread.len(),
{
    let unread = state.unread;
    let rate = state.dispatcher.rate;
    let needed = ticks_needed(unread);
    if unread.len() > 0 {
        if let Ok(command) = fed_read(unread.first()) {
            let rest = unread.drop_first();
            let left = ticks_needed(rest);
            assert(needed == 1 + left ==> needed * rate == rate + left * rate) by (nonlinear_arith);
            assert(left * rate >= 0) by (nonlinear_arith);
            let next = TransportState {
                dispatcher: fed(state.dispatcher, command),
                unread: rest,
                ..state
            };
            if let Some(command) = command {
                let queued = state.dispatcher.enqueued(command);
                dispatcher::calls_stay_orderly(queued, rate, 0, 0, command);
            }
            lemma_reading_stays_orderly(next);
        }
    }
}

/// Whatever a transport does, no command is lost: a command queued is one more, run or
/// pending, and a running transport moves time to its timestamp unless that is over.
/// What is unread and whether the transport runs stay.
pub proof fn transports_conserve_commands(state: TransportState, command: CommandView, rate: u64)
    ensures
        ({
            let after = state.with_command(command);
            &&& dispatcher::all_commands(after.dispatcher) == dispatcher::all_commands(
                state.dispatcher,
            ).insert(command)
            &&& after.running == state.running
            &&& after.unread == state.unread
            &&& after.dispatcher.rate == state.dispatcher.rate
            &&& !state.running ==> after.dispatcher.now == state.dispatcher.now
            &&& state.running ==> dispatcher::settled(
                state.dispatcher,
                after.dispatcher,
                if command.timestamp > state.dispatcher.now {
                    command.timestamp as int
                } else {
                    state.dispatcher.now as int
                },
            )
        }),
        ({
            let after = state.with_rate(rate);
            &&& after.dispatcher.rate == rate
            &&& after.dispatcher.now == state.dispatcher.now
            &&& after.dispatcher.pending == state.dispatcher.pending
            &&& after.dispatcher.calls == state.dispatcher.calls
            &&& after.running == state.running
            &&& after.unread == state.unread
        }),
{
    let queued = state.dispatcher.enqueued(command);
    let target = command.timestamp;
    dispatcher::commands_are_conserved(state.dispatcher, command, 0, 0, target, 0);
    dispatcher::commands_are_conserved(queued, command, 0, 0, target, 0);
    dispatcher::due_commands_run_at_once(queued, 0, target);
}

/// How a start ends is told by its fault: well without one, with a parse error that
/// reports the line's fault, or with the error of the read.
pub proof fn faults_are_reported(
    out: Result<(), ClientError>,
    fault: LineFault,
    error: std::io::Error,
)
    ensures
        TransportState::ends_with(out, None) <==> out is Ok,
        TransportState::ends_with(out, Some(ReadFault::Line(fault))) ==> (out matches Err(
            ClientError::Pipe(found),
        ) && found.reports(fault)),
        TransportState::ends_with(out, Some(ReadFault::Read(error))) ==> (out matches Err(
            ClientError::Io(found),
        ) && found == error),
{
}

/// A start stays within the range of timestamps exactly when the ticks of all commands
/// that it reads do.
pub proof fn what_a_start_needs(state: TransportState)
    ensures
        state.can_start() <==> state.dispatcher.now + commands_read(state.unread).len()
            * state.dispatcher.rate <= u64::MAX,
{
    lemma_reading_conserves(state);
}

}
