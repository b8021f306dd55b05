//! Coordination of simulated time, queueing and execution.

use vstd::multiset::Multiset;
use vstd::prelude::*;

use crate::clock::{self, SimClock};
use crate::command::CommandPayload;
use crate::pipe::{self, parse_pipe_line, PipeParseError};
use crate::scheduler::{self, CommandScheduler, CommandView, ScheduledCommand};

verus! {

/// One call that a dispatcher makes on its sink.
pub enum SinkCall {
    /// The simulated time was published.
    Published(u64),
    /// A command was handed over for execution.
    Executed(CommandView),
}

/// A consumer of time updates and of commands that are due.
pub trait CommandSink {
    /// The calls that the sink has taken so far, in order. A sink that Verus reads says
    /// what they are; one that it does not read need not.
    open spec fn calls(&self) -> Seq<SinkCall> {
        arbitrary()
    }

    /// Called whenever the dispatcher publishes a simulated timestamp.
    fn publish_time(&mut self, time: u64)
        ensures
            final(self).calls() == old(self).calls().push(SinkCall::Published(time)),
    ;

    /// Called when a command is due at the current time.
    fn execute(&mut self, command: &ScheduledCommand)
        ensures
            final(self).calls() == old(self).calls().push(SinkCall::Executed(command@)),
    ;
}

/// A dispatcher as plain values.
#[verifier::ext_equal]
pub struct DispatcherState {
    /// The simulated time.
    pub now: u64,
    /// By how much one tick advances it.
    pub rate: u64,
    /// The pending commands in the order in which they run.
    pub pending: Seq<CommandView>,
    /// The calls made on the sink so far.
    pub calls: Seq<SinkCall>,
}

impl DispatcherState {
    /// The state of every dispatcher: ticks advance time, and the pending commands
    /// stand in the order in which they run.
    pub open spec fn valid(self) -> bool {
        self.rate > 0 && scheduler::in_run_order(self.pending)
    }

    /// One more pending command.
    pub open spec fn enqueued(self, command: CommandView) -> DispatcherState {
        DispatcherState { pending: scheduler::put(self.pending, command), ..self }
    }

    /// The time set to `now` and published, and every command run that is due then.
    pub open spec fn dispatched(self, now: u64) -> DispatcherState {
        DispatcherState {
            now,
            pending: scheduler::waiting(self.pending, now),
            calls: self.calls.push(SinkCall::Published(now)) + executions(
                scheduler::ready(self.pending, now),
            ),
            ..self
        }
    }

    /// Time advanced by `delta`.
    pub open spec fn stepped(self, delta: u64) -> DispatcherState {
        self.dispatched((self.now + delta) as u64)
    }

    /// Time moved forward to `target`.
    pub open spec fn advanced(self, target: u64) -> DispatcherState {
        self.dispatched(clock::moved_to(self.now, target))
    }

    /// One tick at the current rate.
    pub open spec fn ticked(self) -> DispatcherState {
        self.stepped(self.rate)
    }

    /// A number of ticks at the current rate.
    pub open spec fn ran(self, ticks: nat) -> DispatcherState
        decreases ticks,
    {
        if ticks == 0 {
            self
        } else {
            self.ran((ticks - 1) as nat).ticked()
        }
    }

    /// Whether a step by `delta` stays within the range of timestamps.
    pub open spec fn can_step(self, delta: u64) -> bool {
        self.now + delta <= u64::MAX
    }

    /// Whether a number of ticks stays within the range of timestamps.
    pub open spec fn can_run(self, ticks: nat) -> bool {
        self.now + ticks * self.rate <= u64::MAX
    }
}

/// The sink calls that run a list of commands.
pub open spec fn executions(commands: Seq<CommandView>) -> Seq<SinkCall> {
    commands.map_values(|c: CommandView| SinkCall::Executed(c))
}

/// Drives simulated time: keeps the queue of commands, publishes every change of
/// the clock to its sink and hands it the commands that are due.
#[derive(Debug)]
pub struct Dispatcher<Sink: CommandSink> {
    clock: SimClock,
    tick_rate: u64,
    scheduler: CommandScheduler,
    sink: Sink,
}

impl<Sink: CommandSink> View for Dispatcher<Sink> {
    type V = DispatcherState;

    closed spec fn view(&self) -> DispatcherState {
        DispatcherState {
            now: self.clock@,
            rate: self.tick_rate,
            pending: self.scheduler@,
            calls: self.sink.calls(),
        }
    }
}

impl<Sink: CommandSink> Dispatcher<Sink> {
    /// A dispatcher whose clock starts at `start_time` and ticks by `tick_rate`.
    pub fn new_with_tick_rate(sink: Sink, start_time: u64, tick_rate: u64) -> (dispatcher: Self)
        requires
            tick_rate > 0,
        ensures
            dispatcher@ == (DispatcherState {
                now: start_time,
                rate: tick_rate,
                pending: Seq::empty(),
                calls: sink.calls(),
            }),
            dispatcher@.valid(),
    {
        proof {
            scheduler::empty_queue_in_run_order();
        }
        Dispatcher {
            clock: SimClock::new(start_time),
            tick_rate,
            scheduler: CommandScheduler::new(),
            sink,
        }
    }

    /// A dispatcher whose clock starts at `start_time` and ticks by one.
    pub fn new_with_clock(sink: Sink, start_time: u64) -> (dispatcher: Self)
        ensures
            dispatcher@ == (DispatcherState {
                now: start_time,
                rate: 1,
                pending: Seq::empty(),
                calls: sink.calls(),
            }),
            dispatcher@.valid(),
    {
        Dispatcher::new_with_tick_rate(sink, start_time, 1)
    }

    /// A dispatcher whose clock starts at zero and ticks by one.
    pub fn new(sink: Sink) -> (dispatcher: Self)
        ensures
            dispatcher@ == (DispatcherState {
                now: 0,
                rate: 1,
                pending: Seq::empty(),
                calls: sink.calls(),
            }),
            dispatcher@.valid(),
    {
        Dispatcher::new_with_clock(sink, 0)
    }

    /// Queues a command for execution at `timestamp`.
    pub fn enqueue(&mut self, timestamp: u64, command: String)
        ensures
            final(self)@ == old(self)@.enqueued(CommandView { timestamp, command: command@ }),
            old(self)@.valid() ==> final(self)@.valid(),
    {
        self.enqueue_payload(timestamp, CommandPayload::Raw(command));
    }

    /// Queues a command payload for execution at `timestamp`.
    pub fn enqueue_payload(&mut self, timestamp: u64, command: CommandPayload)
        ensures
            final(self)@ == old(self)@.enqueued(CommandView { timestamp, command: command@ }),
            old(self)@.valid() ==> final(self)@.valid(),
    {
        self.scheduler.schedule(timestamp, command);
    }

    /// Parses a line in the pipe format and queues its command. A line that does not
    /// parse changes nothing.
    pub fn enqueue_from_pipe(&mut self, line: &str) -> (out: Result<(), PipeParseError>)
        ensures
            match pipe::pipe_line(line@) {
                Ok(command) => out is Ok && final(self)@ == old(self)@.enqueued(command),
                Err(fault) => out matches Err(error) && error.reports(fault) && final(self)@ == old(
                    self,
                )@,
            },
            old(self)@.valid() ==> final(self)@.valid(),
    {
        match parse_pipe_line(line) {
            Ok(parsed) => {
                self.enqueue_payload(parsed.timestamp, parsed.command);
                Ok(())
            },
            Err(error) => Err(error),
        }
    }

    /// Advances simulated time by `delta` and runs what is due.
    pub fn step(&mut self, delta: u64)
        requires
            old(self)@.can_step(delta),
        ensures
            final(self)@ == old(self)@.stepped(delta),
            scheduler::in_run_order(old(self)@.pending),
            old(self)@.valid() ==> final(self)@.valid(),
    {
        self.clock.step(delta);
        self.publish_and_dispatch();
    }

    /// Moves simulated time forward to `target` and runs what is due. An earlier
    /// `target` leaves the time as it is, and it is published all the same.
    pub fn advance_to(&mut self, target: u64)
        ensures
            final(self)@ == old(self)@.advanced(target),
            scheduler::in_run_order(old(self)@.pending),
            old(self)@.valid() ==> final(self)@.valid(),
    {
        self.clock.advance_to(target);
        self.publish_and_dispatch();
    }

    /// Advances simulated time by one tick at the current rate.
    pub fn tick(&mut self)
        requires
            old(self)@.can_step(old(self)@.rate),
        ensures
            final(self)@ == old(self)@.ticked(),
            scheduler::in_run_order(old(self)@.pending),
            old(self)@.valid() ==> final(self)@.valid(),
    {
        let delta: u64 = self.tick_rate;
        self.step(delta);
    }

    /// Runs a number of ticks, one after the other.
    pub fn run_for_ticks(&mut self, ticks: u64)
        requires
            old(self)@.can_run(ticks as nat),
        ensures
            final(self)@ == old(self)@.ran(ticks as nat),
            old(self)@.valid() ==> final(self)@.valid(),
    {
        let ghost start = self@;
        let mut done: u64 = 0;
        while done < ticks
            invariant
                done <= ticks,
                start.can_run(ticks as nat),
                self@ == start.ran(done as nat),
                self@.rate == start.rate,
                self@.now == start.now + done * start.rate,
                start.valid() ==> self@.valid(),
            decreases ticks - done,
        {
            assert((done + 1) * start.rate <= ticks * start.rate) by (nonlinear_arith)
                requires
                    done < ticks,
            ;
            assert((done + 1) * start.rate == done * start.rate + start.rate) by (nonlinear_arith);
            self.tick();
            done = done + 1;
        }
    }

    /// Sets by how much one tick advances simulated time.
    pub fn set_tick_rate(&mut self, tick_rate: u64)
        requires
            tick_rate > 0,
        ensures
            final(self)@ == (DispatcherState { rate: tick_rate, ..old(self)@ }),
            old(self)@.valid() ==> final(self)@.valid(),
    {
        self.tick_rate = tick_rate;
    }

    /// By how much one tick advances simulated time.
    pub fn tick_rate(&self) -> (rate: u64)
        ensures
            rate == self@.rate,
    {
        self.tick_rate
    }

    /// The current simulated timestamp.
    pub fn now(&self) -> (time: u64)
        ensures
            time == self@.now,
    {
        self.clock.now()
    }

    /// Whether a step by `delta` stays within the range of timestamps.
    pub fn can_step(&self, delta: u64) -> (fits: bool)
        ensures
            fits == self@.can_step(delta),
    {
        self.clock.can_step(delta)
    }

    /// Whether a number of ticks stays within the range of timestamps.
    pub fn can_run(&self, ticks: u64) -> (fits: bool)
        ensures
            fits == self@.can_run(ticks as nat),
    {
        match ticks.checked_mul(self.tick_rate) {
            Some(delta) => self.clock.can_step(delta),
            None => false,
        }
    }

    /// The sink that the dispatcher drives.
    pub fn sink(&self) -> (sink: &Sink)
        ensures
            sink.calls() == self@.calls,
    {
        &self.sink
    }

    /// Publishes the current time and runs what is due.
    fn publish_and_dispatch(&mut self)
        ensures
            final(self)@ == old(self)@.dispatched(old(self)@.now),
            scheduler::in_run_order(old(self)@.pending),
            old(self)@.valid() ==> final(self)@.valid(),
    {
        let now: u64 = self.clock.now();
        let ghost start = self@;
        self.sink.publish_time(now);
        let due = self.scheduler.drain_ready(now);
        let mut at: usize = 0;
        assert(executions(scheduler::views(due@).take(0)) == Seq::<SinkCall>::empty());
        while at < due.len()
            invariant
                at <= due.len(),
                scheduler::views(due@) == scheduler::ready(start.pending, now),
                self@ == (DispatcherState {
                    now,
                    rate: start.rate,
                    pending: scheduler::waiting(start.pending, now),
                    calls: start.calls.push(SinkCall::Published(now)) + executions(
                        scheduler::views(due@).take(at as int),
                    ),
                }),
            decreases due.len() - at,
        {
            let ghost done = scheduler::views(due@).take(at as int);
            self.sink.execute(&due[at]);
            at = at + 1;
            assert(executions(scheduler::views(due@).take(at as int)) == executions(done).push(
                SinkCall::Executed(due@[at - 1]@),
            ));
        }
        assert(scheduler::views(due@).take(at as int) == scheduler::views(due@));
    }
}

// ---------------------------------------------------------------------------
// Laws
// ---------------------------------------------------------------------------

/// The sink calls that a dispatcher made so far are in order: the published times
/// never go back, none is ahead of `now`, and every command ran after a time was
/// published that had reached its timestamp.
pub open spec fn orderly(calls: Seq<SinkCall>, now: u64) -> bool {
    &&& forall|i: int, j: int| 0 <= i <= j < calls.len() ==> times_in_order(calls[i], calls[j])
    &&& forall|i: int|
        0 <= i < calls.len() ==> (#[trigger] calls[i] matches SinkCall::Published(t) ==> t <= now)
    &&& forall|j: int|
        0 <= j < calls.len() ==> (#[trigger] calls[j] matches SinkCall::Executed(c)
            ==> exists|i: int| 0 <= i < j && reached(#[trigger] calls[i], c))
}

/// Where both calls publish a time, the first time is no later.
pub open spec fn times_in_order(a: SinkCall, b: SinkCall) -> bool {
    a matches SinkCall::Published(s) ==> b matches SinkCall::Published(t) ==> s <= t
}

/// Whether a call publishes a time that has reached a command's timestamp.
pub open spec fn reached(call: SinkCall, command: CommandView) -> bool {
    call matches SinkCall::Published(t) && command.timestamp <= t
}

/// Time never goes back, whatever a dispatcher is told to do, and no operation but
/// a change of the rate changes the rate.
pub proof fn time_never_goes_back(
    state: DispatcherState,
    delta: u64,
    target: u64,
    ticks: nat,
    command: CommandView,
)
    ensures
        state.enqueued(command).now == state.now,
        state.can_step(delta) ==> state.stepped(delta).now == state.now + delta,
        state.advanced(target).now >= state.now,
        state.advanced(target).now >= target,
        state.advanced(target).now == state.now || state.advanced(target).now == target,
        state.can_run(ticks) ==> state.ran(ticks).now == state.now + ticks * state.rate,
        state.ran(ticks).rate == state.rate,
        state.enqueued(command).rate == state.rate,
        state.stepped(delta).rate == state.rate,
        state.advanced(target).rate == state.rate,
    decreases ticks,
{
    if ticks > 0 {
        let fewer = (ticks - 1) as nat;
        assert(ticks * state.rate == fewer * state.rate + state.rate) by (nonlinear_arith)
            requires
                fewer == ticks - 1,
        ;
        time_never_goes_back(state, delta, target, fewer, command);
    }
}

/// Every operation keeps a dispatcher's state valid.
pub proof fn operations_keep_validity(
    state: DispatcherState,
    now: u64,
    command: CommandView,
    ticks: nat,
)
    requires
        state.valid(),
    ensures
        state.enqueued(command).valid(),
        state.dispatched(now).valid(),
        state.ran(ticks).valid(),
    decreases ticks,
{
    scheduler::put_keeps_run_order(state.pending, command);
    scheduler::ready_then_waiting(state.pending, now);
    if ticks > 0 {
        let fewer = (ticks - 1) as nat;
        operations_keep_validity(state, now, command, fewer);
        let before = state.ran(fewer);
        scheduler::ready_then_waiting(before.pending, (before.now + before.rate) as u64);
    }
}

/// A dispatch publishes the time first and then runs exactly the commands that are
/// due, in run order. What it leaves pending is not due yet, and no command is lost
/// or made up.
pub proof fn dispatch_runs_what_is_due(state: DispatcherState, now: u64)
    requires
        state.valid(),
    ensures
        ({
            let due = scheduler::ready(state.pending, now);
            let after = state.dispatched(now);
            &&& after.calls == state.calls + seq![SinkCall::Published(now)] + executions(due)
            &&& due.len() <= state.pending.len()
            &&& due == state.pending.take(due.len() as int)
            &&& after.pending == state.pending.skip(due.len() as int)
            &&& scheduler::in_run_order(due)
            &&& forall|i: int| 0 <= i < due.len() ==> (#[trigger] due[i]).timestamp <= now
            &&& forall|i: int|
                0 <= i < after.pending.len() ==> (#[trigger] after.pending[i]).timestamp > now
        }),
{
    let due = scheduler::ready(state.pending, now);
    let after = state.dispatched(now);
    assert(state.calls.push(SinkCall::Published(now)) == state.calls + seq![
        SinkCall::Published(now),
    ]);
    scheduler::ready_then_waiting(state.pending, now);
    scheduler::ready_means_due(state.pending, now);
}

/// Advancing in two parts runs the same commands in the same order, and leaves the
/// same commands pending, as advancing at once.
pub proof fn advancing_in_parts(state: DispatcherState, early: u64, late: u64)
    requires
        state.valid(),
        early <= late,
    ensures
        scheduler::ready(state.pending, early) + scheduler::ready(
            state.dispatched(early).pending,
            late,
        ) == scheduler::ready(state.pending, late),
        state.dispatched(early).dispatched(late).pending == state.dispatched(late).pending,
        state.dispatched(early).dispatched(late).now == state.dispatched(late).now,
        state.dispatched(early).dispatched(late).calls == state.calls.push(
            SinkCall::Published(early),
        ) + executions(scheduler::ready(state.pending, early)) + seq![SinkCall::Published(late)]
            + executions(scheduler::ready(scheduler::waiting(state.pending, early), late)),
{
    scheduler::draining_in_parts(state.pending, early, late);
    assert(state.dispatched(early).dispatched(late).calls =~= state.calls.push(
        SinkCall::Published(early),
    ) + executions(scheduler::ready(state.pending, early)) + seq![SinkCall::Published(late)]
        + executions(scheduler::ready(scheduler::waiting(state.pending, early), late)));
}

/// Running ticks in two parts is running them at once.
pub proof fn running_in_parts(state: DispatcherState, first: nat, second: nat)
    ensures
        state.ran(first).ran(second) == state.ran(first + second),
    decreases second,
{
    if second > 0 {
        running_in_parts(state, first, (second - 1) as nat);
    }
}

/// One tick is a step by the tick rate, and running one tick is a tick.
pub proof fn one_tick(state: DispatcherState)
    ensures
        state.ticked() == state.stepped(state.rate),
        state.ran(1) == state.ticked(),
{
    assert(state.ran(0) == state);
    assert(state.ran(1) == state.ran(0).ticked());
}

/// The order in which commands are queued does not matter.
pub proof fn enqueueing_commutes(state: DispatcherState, a: CommandView, b: CommandView)
    requires
        state.valid(),
    ensures
        state.enqueued(a).enqueued(b) == state.enqueued(b).enqueued(a),
{
    scheduler::put_commutes(state.pending, a, b);
}

/// Queueing adds the one command to the pending ones and calls nothing.
pub proof fn enqueueing_only_queues(state: DispatcherState, command: CommandView)
    ensures
        state.enqueued(command).calls == state.calls,
        state.enqueued(command).pending.to_multiset() == state.pending.to_multiset().insert(
            command,
        ),
{
    scheduler::put_adds_one(state.pending, command);
}

/// A dispatch at a time that is not behind the clock keeps the sink calls orderly.
pub proof fn dispatch_keeps_calls_orderly(state: DispatcherState, now: u64)
    requires
        orderly(state.calls, state.now),
        state.now <= now,
    ensures
        orderly(state.dispatched(now).calls, now),
{
    let due = scheduler::ready(state.pending, now);
    let before = state.calls;
    let after = state.dispatched(now).calls;
    let n = before.len() as int;
    scheduler::ready_means_due(state.pending, now);
    assert(after[n] == SinkCall::Published(now));
    assert(forall|i: int| 0 <= i < n ==> after[i] == before[i]);
    assert(forall|i: int|
        n < i < after.len() ==> #[trigger] after[i] == SinkCall::Executed(due[i - n - 1]));
    assert forall|i: int, j: int| 0 <= i <= j < after.len() implies times_in_order(
        after[i],
        after[j],
    ) by {
        if j < n {
            assert(times_in_order(before[i], before[j]));
        }
    }
    assert forall|j: int| 0 <= j < after.len() implies (#[trigger] after[j] matches SinkCall::Executed(c)
        ==> exists|i: int| 0 <= i < j && reached(#[trigger] after[i], c)) by {
        if let SinkCall::Executed(c) = after[j] {
            if j < n {
                assert(before[j] == SinkCall::Executed(c));
                let i = choose|i: int| 0 <= i < j && reached(#[trigger] before[i], c);
                assert(reached(after[i], c));
            } else {
                assert(reached(after[n], c));
            }
        }
    }
}

/// Whatever a dispatcher is told to do, its sink calls stay orderly.
pub proof fn calls_stay_orderly(
    state: DispatcherState,
    delta: u64,
    target: u64,
    ticks: nat,
    command: CommandView,
)
    requires
        orderly(state.calls, state.now),
    ensures
        orderly(state.enqueued(command).calls, state.enqueued(command).now),
        state.can_step(delta) ==> orderly(state.stepped(delta).calls, state.stepped(delta).now),
        orderly(state.advanced(target).calls, state.advanced(target).now),
        state.can_run(ticks) ==> orderly(state.ran(ticks).calls, state.ran(ticks).now),
    decreases ticks,
{
    if state.can_step(delta) {
        dispatch_keeps_calls_orderly(state, (state.now + delta) as u64);
    }
    dispatch_keeps_calls_orderly(state, clock::moved_to(state.now, target));
    if ticks > 0 && state.can_run(ticks) {
        let fewer = (ticks - 1) as nat;
        assert(ticks * state.rate == fewer * state.rate + state.rate) by (nonlinear_arith)
            requires
                fewer == ticks - 1,
        ;
        calls_stay_orderly(state, delta, target, fewer, command);
        time_never_goes_back(state, delta, target, fewer, command);
        let before = state.ran(fewer);
        dispatch_keeps_calls_orderly(before, (before.now + before.rate) as u64);
    }
}

/// The commands that sink calls ran, whatever their order.
pub open spec fn executed(calls: Seq<SinkCall>) -> Multiset<CommandView>
    decreases calls.len(),
{
    if calls.len() == 0 {
        Multiset::empty()
    } else {
        match calls.last() {
            SinkCall::Executed(command) => executed(calls.drop_last()).insert(command),
            SinkCall::Published(_) => executed(calls.drop_last()),
        }
    }
}

/// All commands that a dispatcher ever got: those that ran and those that are pending.
pub open spec fn all_commands(state: DispatcherState) -> Multiset<CommandView> {
    executed(state.calls).add(state.pending.to_multiset())
}

/// No command is lost, made up, run twice or changed: queueing adds the one command as
/// it is, and whatever moves time keeps what there was, run or pending.
pub proof fn commands_are_conserved(
    state: DispatcherState,
    command: CommandView,
    now: u64,
    delta: u64,
    target: u64,
    ticks: nat,
)
    ensures
        all_commands(state.enqueued(command)) == all_commands(state).insert(command),
        all_commands(state.dispatched(now)) == all_commands(state),
        all_commands(state.stepped(delta)) == all_commands(state),
        all_commands(state.advanced(target)) == all_commands(state),
        all_commands(state.ticked()) == all_commands(state),
        all_commands(state.ran(ticks)) == all_commands(state),
    decreases ticks,
{
    scheduler::put_adds_one(state.pending, command);
    assert(all_commands(state.enqueued(command)) =~= all_commands(state).insert(command));
    lemma_dispatch_conserves(state, now);
    lemma_dispatch_conserves(state, (state.now + delta) as u64);
    lemma_dispatch_conserves(state, clock::moved_to(state.now, target));
    lemma_dispatch_conserves(state, (state.now + state.rate) as u64);
    if ticks > 0 {
        let fewer = (ticks - 1) as nat;
        commands_are_conserved(state, command, now, delta, target, fewer);
        let before = state.ran(fewer);
        lemma_dispatch_conserves(before, (before.now + before.rate) as u64);
    }
}

proof fn lemma_dispatch_conserves(state: DispatcherState, now: u64)
    ensures
        all_commands(state.dispatched(now)) == all_commands(state),
{
    let due = scheduler::ready(state.pending, now);
    scheduler::ready_or_waiting(state.pending, now);
    let published = state.calls.push(SinkCall::Published(now));
    assert(published.drop_last() =~= state.calls);
    lemma_executed(published, due);
    assert(all_commands(state.dispatched(now)) =~= all_commands(state));
}

proof fn lemma_executed(calls: Seq<SinkCall>, commands: Seq<CommandView>)
    ensures
        executed(calls + executions(commands)) == executed(calls).add(commands.to_multiset()),
    decreases commands.len(),
{
    broadcast use vstd::seq_lib::group_to_multiset_ensures;

    if commands.len() == 0 {
        assert(calls + executions(commands) =~= calls);
        assert(executed(calls).add(commands.to_multiset()) =~= executed(calls));
    } else {
        let shorter = commands.drop_last();
        let all = calls + executions(commands);
        assert(all.drop_last() =~= calls + executions(shorter));
        assert(all.last() == SinkCall::Executed(commands.last()));
        lemma_executed(calls, shorter);
        assert(commands =~= shorter.push(commands.last()));
        assert(executed(all) =~= executed(calls).add(commands.to_multiset()));
    }
}

/// What moves time leaves nothing pending that is due, runs nothing that is not, and
/// publishes the new time once, before what it runs. What was called before stays.
pub proof fn due_commands_run_at_once(state: DispatcherState, delta: u64, target: u64)
    requires
        state.can_step(delta),
    ensures
        settled(state, state.stepped(delta), state.now + delta),
        settled(
            state,
            state.advanced(target),
            if target > state.now {
                target as int
            } else {
                state.now as int
            },
        ),
        state.can_step(state.rate) ==> settled(state, state.ticked(), state.now + state.rate),
{
    lemma_dispatch_settles(state, (state.now + delta) as u64);
    lemma_dispatch_settles(state, clock::moved_to(state.now, target));
    if state.can_step(state.rate) {
        lemma_dispatch_settles(state, (state.now + state.rate) as u64);
    }
}

/// Whether a dispatcher went from one state to another by moving time to `now`.
pub open spec fn settled(before: DispatcherState, after: DispatcherState, now: int) -> bool {
    let n = before.calls.len() as int;
    &&& after.now == now
    &&& after.rate == before.rate
    &&& after.calls.len() > n
    &&& after.calls.take(n) == before.calls
    &&& after.calls[n] == SinkCall::Published(after.now)
    &&& forall|i: int|
        n < i < after.calls.len() ==> (#[trigger] after.calls[i] matches SinkCall::Executed(c)
            && c.timestamp <= now)
    &&& forall|i: int|
        0 <= i < after.pending.len() ==> (#[trigger] after.pending[i]).timestamp > now
}

proof fn lemma_dispatch_settles(state: DispatcherState, now: u64)
    ensures
        settled(state, state.dispatched(now), now as int),
{
    let after = state.dispatched(now);
    let due = scheduler::ready(state.pending, now);
    let n = state.calls.len() as int;
    scheduler::ready_means_due(state.pending, now);
    assert(after.calls.take(n) =~= state.calls);
    assert forall|i: int| n < i < after.calls.len() implies (
    #[trigger] after.calls[i] matches SinkCall::Executed(c) && c.timestamp <= now) by {
        assert(after.calls[i] == SinkCall::Executed(due[i - n - 1]));
    }
}

/// The commands that one move of time runs, it runs in run order: earlier ones first.
pub proof fn due_commands_run_in_order(
    state: DispatcherState,
    delta: u64,
    target: u64,
    i: int,
    j: int,
)
    requires
        scheduler::in_run_order(state.pending),
        state.calls.len() < i <= j,
    ensures
        j < state.stepped(delta).calls.len() ==> no_later(
            state.stepped(delta).calls[i],
            state.stepped(delta).calls[j],
        ),
        j < state.advanced(target).calls.len() ==> no_later(
            state.advanced(target).calls[i],
            state.advanced(target).calls[j],
        ),
        j < state.ticked().calls.len() ==> no_later(
            state.ticked().calls[i],
            state.ticked().calls[j],
        ),
{
    if j < state.stepped(delta).calls.len() {
        lemma_dispatch_in_order(state, (state.now + delta) as u64, i, j);
    }
    if j < state.advanced(target).calls.len() {
        lemma_dispatch_in_order(state, clock::moved_to(state.now, target), i, j);
    }
    if j < state.ticked().calls.len() {
        lemma_dispatch_in_order(state, (state.now + state.rate) as u64, i, j);
    }
}

/// Whether two calls run commands of which the first is no later.
pub open spec fn no_later(a: SinkCall, b: SinkCall) -> bool {
    a matches SinkCall::Executed(first) && b matches SinkCall::Executed(second) && first.timestamp
        <= second.timestamp
}

proof fn lemma_dispatch_in_order(state: DispatcherState, now: u64, i: int, j: int)
    requires
        scheduler::in_run_order(state.pending),
        state.calls.len() < i <= j < state.dispatched(now).calls.len(),
    ensures
        no_later(state.dispatched(now).calls[i], state.dispatched(now).calls[j]),
{
    let due = scheduler::ready(state.pending, now);
    let n = state.calls.len() as int;
    scheduler::ready_then_waiting(state.pending, now);
    scheduler::run_order_is_by_time(due, i - n - 1, j - n - 1);
}

/// Running ticks publishes once per tick, each time one rate further.
pub proof fn every_tick_is_published(state: DispatcherState, ticks: nat)
    requires
        state.can_run(ticks),
    ensures
        published(state.ran(ticks).calls) == published(state.calls) + Seq::new(
            ticks,
            |i: int| state.now + (i + 1) * state.rate,
        ),
    decreases ticks,
{
    let goal = Seq::new(ticks, |i: int| state.now + (i + 1) * state.rate);
    if ticks == 0 {
        assert(published(state.calls) + goal =~= published(state.calls));
    } else {
        let fewer = (ticks - 1) as nat;
        assert(ticks * state.rate == fewer * state.rate + state.rate) by (nonlinear_arith)
            requires
                fewer == ticks - 1,
        ;
        every_tick_is_published(state, fewer);
        time_never_goes_back(
            state,
            0,
            0,
            fewer,
            CommandView { timestamp: 0, command: Seq::empty() },
        );
        let before = state.ran(fewer);
        let now = (before.now + before.rate) as u64;
        let due = scheduler::ready(before.pending, now);
        let calls = before.calls.push(SinkCall::Published(now));
        lemma_published(calls, due);
        assert(calls.drop_last() =~= before.calls);
        let shorter = Seq::new(fewer, |i: int| state.now + (i + 1) * state.rate);
        assert(goal =~= shorter.push(now as int)) by {
            assert(goal[fewer as int] == state.now + (fewer + 1) * state.rate);
        }
        assert(published(state.calls) + goal =~= (published(state.calls) + shorter).push(
            now as int,
        ));
    }
}

/// The times that sink calls published, in order.
pub open spec fn published(calls: Seq<SinkCall>) -> Seq<int>
    decreases calls.len(),
{
    if calls.len() == 0 {
        Seq::empty()
    } else {
        match calls.last() {
            SinkCall::Published(time) => published(calls.drop_last()).push(time as int),
            SinkCall::Executed(_) => published(calls.drop_last()),
        }
    }
}

proof fn lemma_published(calls: Seq<SinkCall>, commands: Seq<CommandView>)
    ensures
        published(calls + executions(commands)) == published(calls),
    decreases commands.len(),
{
    if commands.len() == 0 {
        assert(calls + executions(commands) =~= calls);
    } else {
        let all = calls + executions(commands);
        assert(all.drop_last() =~= calls + executions(commands.drop_last()));
        lemma_published(calls, commands.drop_last());
    }
}

/// Which moves stay within the range of timestamps, and what every valid dispatcher
/// keeps to.
pub proof fn limits_of_time(state: DispatcherState, delta: u64, ticks: nat)
    ensures
        state.can_step(delta) <==> state.now + delta < 0x1_0000_0000_0000_0000,
        state.can_run(ticks) <==> state.now + ticks * state.rate < 0x1_0000_0000_0000_0000,
        state.valid() ==> state.rate >= 1 && scheduler::in_run_order(state.pending),
{
}

}
