//! Scheduling of commands by simulated timestamp.

use std::cmp::Ordering;

use vstd::prelude::*;

use crate::command::CommandPayload;
use crate::text;

verus! {

/// A scheduled command as plain values.
pub struct CommandView {
    /// Timestamp from which the command may run.
    pub timestamp: u64,
    /// Text of the command.
    pub command: Seq<char>,
}

/// A command scheduled for execution at a specific simulated timestamp.
#[derive(Debug, PartialEq, Eq)]
pub struct ScheduledCommand {
    /// Timestamp from which the command may run.
    pub timestamp: u64,
    /// What to run.
    pub command: CommandPayload,
}

impl View for ScheduledCommand {
    type V = CommandView;

    open spec fn view(&self) -> CommandView {
        CommandView { timestamp: self.timestamp, command: self.command@ }
    }
}

impl Clone for ScheduledCommand {
    fn clone(&self) -> (copy: Self)
        ensures
            copy@ == self@,
    {
        ScheduledCommand { timestamp: self.timestamp, command: self.command.clone() }
    }
}

/// The order in which commands run: by timestamp, and at one timestamp from the
/// greatest text down.
pub open spec fn runs_no_later(a: CommandView, b: CommandView) -> bool {
    a.timestamp < b.timestamp || (a.timestamp == b.timestamp && text::text_at_most(
        b.command,
        a.command,
    ))
}

/// Whether a queue stands in the order in which its commands run.
#[verifier::opaque]
pub open spec fn in_run_order(queue: Seq<CommandView>) -> bool {
    forall|i: int, j: int|
        0 <= i <= j < queue.len() ==> #[trigger] runs_no_later(queue[i], queue[j])
}

/// Whether a command may run at `now`.
pub open spec fn is_ready(command: CommandView, now: u64) -> bool {
    command.timestamp <= now
}

/// The commands of a queue that may run at `now`, in the order of the queue.
pub open spec fn ready(queue: Seq<CommandView>, now: u64) -> Seq<CommandView> {
    queue.filter(|c: CommandView| is_ready(c, now))
}

/// The commands of a queue that have to wait beyond `now`.
pub open spec fn waiting(queue: Seq<CommandView>, now: u64) -> Seq<CommandView> {
    queue.filter(|c: CommandView| !is_ready(c, now))
}

/// `queue` with `command` put in behind everything that runs no later than it.
pub open spec fn put(queue: Seq<CommandView>, command: CommandView) -> Seq<CommandView>
    decreases queue.len(),
{
    if queue.len() == 0 || runs_no_later(queue.last(), command) {
        queue.push(command)
    } else {
        put(queue.drop_last(), command).push(queue.last())
    }
}

/// The commands that a list of scheduled commands holds.
pub open spec fn views(commands: Seq<ScheduledCommand>) -> Seq<CommandView> {
    commands.map_values(|c: ScheduledCommand| c@)
}

/// Whether `a` runs no later than `b`.
fn precedes(a: &ScheduledCommand, b: &ScheduledCommand) -> (out: bool)
    ensures
        out == runs_no_later(a@, b@),
{
    a.timestamp < b.timestamp || (a.timestamp == b.timestamp && text::in_order(
        b.command.as_str(),
        a.command.as_str(),
    ))
}

/// How two commands compare: the one that runs first is the greater.
pub open spec fn compared(a: CommandView, b: CommandView) -> Ordering {
    if a == b {
        Ordering::Equal
    } else if runs_no_later(a, b) {
        Ordering::Greater
    } else {
        Ordering::Less
    }
}

impl ScheduledCommand {
    /// Compares two commands by when they run: the one that runs first is the
    /// greater, so that a queue which hands out the greatest hands out that one.
    pub fn cmp(&self, other: &Self) -> (out: Ordering)
        ensures
            out == compared(self@, other@),
    {
        if !precedes(self, other) {
            proof {
                text::text_order_reflexive(self@.command);
            }
            Ordering::Less
        } else if !precedes(other, self) {
            proof {
                text::text_order_reflexive(self@.command);
            }
            Ordering::Greater
        } else {
            proof {
                text::text_order_antisymmetric(self@.command, other@.command);
            }
            Ordering::Equal
        }
    }
}

impl PartialOrd for ScheduledCommand {
    fn partial_cmp(&self, other: &Self) -> (out: Option<Ordering>) {
        Some(self.cmp(other))
    }
}

impl vstd::std_specs::cmp::PartialOrdSpecImpl for ScheduledCommand {
    open spec fn obeys_partial_cmp_spec() -> bool {
        true
    }

    open spec fn partial_cmp_spec(&self, other: &ScheduledCommand) -> Option<Ordering> {
        Some(compared(self@, other@))
    }
}

/// A priority queue of commands, keyed by the timestamp at which they run.
#[derive(Debug)]
pub struct CommandScheduler {
    queue: Vec<ScheduledCommand>,
}

impl View for CommandScheduler {
    type V = Seq<CommandView>;

    /// The pending commands in the order in which they run.
    closed spec fn view(&self) -> Seq<CommandView> {
        views(self.queue@)
    }
}

impl CommandScheduler {
    /// The pending commands stand in the order in which they run.
    #[verifier::type_invariant]
    closed spec fn well_formed(&self) -> bool {
        in_run_order(views(self.queue@))
    }

    /// An empty scheduler.
    pub fn new() -> (scheduler: Self)
        ensures
            scheduler@ == Seq::<CommandView>::empty(),
    {
        proof {
            lemma_empty_in_run_order();
        }
        let scheduler = CommandScheduler { queue: Vec::new() };
        assert(scheduler@ == Seq::<CommandView>::empty());
        scheduler
    }

    /// Puts a command into the queue, to run at `timestamp`.
    pub fn schedule(&mut self, timestamp: u64, command: CommandPayload)
        ensures
            final(self)@ == put(
                old(self)@,
                CommandView { timestamp, command: command@ },
            ),
            in_run_order(final(self)@),
    {
        proof {
            use_type_invariant(&*self);
        }
        let entry = ScheduledCommand { timestamp, command };
        let ghost before = views(self.queue@);
        proof {
            lemma_empty_in_run_order();
        }
        let mut queue: Vec<ScheduledCommand> = Vec::new();
        std::mem::swap(&mut queue, &mut self.queue);
        let mut at: usize = queue.len();
        assert(before.take(at as int) == before);
        assert(before.skip(at as int) == Seq::<CommandView>::empty());
        while at > 0 && !precedes(&queue[at - 1], &entry)
            invariant
                at <= queue.len(),
                views(queue@) == before,
                put(before, entry@) == put(before.take(at as int), entry@) + before.skip(at as int),
            decreases at,
        {
            proof {
                let head = before.take(at as int);
                assert(head.last() == queue@[at - 1]@);
                assert(head.drop_last() == before.take(at - 1));
                assert(put(head, entry@) == put(head.drop_last(), entry@).push(head.last()));
                assert(put(head.drop_last(), entry@).push(head.last()) + before.skip(at as int)
                    == put(head.drop_last(), entry@) + before.skip(at - 1));
            }
            at = at - 1;
        }
        proof {
            let head = before.take(at as int);
            if at > 0 {
                assert(head.last() == queue@[at - 1]@);
            }
            assert(put(head, entry@) == head.push(entry@));
        }
        queue.insert(at, entry);
        assert(views(queue@) == before.take(at as int).push(entry@) + before.skip(at as int));
        proof {
            put_keeps_run_order(before, entry@);
        }
        self.queue = queue;
    }

    /// Whether at least one command may run at `now`.
    pub fn has_ready(&self, now: u64) -> (found: bool)
        ensures
            found == (ready(self@, now).len() > 0),
            found == (self@.len() > 0 && is_ready(self@[0], now)),
    {
        proof {
            use_type_invariant(self);
            first_runs_first(self@, now);
        }
        self.queue.len() > 0 && self.queue[0].timestamp <= now
    }

    /// Takes out all commands whose timestamps are at most `now`, in the order in
    /// which they run.
    pub fn drain_ready(&mut self, now: u64) -> (out: Vec<ScheduledCommand>)
        ensures
            views(out@) == ready(old(self)@, now),
            final(self)@ == waiting(old(self)@, now),
            in_run_order(old(self)@),
            in_run_order(final(self)@),
    {
        proof {
            use_type_invariant(&*self);
        }
        let ghost before = views(self.queue@);
        proof {
            lemma_empty_in_run_order();
        }
        let mut out: Vec<ScheduledCommand> = Vec::new();
        std::mem::swap(&mut out, &mut self.queue);
        let mut count: usize = 0;
        while count < out.len() && out[count].timestamp <= now
            invariant
                count <= out.len(),
                views(out@) == before,
                forall|i: int| 0 <= i < count ==> is_ready(#[trigger] before[i], now),
            decreases out.len() - count,
        {
            assert(before[count as int] == out@[count as int]@);
            count = count + 1;
        }
        proof {
            reveal(in_run_order);
            assert forall|i: int| count <= i < before.len() implies !is_ready(
                #[trigger] before[i],
                now,
            ) by {
                assert(runs_no_later(before[count as int], before[i]));
                assert(before[count as int] == out@[count as int]@);
            }
            ready_is_prefix(before, now, count as int);
        }
        let rest = out.split_off(count);
        assert(views(out@) == before.take(count as int));
        assert(views(rest@) == before.skip(count as int));
        proof {
            lemma_part_keeps_run_order(before, count as int, before.len() as int);
            assert(before.skip(count as int) == before.subrange(count as int, before.len() as int));
        }
        self.queue = rest;
        out
    }

    /// The timestamp of the command that runs next, if there is one.
    pub fn next_timestamp(&self) -> (next: Option<u64>)
        ensures
            next == (if self@.len() > 0 {
                Some(self@[0].timestamp)
            } else {
                None
            }),
            next matches Some(t) ==> forall|i: int|
                0 <= i < self@.len() ==> t <= (#[trigger] self@[i]).timestamp,
    {
        proof {
            use_type_invariant(self);
            reveal(in_run_order);
            assert forall|i: int| 0 <= i < self@.len() implies self@[0].timestamp <= (
            #[trigger] self@[i]).timestamp by {
                assert(runs_no_later(self@[0], self@[i]));
            }
        }
        if self.queue.len() > 0 {
            Some(self.queue[0].timestamp)
        } else {
            None
        }
    }

    /// Whether no command is pending.
    pub fn is_empty(&self) -> (empty: bool)
        ensures
            empty == (self@.len() == 0),
    {
        self.queue.len() == 0
    }
}

impl Default for CommandScheduler {
    fn default() -> (scheduler: Self)
        ensures
            scheduler@ == Seq::<CommandView>::empty(),
    {
        CommandScheduler::new()
    }
}

// ---------------------------------------------------------------------------
// Laws
// ---------------------------------------------------------------------------

/// The run order compares any two commands, and only equal commands stand both
/// ways round: it leaves nothing to chance.
pub proof fn run_order_is_total()
    ensures
        vstd::relations::total_ordering(|a: CommandView, b: CommandView| runs_no_later(a, b)),
{
    let leq = |a: CommandView, b: CommandView| runs_no_later(a, b);
    assert forall|a: CommandView| #[trigger] leq(a, a) by {
        text::text_order_reflexive(a.command);
    }
    assert forall|a: CommandView, b: CommandView| #[trigger] leq(a, b) && #[trigger] leq(
        b,
        a,
    ) implies a == b by {
        text::text_order_antisymmetric(a.command, b.command);
    }
    assert forall|a: CommandView, b: CommandView, c: CommandView| #[trigger]
        leq(a, b) && #[trigger] leq(b, c) implies leq(a, c) by {
        if a.timestamp == b.timestamp && b.timestamp == c.timestamp {
            text::text_order_transitive(c.command, b.command, a.command);
        }
    }
    assert forall|a: CommandView, b: CommandView| #[trigger] leq(a, b) || #[trigger] leq(b, a) by {
        text::text_order_total(a.command, b.command);
    }
}

/// Two queues in run order that hold the same commands are the same queue.
pub proof fn run_order_is_unique(a: Seq<CommandView>, b: Seq<CommandView>)
    requires
        in_run_order(a),
        in_run_order(b),
        a.to_multiset() == b.to_multiset(),
    ensures
        a == b,
{
    reveal(in_run_order);
    run_order_is_total();
    let leq = |a: CommandView, b: CommandView| runs_no_later(a, b);
    assert forall|i: int, j: int| 0 <= i < j < a.len() implies #[trigger] leq(a[i], a[j]) by {
        assert(runs_no_later(a[i], a[j]));
    }
    assert forall|i: int, j: int| 0 <= i < j < b.len() implies #[trigger] leq(b[i], b[j]) by {
        assert(runs_no_later(b[i], b[j]));
    }
    vstd::seq_lib::lemma_sorted_unique(a, b, leq);
}

/// Putting a command into a queue adds that one command and loses none.
pub proof fn put_adds_one(queue: Seq<CommandView>, command: CommandView)
    ensures
        put(queue, command).to_multiset() == queue.to_multiset().insert(command),
    decreases queue.len(),
{
    broadcast use vstd::seq_lib::group_to_multiset_ensures;

    if queue.len() == 0 || runs_no_later(queue.last(), command) {
    } else {
        put_adds_one(queue.drop_last(), command);
        assert(queue == queue.drop_last().push(queue.last()));
        assert(put(queue, command).to_multiset() =~= queue.to_multiset().insert(command));
    }
}

/// Putting a command into a queue that stands in run order keeps the order.
pub proof fn put_keeps_run_order(queue: Seq<CommandView>, command: CommandView)
    requires
        in_run_order(queue),
    ensures
        in_run_order(put(queue, command)),
    decreases queue.len(),
{
    reveal(in_run_order);
    broadcast use vstd::seq_lib::group_to_multiset_ensures;

    run_order_is_total();
    let leq = |a: CommandView, b: CommandView| runs_no_later(a, b);
    let out = put(queue, command);
    if queue.len() == 0 || runs_no_later(queue.last(), command) {
        assert forall|i: int, j: int| 0 <= i <= j < out.len() implies #[trigger] runs_no_later(
            out[i],
            out[j],
        ) by {
            assert(leq(command, command));
            if i < queue.len() {
                assert(runs_no_later(queue[i], queue[queue.len() - 1]));
                assert(leq(queue[i], queue.last()) && leq(queue.last(), command));
                if j < queue.len() {
                    assert(runs_no_later(queue[i], queue[j]));
                }
            }
        }
    } else {
        let shorter = queue.drop_last();
        let last = queue.last();
        assert forall|i: int, j: int| 0 <= i <= j < shorter.len() implies #[trigger] runs_no_later(
            shorter[i],
            shorter[j],
        ) by {
            assert(runs_no_later(queue[i], queue[j]));
        }
        put_keeps_run_order(shorter, command);
        put_adds_one(shorter, command);
        let inner = put(shorter, command);
        assert forall|i: int| 0 <= i < inner.len() implies runs_no_later(#[trigger] inner[i], last) by {
            assert(inner.to_multiset().contains(inner[i]));
            assert(leq(last, command) || leq(command, last));
            if inner[i] != command {
                assert(shorter.to_multiset().contains(inner[i]));
                let k = choose|k: int| 0 <= k < shorter.len() && shorter[k] == inner[i];
                assert(runs_no_later(queue[k], queue[queue.len() - 1]));
            }
        }
        assert forall|i: int, j: int| 0 <= i <= j < out.len() implies #[trigger] runs_no_later(
            out[i],
            out[j],
        ) by {
            assert(leq(last, last));
            if j < inner.len() {
                assert(runs_no_later(inner[i], inner[j]));
            }
        }
    }
}

/// The order in which commands are put into a queue does not matter.
pub proof fn put_commutes(queue: Seq<CommandView>, a: CommandView, b: CommandView)
    requires
        in_run_order(queue),
    ensures
        put(put(queue, a), b) == put(put(queue, b), a),
{
    put_keeps_run_order(queue, a);
    put_keeps_run_order(put(queue, a), b);
    put_keeps_run_order(queue, b);
    put_keeps_run_order(put(queue, b), a);
    put_adds_one(queue, a);
    put_adds_one(put(queue, a), b);
    put_adds_one(queue, b);
    put_adds_one(put(queue, b), a);
    assert(put(put(queue, a), b).to_multiset() =~= put(put(queue, b), a).to_multiset());
    run_order_is_unique(put(put(queue, a), b), put(put(queue, b), a));
}

/// Where a queue begins with `count` commands that may run and none of the others
/// may, those are the ready ones and the others wait.
pub proof fn ready_is_prefix(queue: Seq<CommandView>, now: u64, count: int)
    requires
        0 <= count <= queue.len(),
        forall|i: int| 0 <= i < count ==> is_ready(#[trigger] queue[i], now),
        forall|i: int| count <= i < queue.len() ==> !is_ready(#[trigger] queue[i], now),
    ensures
        ready(queue, now) == queue.take(count),
        waiting(queue, now) == queue.skip(count),
    decreases queue.len(),
{
    reveal(Seq::filter);
    if queue.len() > 0 {
        let shorter = queue.drop_last();
        if count < queue.len() {
            ready_is_prefix(shorter, now, count);
            assert(shorter.take(count) == queue.take(count));
            assert(shorter.skip(count).push(queue.last()) == queue.skip(count));
        } else {
            ready_is_prefix(shorter, now, count - 1);
            assert(shorter.take(count - 1).push(queue.last()) == queue.take(count));
            assert(shorter.skip(count - 1) == queue.skip(count));
        }
    }
}

/// In a queue in run order the ready commands stand in front of the waiting ones:
/// taking them out loses none, makes none up and leaves both parts in run order.
pub proof fn ready_then_waiting(queue: Seq<CommandView>, now: u64)
    requires
        in_run_order(queue),
    ensures
        ready(queue, now).len() <= queue.len(),
        ready(queue, now) == queue.take(ready(queue, now).len() as int),
        waiting(queue, now) == queue.skip(ready(queue, now).len() as int),
        in_run_order(ready(queue, now)),
        in_run_order(waiting(queue, now)),
{
    let count = lemma_split_point(queue, now);
    lemma_part_keeps_run_order(queue, 0, count);
    lemma_part_keeps_run_order(queue, count, queue.len() as int);
}

/// Where the ready commands of a queue end and the waiting ones begin.
proof fn lemma_split_point(queue: Seq<CommandView>, now: u64) -> (count: int)
    requires
        in_run_order(queue),
    ensures
        0 <= count <= queue.len(),
        ready(queue, now) == queue.take(count),
        waiting(queue, now) == queue.skip(count),
{
    let count = ready_count(queue, now);
    lemma_ready_count(queue, now);
    ready_is_prefix(queue, now, count);
    count
}

/// No command runs before its timestamp, and none that is left waiting was due.
pub proof fn ready_means_due(queue: Seq<CommandView>, now: u64)
    ensures
        forall|i: int|
            0 <= i < ready(queue, now).len() ==> (#[trigger] ready(queue, now)[i]).timestamp <= now,
        forall|i: int|
            0 <= i < waiting(queue, now).len() ==> (#[trigger] waiting(queue, now)[i]).timestamp
                > now,
{
    let due = |c: CommandView| is_ready(c, now);
    let not_due = |c: CommandView| !is_ready(c, now);
    assert forall|i: int| 0 <= i < ready(queue, now).len() implies (#[trigger] ready(
        queue,
        now,
    )[i]).timestamp <= now by {
        queue.lemma_filter_pred(due, i);
    }
    assert forall|i: int| 0 <= i < waiting(queue, now).len() implies (#[trigger] waiting(
        queue,
        now,
    )[i]).timestamp > now by {
        queue.lemma_filter_pred(not_due, i);
    }
}

/// An empty queue stands in run order.
pub proof fn empty_queue_in_run_order()
    ensures
        in_run_order(Seq::<CommandView>::empty()),
{
    reveal(in_run_order);
}

/// An empty list stands in run order.
proof fn lemma_empty_in_run_order()
    ensures
        forall|commands: Seq<ScheduledCommand>|
            commands.len() == 0 ==> in_run_order(#[trigger] views(commands)),
{
    reveal(in_run_order);
}

proof fn lemma_part_keeps_run_order(queue: Seq<CommandView>, from: int, to: int)
    requires
        in_run_order(queue),
        0 <= from <= to <= queue.len(),
    ensures
        in_run_order(queue.subrange(from, to)),
{
    reveal(in_run_order);
    let part = queue.subrange(from, to);
    assert forall|i: int, j: int| 0 <= i <= j < part.len() implies #[trigger] runs_no_later(
        part[i],
        part[j],
    ) by {
        assert(runs_no_later(queue[from + i], queue[from + j]));
    }
}

/// How many commands at the front of a queue may run at `now`.
spec fn ready_count(queue: Seq<CommandView>, now: u64) -> int
    decreases queue.len(),
{
    if queue.len() == 0 || !is_ready(queue.first(), now) {
        0
    } else {
        1 + ready_count(queue.drop_first(), now)
    }
}

proof fn lemma_ready_count(queue: Seq<CommandView>, now: u64)
    requires
        in_run_order(queue),
    ensures
        0 <= ready_count(queue, now) <= queue.len(),
        forall|i: int| 0 <= i < ready_count(queue, now) ==> is_ready(#[trigger] queue[i], now),
        forall|i: int|
            ready_count(queue, now) <= i < queue.len() ==> !is_ready(#[trigger] queue[i], now),
    decreases queue.len(),
{
    reveal(in_run_order);
    if queue.len() > 0 {
        let rest = queue.drop_first();
        assert forall|i: int, j: int| 0 <= i <= j < rest.len() implies #[trigger] runs_no_later(
            rest[i],
            rest[j],
        ) by {
            assert(runs_no_later(queue[i + 1], queue[j + 1]));
        }
        lemma_ready_count(rest, now);
        let count = ready_count(queue, now);
        assert forall|i: int| 0 <= i < count implies is_ready(#[trigger] queue[i], now) by {
            if i > 0 {
                assert(is_ready(rest[i - 1], now));
            }
        }
        assert forall|i: int| count <= i < queue.len() implies !is_ready(
            #[trigger] queue[i],
            now,
        ) by {
            if count == 0 {
                assert(runs_no_later(queue[0], queue[i]));
            } else {
                assert(!is_ready(rest[i - 1], now));
            }
        }
    }
}

/// A command is ready exactly when the first command of the queue is.
pub proof fn first_runs_first(queue: Seq<CommandView>, now: u64)
    requires
        in_run_order(queue),
    ensures
        ready(queue, now).len() > 0 <==> queue.len() > 0 && is_ready(queue[0], now),
{
    let count = ready_count(queue, now);
    lemma_ready_count(queue, now);
    ready_is_prefix(queue, now, count);
    if queue.len() > 0 && is_ready(queue[0], now) {
        assert(count > 0);
    }
}

/// Draining at `early` and then at `late` runs the same commands in the same order
/// as draining at `late` at once.
pub proof fn draining_in_parts(queue: Seq<CommandView>, early: u64, late: u64)
    requires
        in_run_order(queue),
        early <= late,
    ensures
        ready(queue, early) + ready(waiting(queue, early), late) == ready(queue, late),
        waiting(waiting(queue, early), late) == waiting(queue, late),
{
    let (a, b) = (ready_count(queue, early), ready_count(queue, late));
    lemma_ready_count(queue, early);
    lemma_ready_count(queue, late);
    if a > b {
        assert(is_ready(queue[b], early));
        assert(!is_ready(queue[b], late));
    }
    ready_is_prefix(queue, early, a);
    ready_is_prefix(queue, late, b);
    let rest = queue.skip(a);
    assert forall|i: int| 0 <= i < b - a implies is_ready(#[trigger] rest[i], late) by {
        assert(is_ready(queue[a + i], late));
    }
    assert forall|i: int| b - a <= i < rest.len() implies !is_ready(#[trigger] rest[i], late) by {
        assert(!is_ready(queue[a + i], late));
    }
    ready_is_prefix(rest, late, b - a);
    assert(queue.take(a) + rest.take(b - a) == queue.take(b));
    assert(rest.skip(b - a) == queue.skip(b));
}

/// In run order timestamps never fall, and of two commands with one timestamp the one
/// with the greater text comes first.
pub proof fn run_order_is_by_time(queue: Seq<CommandView>, i: int, j: int)
    requires
        in_run_order(queue),
        0 <= i <= j < queue.len(),
    ensures
        queue[i].timestamp <= queue[j].timestamp,
        queue[i].timestamp == queue[j].timestamp ==> text::text_at_most(
            queue[j].command,
            queue[i].command,
        ),
{
    reveal(in_run_order);
    assert(runs_no_later(queue[i], queue[j]));
}

/// Two commands stand in run order exactly when the first is earlier, or no later and
/// its text is not the smaller one.
pub proof fn pairs_in_run_order(a: CommandView, b: CommandView)
    ensures
        a.timestamp < b.timestamp ==> in_run_order(seq![a, b]) && !in_run_order(seq![b, a]),
        a.timestamp == b.timestamp ==> (in_run_order(seq![a, b]) <==> text::text_at_most(
            b.command,
            a.command,
        )),
{
    reveal(in_run_order);
    text::text_order_reflexive(a.command);
    text::text_order_reflexive(b.command);
    let (ab, ba) = (seq![a, b], seq![b, a]);
    assert(runs_no_later(ab[0], ab[1]) == runs_no_later(a, b));
    assert(runs_no_later(ba[0], ba[1]) == runs_no_later(b, a));
}

/// The command that runs first is the greater one: by its time, and at one time by its
/// text. Only the same command is equal.
pub proof fn comparison_is_by_time(a: CommandView, b: CommandView)
    ensures
        a.timestamp < b.timestamp ==> compared(a, b) == Ordering::Greater,
        a.timestamp > b.timestamp ==> compared(a, b) == Ordering::Less,
        a.timestamp == b.timestamp && a.command != b.command ==> (compared(a, b)
            == Ordering::Greater <==> text::text_at_most(b.command, a.command)) && (compared(a, b)
            == Ordering::Less <==> text::text_at_most(a.command, b.command)),
        compared(a, b) == Ordering::Equal <==> a == b,
{
    text::text_order_total(a.command, b.command);
    if text::text_at_most(a.command, b.command) && text::text_at_most(b.command, a.command) {
        text::text_order_antisymmetric(a.command, b.command);
    }
}

/// Every command of a queue is either ready or waiting, and none is both or new.
pub proof fn ready_or_waiting(queue: Seq<CommandView>, now: u64)
    ensures
        ready(queue, now).to_multiset().add(waiting(queue, now).to_multiset())
            == queue.to_multiset(),
    decreases queue.len(),
{
    broadcast use vstd::seq_lib::group_to_multiset_ensures;

    reveal(Seq::filter);
    if queue.len() == 0 {
        assert(ready(queue, now) =~= Seq::empty());
        assert(waiting(queue, now) =~= Seq::empty());
        assert(ready(queue, now).to_multiset().add(waiting(queue, now).to_multiset())
            =~= queue.to_multiset());
    } else {
        let shorter = queue.drop_last();
        ready_or_waiting(shorter, now);
        assert(queue =~= shorter.push(queue.last()));
        assert(ready(queue, now).to_multiset().add(waiting(queue, now).to_multiset())
            =~= queue.to_multiset());
    }
}

/// Which commands are ready is decided by their own timestamps alone.
pub proof fn ready_by_timestamp(command: CommandView, now: u64)
    ensures
        command.timestamp <= now ==> ready(seq![command], now) == seq![command] && waiting(
            seq![command],
            now,
        ).len() == 0,
        command.timestamp > now ==> waiting(seq![command], now) == seq![command] && ready(
            seq![command],
            now,
        ).len() == 0,
{
    let count: int = if command.timestamp <= now {
        1
    } else {
        0
    };
    ready_is_prefix(seq![command], now, count);
    assert(seq![command].take(1) =~= seq![command]);
    assert(seq![command].skip(0) =~= seq![command]);
}

/// A list of scheduled commands holds one command for each, in order, with its timestamp
/// and its text.
pub proof fn lists_hold_their_commands(commands: Seq<ScheduledCommand>, i: int)
    requires
        0 <= i < commands.len(),
    ensures
        views(commands).len() == commands.len(),
        views(commands)[i].timestamp == commands[i].timestamp,
        views(commands)[i].command == commands[i].command@,
{
}

}
