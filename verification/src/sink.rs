//! Sinks and the lines that they write.

use vstd::prelude::*;
use vstd::string::*;

use crate::dispatcher::{CommandSink, SinkCall};
use crate::scheduler::{CommandView, ScheduledCommand};
use crate::text;

verus! {

/// One call that a [`RecordingSink`] took.
#[derive(Debug)]
pub enum Recorded {
    /// The simulated time was published.
    Published(u64),
    /// A command was handed over for execution.
    Executed(ScheduledCommand),
}

impl View for Recorded {
    type V = SinkCall;

    open spec fn view(&self) -> SinkCall {
        match self {
            Recorded::Published(time) => SinkCall::Published(*time),
            Recorded::Executed(command) => SinkCall::Executed(command@),
        }
    }
}

/// The calls that a record holds.
pub open spec fn recorded_calls(record: Seq<Recorded>) -> Seq<SinkCall> {
    record.map_values(|call: Recorded| call@)
}

/// A sink that keeps every call it takes.
#[derive(Debug)]
pub struct RecordingSink {
    record: Vec<Recorded>,
}

impl RecordingSink {
    /// A sink that has taken no call.
    pub fn new() -> (sink: Self)
        ensures
            sink.calls() == Seq::<SinkCall>::empty(),
    {
        let sink = RecordingSink { record: Vec::new() };
        assert(sink.calls() =~= Seq::<SinkCall>::empty());
        sink
    }

    /// The calls that the sink took, in order.
    pub fn record(&self) -> (record: &Vec<Recorded>)
        ensures
            recorded_calls(record@) == self.calls(),
    {
        &self.record
    }
}

impl CommandSink for RecordingSink {
    closed spec fn calls(&self) -> Seq<SinkCall> {
        recorded_calls(self.record@)
    }

    fn publish_time(&mut self, time: u64) {
        self.record.push(Recorded::Published(time));
        assert(self.calls() =~= old(self).calls().push(SinkCall::Published(time)));
    }

    fn execute(&mut self, command: &ScheduledCommand) {
        self.record.push(Recorded::Executed(command.clone()));
        assert(self.calls() =~= old(self).calls().push(SinkCall::Executed(command@)));
    }
}

/// A published time as a simulation logs it.
pub open spec fn time_logged(time: u64) -> Seq<char> {
    "[sim-time] "@ + text::decimal(time as nat)
}

/// An executed command as a simulation logs it.
pub open spec fn execution_logged(command: CommandView) -> Seq<char> {
    "[execute @"@ + text::decimal(command.timestamp as nat) + "] "@ + command.command
}

/// An executed command as the demo logs it: `scale-time` shows four times its
/// timestamp.
pub open spec fn scaled_execution_logged(command: CommandView) -> Seq<char> {
    if command.command == "scale-time"@ {
        execution_logged(command) + " (scaled timestamp: "@ + text::decimal(
            (command.timestamp * 4) as nat,
        ) + ")"@
    } else {
        execution_logged(command)
    }
}

/// Whether four times the timestamp of a `scale-time` stays within the range of
/// timestamps.
pub open spec fn scale_fits(command: CommandView) -> bool {
    command.command == "scale-time"@ ==> command.timestamp * 4 <= u64::MAX
}

/// A published time as the interactive client shows it.
pub open spec fn time_shown(time: u64) -> Seq<char> {
    "[time] "@ + text::decimal(time as nat)
}

/// An executed command as the interactive client shows it.
pub open spec fn execution_shown(command: CommandView) -> Seq<char> {
    "[exec @"@ + text::decimal(command.timestamp as nat) + "] "@ + command.command
}

/// A published time as a simulation logs it.
pub fn log_time(time: u64) -> (line: String)
    ensures
        line@ == time_logged(time),
{
    "[sim-time] ".to_owned().concat(text::decimal_text(time).as_str())
}

/// A front, a command's timestamp and the command.
fn execution_line(front: &str, command: &ScheduledCommand) -> (line: String)
    ensures
        line@ == front@ + text::decimal(command.timestamp as nat) + "] "@ + command@.command,
{
    front.to_owned().concat(text::decimal_text(command.timestamp).as_str()).concat("] ").concat(
        command.command.as_str(),
    )
}

/// An executed command as a simulation logs it.
pub fn log_execution(command: &ScheduledCommand) -> (line: String)
    ensures
        line@ == execution_logged(command@),
{
    execution_line("[execute @", command)
}

/// Whether four times the timestamp of a `scale-time` stays within the range of
/// timestamps.
pub fn can_scale(command: &ScheduledCommand) -> (out: bool)
    ensures
        out == scale_fits(command@),
{
    !text::same_text(command.command.as_str(), "scale-time") || command.timestamp.checked_mul(
        4,
    ).is_some()
}

/// An executed command as the demo logs it: `scale-time` shows four times its
/// timestamp.
pub fn log_scaled_execution(command: &ScheduledCommand) -> (line: String)
    requires
        scale_fits(command@),
    ensures
        line@ == scaled_execution_logged(command@),
{
    let line = log_execution(command);
    if text::same_text(command.command.as_str(), "scale-time") {
        let scaled: u64 = command.timestamp * 4;
        line.concat(" (scaled timestamp: ").concat(text::decimal_text(scaled).as_str()).concat(")")
    } else {
        line
    }
}

/// A published time as the interactive client shows it.
pub fn show_time(time: u64) -> (line: String)
    ensures
        line@ == time_shown(time),
{
    "[time] ".to_owned().concat(text::decimal_text(time).as_str())
}

/// An executed command as the interactive client shows it.
pub fn show_execution(command: &ScheduledCommand) -> (line: String)
    ensures
        line@ == execution_shown(command@),
{
    execution_line("[exec @", command)
}

// ---------------------------------------------------------------------------
// Laws
// ---------------------------------------------------------------------------

/// Simulations log a published time and an executed command each in their own form, and
/// so does the interactive client.
pub proof fn how_calls_are_logged(time: u64, command: CommandView)
    ensures
        time_logged(time) == "[sim-time] "@ + text::decimal(time as nat),
        time_shown(time) == "[time] "@ + text::decimal(time as nat),
        execution_logged(command) == "[execute @"@ + text::decimal(command.timestamp as nat) + seq![
            ']',
            ' ',
        ] + command.command,
        execution_shown(command) == "[exec @"@ + text::decimal(command.timestamp as nat) + seq![
            ']',
            ' ',
        ] + command.command,
{
    reveal_strlit("] ");
    assert("] "@ =~= seq![']', ' ']);
}

/// The demo shows four times its timestamp behind a `scale-time`, and any other command
/// as any simulation does.
pub proof fn scale_time_is_shown_scaled(timestamp: u64, other: CommandView)
    requires
        other.command != "scale-time"@,
    ensures
        scaled_execution_logged(CommandView { timestamp, command: "scale-time"@ })
            == "[execute @"@ + text::decimal(timestamp as nat)
            + "] scale-time (scaled timestamp: "@ + text::decimal(
            (timestamp + timestamp + timestamp + timestamp) as nat,
        ) + ")"@,
        scaled_execution_logged(other) == execution_logged(other),
        scale_fits(other),
        scale_fits(CommandView { timestamp, command: "scale-time"@ }) <==> timestamp
            <= u64::MAX / 4,
{
    reveal_strlit("] ");
    reveal_strlit("scale-time");
    reveal_strlit(" (scaled timestamp: ");
    reveal_strlit("] scale-time (scaled timestamp: ");
    assert("] scale-time (scaled timestamp: "@ =~= "] "@ + "scale-time"@
        + " (scaled timestamp: "@);
    assert(scaled_execution_logged(CommandView { timestamp, command: "scale-time"@ })
        =~= "[execute @"@ + text::decimal(timestamp as nat) + "] scale-time (scaled timestamp: "@
        + text::decimal((timestamp + timestamp + timestamp + timestamp) as nat) + ")"@);
}

/// A record holds one call for every entry, in order.
pub proof fn records_hold_the_calls(record: Seq<Recorded>, i: int)
    requires
        0 <= i < record.len(),
    ensures
        recorded_calls(record).len() == record.len(),
        recorded_calls(record)[i] == match record[i] {
            Recorded::Published(time) => SinkCall::Published(time),
            Recorded::Executed(command) => SinkCall::Executed(
                CommandView { timestamp: command.timestamp, command: command.command@ },
            ),
        },
{
}

}
