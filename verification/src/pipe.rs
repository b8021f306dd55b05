//! The pipe line format `timestamp:command body`.

use vstd::prelude::*;
use vstd::string::*;

use crate::command::CommandPayload;
use crate::scheduler::{self, CommandView, ScheduledCommand};
use crate::text;

verus! {

/// `std::io::Error`, carried through as it came and never looked into.
#[verifier::external_type_specification]
#[verifier::external_body]
pub struct ExIoError(std::io::Error);

/// The text that `std::io::Error` prints of itself. It depends on the operating
/// system, so nothing is claimed of it.
#[verifier::external_body]
pub(crate) fn io_error_text(error: &std::io::Error) -> String {
    error.to_string()
}

/// A command parsed from a pipe line.
#[derive(Debug, PartialEq, Eq)]
pub struct PipeCommand {
    /// Target timestamp for execution.
    pub timestamp: u64,
    /// Command payload parsed from the line.
    pub command: CommandPayload,
}

impl View for PipeCommand {
    type V = CommandView;

    open spec fn view(&self) -> CommandView {
        CommandView { timestamp: self.timestamp, command: self.command@ }
    }
}

impl Clone for PipeCommand {
    fn clone(&self) -> (copy: Self)
        ensures
            copy@ == self@,
    {
        PipeCommand { timestamp: self.timestamp, command: self.command.clone() }
    }
}

impl PipeCommand {
    /// The command as the scheduler holds it.
    pub fn into_scheduled(self) -> (command: ScheduledCommand)
        ensures
            command@ == self@,
    {
        ScheduledCommand { timestamp: self.timestamp, command: self.command }
    }
}

/// Errors while parsing or reading pipe input.
#[derive(Debug)]
pub enum PipeParseError {
    /// The timestamp portion was not an unsigned integer.
    InvalidTimestamp(String),
    /// The line had no separator.
    MissingSeparator,
    /// Reading from the pipe failed.
    Io(std::io::Error),
}

/// What is wrong with a line, as plain values.
pub enum LineFault {
    /// The timestamp portion, which is not an unsigned integer.
    InvalidTimestamp(Seq<char>),
    /// There is no separator.
    MissingSeparator,
}

/// What a line in the pipe format says: everything before the first colon is the
/// timestamp and everything behind it the command, both without the whitespace
/// around them.
pub open spec fn pipe_line(line: Seq<char>) -> Result<CommandView, LineFault> {
    let stamp = text::trim(text::before(line, ':'));
    match text::after(line, ':') {
        None => Err(LineFault::MissingSeparator),
        Some(body) => match text::parsed_u64(stamp) {
            None => Err(LineFault::InvalidTimestamp(stamp)),
            Some(timestamp) => Ok(CommandView { timestamp, command: text::trim(body) }),
        },
    }
}

impl PipeParseError {
    /// Whether this error reports `fault`.
    pub open spec fn reports(&self, fault: LineFault) -> bool {
        match fault {
            LineFault::InvalidTimestamp(stamp) => self matches PipeParseError::InvalidTimestamp(
                text,
            ) && text@ == stamp,
            LineFault::MissingSeparator => self is MissingSeparator,
        }
    }

    /// The error as it is printed.
    pub fn to_string(&self) -> (message: String)
        ensures
            forall|fault: LineFault| #[trigger]
                self.reports(fault) ==> message@ == fault_message(fault),
    {
        match self {
            PipeParseError::InvalidTimestamp(stamp) => {
                let message = "invalid timestamp: ".to_owned().concat(stamp.as_str());
                message
            },
            PipeParseError::MissingSeparator => "missing separator ':' in instruction".to_owned(),
            PipeParseError::Io(error) => io_error_text(error),
        }
    }
}

/// The text that reports a fault in a line.
pub open spec fn fault_message(fault: LineFault) -> Seq<char> {
    match fault {
        LineFault::InvalidTimestamp(stamp) => "invalid timestamp: "@ + stamp,
        LineFault::MissingSeparator => "missing separator ':' in instruction"@,
    }
}

/// Whether `out` is what parsing a line to `parsed` returns.
pub open spec fn line_result(
    out: Result<PipeCommand, PipeParseError>,
    parsed: Result<CommandView, LineFault>,
) -> bool {
    match parsed {
        Ok(command) => out matches Ok(found) && found@ == command,
        Err(fault) => out matches Err(error) && error.reports(fault),
    }
}

/// Parses a line of the form `timestamp:command body`.
///
/// Whitespace around the timestamp and around the command body is dropped. An
/// empty command body is allowed.
pub fn parse_pipe_line(line: &str) -> (out: Result<PipeCommand, PipeParseError>)
    ensures
        line_result(out, pipe_line(line@)),
{
    let (head, tail) = text::cut(line, ':');
    let stamp = text::trimmed(head);
    match tail {
        None => Err(PipeParseError::MissingSeparator),
        Some(rest) => match text::parse_u64(stamp) {
            None => Err(PipeParseError::InvalidTimestamp(stamp.to_owned())),
            Some(timestamp) => {
                let body = text::trimmed(rest);
                Ok(PipeCommand { timestamp, command: CommandPayload::raw(body) })
            },
        },
    }
}

/// The command that one read of a line brings, if the read succeeded and the line
/// parses.
pub open spec fn line_command(read: Result<String, std::io::Error>) -> Option<CommandView> {
    match read {
        Ok(line) => match pipe_line(line@) {
            Ok(command) => Some(command),
            Err(_) => None,
        },
        Err(_) => None,
    }
}

/// How many of the reads in front bring a command.
pub open spec fn good_lines(reads: Seq<Result<String, std::io::Error>>) -> nat
    decreases reads.len(),
{
    if reads.len() == 0 || line_command(reads.first()) is None {
        0
    } else {
        1 + good_lines(reads.drop_first())
    }
}

/// The commands of the reads in front that bring one.
pub open spec fn good_commands(reads: Seq<Result<String, std::io::Error>>) -> Seq<CommandView> {
    Seq::new(good_lines(reads), |i: int| line_command(reads[i])->0)
}

/// Whether `error` says why a read brings no command.
pub open spec fn says_why(error: PipeParseError, read: Result<String, std::io::Error>) -> bool {
    match read {
        Ok(line) => pipe_line(line@) matches Err(fault) && error.reports(fault),
        Err(failure) => error == PipeParseError::Io(failure),
    }
}

/// Parses one more line and appends its command to those read so far. A line that
/// does not parse leaves them as they are.
pub fn accept_line(commands: &mut Vec<ScheduledCommand>, line: &str) -> (out: Result<
    (),
    PipeParseError,
>)
    ensures
        match pipe_line(line@) {
            Ok(command) => out is Ok && scheduler::views(final(commands)@) == scheduler::views(
                old(commands)@,
            ).push(command),
            Err(fault) => out matches Err(error) && error.reports(fault) && final(commands)@ == old(
                commands,
            )@,
        },
{
    match parse_pipe_line(line) {
        Ok(parsed) => {
            commands.push(parsed.into_scheduled());
            assert(scheduler::views(commands@) == scheduler::views(old(commands)@).push(
                pipe_line(line@)->Ok_0,
            ));
            Ok(())
        },
        Err(error) => Err(error),
    }
}

/// The commands of a sequence of line reads, all of them or none: the first read
/// that failed and the first line that does not parse end it with their error, so
/// that nothing goes on from ambiguous input.
pub fn read_pipe_commands(reads: Vec<Result<String, std::io::Error>>) -> (out: Result<
    Vec<ScheduledCommand>,
    PipeParseError,
>)
    ensures
        good_lines(reads@) <= reads@.len(),
        if good_lines(reads@) == reads@.len() {
            out matches Ok(commands) && scheduler::views(commands@) == good_commands(reads@)
        } else {
            out matches Err(error) && says_why(error, reads@[good_lines(reads@) as int])
        },
{
    let mut commands: Vec<ScheduledCommand> = Vec::new();
    let ghost all = reads@;
    assert(all.skip(0) == all);
    for read in it: reads
        invariant
            it.seq() == all,
            scheduler::views(commands@).len() == it.index(),
            good_lines(all) == it.index() + good_lines(all.skip(it.index())),
            forall|i: int|
                0 <= i < it.index() ==> line_command(all[i]) == Some(
                    #[trigger] scheduler::views(commands@)[i],
                ),
    {
        let ghost at = it.index();
        let ghost rest = all.skip(at);
        assert(rest.first() == read);
        assert(rest.drop_first() == all.skip(at + 1));
        match read {
            Ok(line) => {
                let taken = accept_line(&mut commands, line.as_str());
                if let Err(error) = taken {
                    assert(good_lines(all) == at);
                    return Err(error);
                }
            },
            Err(failure) => {
                assert(good_lines(all) == at);
                return Err(PipeParseError::Io(failure));
            },
        }
    }
    assert(all.skip(all.len() as int).len() == 0);
    assert(scheduler::views(commands@) == good_commands(all));
    Ok(commands)
}

// ---------------------------------------------------------------------------
// Laws
// ---------------------------------------------------------------------------

/// A line with a timestamp portion and a command body says what these two say, and
/// the whitespace around either does not matter.
pub proof fn whitespace_does_not_matter(stamp: Seq<char>, body: Seq<char>)
    requires
        !stamp.contains(':'),
    ensures
        pipe_line(stamp + seq![':'] + body) == pipe_line(
            text::trim(stamp) + seq![':'] + text::trim(body),
        ),
        pipe_line(stamp + seq![':'] + body) == match text::parsed_u64(text::trim(stamp)) {
            Some(timestamp) => Ok(CommandView { timestamp, command: text::trim(body) }),
            None => Err(LineFault::InvalidTimestamp(text::trim(stamp))),
        },
{
    if text::trim(stamp).contains(':') {
        text::trim_adds_nothing(stamp, ':');
    }
    text::cut_between(stamp, ':', body);
    text::cut_between(text::trim(stamp), ':', text::trim(body));
    text::trim_is_idempotent(stamp);
    text::trim_is_idempotent(body);
}

/// A timestamp in base ten, a colon and a command body read back as that timestamp
/// and that body, but for the whitespace around it.
pub proof fn line_reads_back(timestamp: u64, body: Seq<char>)
    ensures
        pipe_line(text::decimal(timestamp as nat) + seq![':'] + body) == Ok::<
            CommandView,
            LineFault,
        >(CommandView { timestamp, command: text::trim(body) }),
{
    let stamp = text::decimal(timestamp as nat);
    text::decimal_is_digits(timestamp as nat);
    text::decimal_reads_back(timestamp as nat);
    assert(text::is_digit(stamp[0]) && text::is_digit(stamp[stamp.len() - 1]));
    text::trim_keeps_bare_text(stamp);
    if stamp.contains(':') {
        let i = choose|i: int| 0 <= i < stamp.len() && stamp[i] == ':';
        assert(text::is_digit(stamp[i]));
    }
    whitespace_does_not_matter(stamp, body);
}

/// A line without a colon lacks its separator.
pub proof fn separator_is_needed(line: Seq<char>)
    ensures
        pipe_line(line) == Err::<CommandView, LineFault>(LineFault::MissingSeparator)
            <==> !line.contains(':'),
{
    if line.contains(':') {
        text::cut_is_first(line, ':');
    } else {
        text::cut_nowhere(line, ':');
    }
}

/// Whether a read brings a line in the pipe format.
pub open spec fn is_good(read: Result<String, std::io::Error>) -> bool {
    read matches Ok(line) && pipe_line(line@) is Ok
}

/// Reading a number of lines gives what each of them says, in order, as long as all are
/// good. Otherwise the first that is not decides.
pub proof fn all_lines_or_the_first_fault(
    good: Seq<Result<String, std::io::Error>>,
    bad: Result<String, std::io::Error>,
    rest: Seq<Result<String, std::io::Error>>,
)
    requires
        forall|i: int| 0 <= i < good.len() ==> is_good(#[trigger] good[i]),
    ensures
        good_lines(good) == good.len(),
        good_commands(good).len() == good.len(),
        forall|i: int|
            0 <= i < good.len() ==> (good[i] matches Ok(line) && pipe_line(line@) == Ok::<
                CommandView,
                LineFault,
            >(#[trigger] good_commands(good)[i])),
        !is_good(bad) ==> good_lines(good + seq![bad] + rest) == good.len(),
    decreases good.len(),
{
    let all = good + seq![bad] + rest;
    if good.len() == 0 {
        assert(all.first() == bad);
    } else {
        let shorter = good.drop_first();
        assert forall|i: int| 0 <= i < shorter.len() implies is_good(#[trigger] shorter[i]) by {
            assert(shorter[i] == good[i + 1]);
        }
        assert(is_good(good[0]));
        assert(all.first() == good[0]);
        assert(all.drop_first() =~= shorter + seq![bad] + rest);
        all_lines_or_the_first_fault(shorter, bad, rest);
    }
    assert forall|i: int| 0 <= i < good.len() implies (good[i] matches Ok(line) && pipe_line(line@)
        == Ok::<CommandView, LineFault>(#[trigger] good_commands(good)[i])) by {
        assert(is_good(good[i]));
    }
}

/// What is said of a read that brings no command: the failure of the read as it came, the
/// timestamp that is none, or that there is no separator.
pub proof fn what_is_wrong(
    error: PipeParseError,
    failure: std::io::Error,
    line: String,
    stamp: Seq<char>,
)
    ensures
        says_why(error, Err(failure)) <==> error == PipeParseError::Io(failure),
        pipe_line(line@) == Err::<CommandView, LineFault>(LineFault::MissingSeparator) ==> (
        says_why(error, Ok(line)) <==> error is MissingSeparator),
        pipe_line(line@) == Err::<CommandView, LineFault>(LineFault::InvalidTimestamp(stamp)) ==> (
        says_why(error, Ok(line)) <==> (error matches PipeParseError::InvalidTimestamp(text)
            && text@ == stamp)),
        pipe_line(line@) is Ok ==> !says_why(error, Ok(line)),
{
}

/// How the two faults of a line are told.
pub proof fn how_faults_are_told(stamp: Seq<char>)
    ensures
        fault_message(LineFault::InvalidTimestamp(stamp)) == "invalid timestamp: "@ + stamp,
        fault_message(LineFault::MissingSeparator) == "missing separator ':' in instruction"@,
{
}

/// Only the first colon parts a line: what stands behind it is the command, colons and
/// all, character for character.
pub proof fn bodies_stand_as_sent(
    front: Seq<char>,
    timestamp: u64,
    gap: Seq<char>,
    body: Seq<char>,
    end: Seq<char>,
)
    requires
        !front.contains(':'),
        text::parsed_u64(text::trim(front)) == Some(timestamp),
        text::all_white(gap),
        text::is_bare(body),
        text::all_white(end),
    ensures
        pipe_line(front + seq![':'] + (gap + body + end)) == Ok::<CommandView, LineFault>(
            CommandView { timestamp, command: body },
        ),
{
    text::cut_between(front, ':', gap + body + end);
    text::trim_finds_the_bare_text(gap, body, end);
}

}
