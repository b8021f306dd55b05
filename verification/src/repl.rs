//! The command language of the interactive client.

use vstd::prelude::*;
use vstd::string::*;

use crate::command::CommandPayload;
use crate::scheduler::{CommandView, ScheduledCommand};
use crate::text;
use crate::windows_pipe::{self, Verb};

verus! {

/// A command of the interactive client.
#[derive(Debug, PartialEq, Eq)]
pub enum ReplCommand {
    /// Begin ticking on the configured interval.
    Start,
    /// Pause ticking.
    Stop,
    /// Advance one tick at the current rate.
    Tick,
    /// Advance by an explicit delta.
    Step(u64),
    /// Jump to a target timestamp.
    Advance(u64),
    /// Run a fixed number of ticks.
    RunTicks(u64),
    /// Set the tick rate.
    SetRate(u64),
    /// Schedule a command.
    Enqueue(ScheduledCommand),
    /// Parse a line in the pipe format and schedule its command.
    PipeLine(String),
    /// Print the simulated time.
    Now,
    /// Show the command reference.
    Help,
    /// Terminate the client.
    Quit,
}

/// A command of the interactive client, as plain values.
pub enum ReplView {
    /// Begin ticking.
    Start,
    /// Pause ticking.
    Stop,
    /// Advance one tick.
    Tick,
    /// Advance by a delta.
    Step(u64),
    /// Jump to a timestamp.
    Advance(u64),
    /// Run a number of ticks.
    RunTicks(u64),
    /// Set the tick rate.
    SetRate(u64),
    /// Schedule a command.
    Enqueue(CommandView),
    /// Parse and schedule a pipe line.
    PipeLine(Seq<char>),
    /// Print the time.
    Now,
    /// Show the command reference.
    Help,
    /// Terminate the client.
    Quit,
}

impl View for ReplCommand {
    type V = ReplView;

    open spec fn view(&self) -> ReplView {
        match self {
            ReplCommand::Start => ReplView::Start,
            ReplCommand::Stop => ReplView::Stop,
            ReplCommand::Tick => ReplView::Tick,
            ReplCommand::Step(delta) => ReplView::Step(*delta),
            ReplCommand::Advance(target) => ReplView::Advance(*target),
            ReplCommand::RunTicks(ticks) => ReplView::RunTicks(*ticks),
            ReplCommand::SetRate(rate) => ReplView::SetRate(*rate),
            ReplCommand::Enqueue(command) => ReplView::Enqueue(command@),
            ReplCommand::PipeLine(line) => ReplView::PipeLine(line@),
            ReplCommand::Now => ReplView::Now,
            ReplCommand::Help => ReplView::Help,
            ReplCommand::Quit => ReplView::Quit,
        }
    }
}

/// The outcome of reading a command, as plain values.
pub open spec fn outcome(out: Result<ReplCommand, String>) -> Result<ReplView, Seq<char>> {
    match out {
        Ok(command) => Ok(command@),
        Err(message) => Err(message@),
    }
}

/// The number that a verb takes, without the whitespace around it.
pub open spec fn number_of(verb: Verb, rest: Seq<char>) -> Result<u64, Seq<char>> {
    match text::parsed_u64(text::trim(rest)) {
        Some(number) => if verb is Rate && number == 0 {
            Err(windows_pipe::zero_rate_message())
        } else {
            Ok(number)
        },
        None => Err(windows_pipe::usage(verb)),
    }
}

/// The scheduled command of an `enqueue`: a timestamp, a space and a command that is
/// not empty.
pub open spec fn enqueue_arguments(rest: Seq<char>) -> Result<CommandView, Seq<char>> {
    match text::parsed_u64(text::trim(text::before(rest, ' '))) {
        None => Err("timestamp must be a non-negative integer"@),
        Some(timestamp) => match text::after(rest, ' ') {
            Some(body) if text::trim(body).len() > 0 => Ok(
                CommandView { timestamp, command: text::trim(body) },
            ),
            _ => Err("usage: enqueue <timestamp> <command>"@),
        },
    }
}

/// What a command says whose first word, in small letters, is `word` and whose rest
/// is `rest`.
pub open spec fn command(word: Seq<char>, rest: Seq<char>) -> Result<ReplView, Seq<char>> {
    if word == "start"@ {
        Ok(ReplView::Start)
    } else if word == "stop"@ {
        Ok(ReplView::Stop)
    } else if word == "tick"@ {
        Ok(ReplView::Tick)
    } else if word == "now"@ {
        Ok(ReplView::Now)
    } else if word == "help"@ {
        Ok(ReplView::Help)
    } else if word == "quit"@ || word == "exit"@ {
        Ok(ReplView::Quit)
    } else if word == "step"@ {
        match number_of(Verb::Step, rest) {
            Ok(delta) => Ok(ReplView::Step(delta)),
            Err(message) => Err(message),
        }
    } else if word == "advance"@ {
        match number_of(Verb::Advance, rest) {
            Ok(target) => Ok(ReplView::Advance(target)),
            Err(message) => Err(message),
        }
    } else if word == "run"@ {
        match number_of(Verb::Run, rest) {
            Ok(ticks) => Ok(ReplView::RunTicks(ticks)),
            Err(message) => Err(message),
        }
    } else if word == "rate"@ {
        match number_of(Verb::Rate, rest) {
            Ok(rate) => Ok(ReplView::SetRate(rate)),
            Err(message) => Err(message),
        }
    } else if word == "enqueue"@ {
        match enqueue_arguments(rest) {
            Ok(scheduled) => Ok(ReplView::Enqueue(scheduled)),
            Err(message) => Err(message),
        }
    } else if word == "pipe"@ {
        if text::trim(rest).len() == 0 {
            Err("usage: pipe <timestamp:command>"@)
        } else {
            Ok(ReplView::PipeLine(text::trim(rest)))
        }
    } else {
        Err("unknown command '"@ + word + "'"@)
    }
}

/// The first word of a line, as it stands there.
pub open spec fn first_word(line: Seq<char>) -> Seq<char> {
    text::before(text::trim(line), ' ')
}

/// What follows the first word of a line and the space behind it.
pub open spec fn arguments(line: Seq<char>) -> Seq<char> {
    match text::after(text::trim(line), ' ') {
        Some(rest) => rest,
        None => Seq::empty(),
    }
}

/// What a line says, given its first word in small letters.
pub open spec fn repl_line(line: Seq<char>, word: Seq<char>) -> Result<ReplView, Seq<char>> {
    if text::trim(line).len() == 0 {
        Err("empty input"@)
    } else {
        command(word, arguments(line))
    }
}

/// What a line says. Its first word counts in small letters.
pub open spec fn reading(line: Seq<char>) -> Result<ReplView, Seq<char>> {
    repl_line(line, text::lowercase(text::ascii_lower(first_word(line))))
}

/// The number that a verb takes.
fn read_number(verb: Verb, rest: &str) -> (out: Result<u64, String>)
    ensures
        match out {
            Ok(number) => number_of(verb, rest@) == Ok::<u64, Seq<char>>(number),
            Err(message) => number_of(verb, rest@) == Err::<u64, Seq<char>>(message@),
        },
{
    match text::parse_u64(text::trimmed(rest)) {
        Some(number) => if verb == Verb::Rate && number == 0 {
            Err("tick rate must be greater than zero".to_owned())
        } else {
            Ok(number)
        },
        None => Err(windows_pipe::usage_text(verb).to_owned()),
    }
}

/// The scheduled command of an `enqueue`.
fn read_enqueue(rest: &str) -> (out: Result<ScheduledCommand, String>)
    ensures
        match out {
            Ok(scheduled) => enqueue_arguments(rest@) == Ok::<CommandView, Seq<char>>(scheduled@),
            Err(message) => enqueue_arguments(rest@) == Err::<CommandView, Seq<char>>(message@),
        },
{
    let (head, tail) = text::cut(rest, ' ');
    let timestamp: u64 = match text::parse_u64(text::trimmed(head)) {
        Some(timestamp) => timestamp,
        None => {
            return Err("timestamp must be a non-negative integer".to_owned());
        },
    };
    if let Some(tail) = tail {
        let body = text::trimmed(tail);
        if !body.is_empty() {
            return Ok(ScheduledCommand { timestamp, command: CommandPayload::raw(body) });
        }
    }
    Err("usage: enqueue <timestamp> <command>".to_owned())
}

/// Reads a command from its first word, in small letters, and the rest of its line.
pub fn interpret_command(word: &str, rest: &str) -> (out: Result<ReplCommand, String>)
    ensures
        outcome(out) == command(word@, rest@),
{
    if text::same_text(word, "start") {
        Ok(ReplCommand::Start)
    } else if text::same_text(word, "stop") {
        Ok(ReplCommand::Stop)
    } else if text::same_text(word, "tick") {
        Ok(ReplCommand::Tick)
    } else if text::same_text(word, "now") {
        Ok(ReplCommand::Now)
    } else if text::same_text(word, "help") {
        Ok(ReplCommand::Help)
    } else if text::same_text(word, "quit") || text::same_text(word, "exit") {
        Ok(ReplCommand::Quit)
    } else if text::same_text(word, "step") {
        match read_number(Verb::Step, rest) {
            Ok(delta) => Ok(ReplCommand::Step(delta)),
            Err(message) => Err(message),
        }
    } else if text::same_text(word, "advance") {
        match read_number(Verb::Advance, rest) {
            Ok(target) => Ok(ReplCommand::Advance(target)),
            Err(message) => Err(message),
        }
    } else if text::same_text(word, "run") {
        match read_number(Verb::Run, rest) {
            Ok(ticks) => Ok(ReplCommand::RunTicks(ticks)),
            Err(message) => Err(message),
        }
    } else if text::same_text(word, "rate") {
        match read_number(Verb::Rate, rest) {
            Ok(rate) => Ok(ReplCommand::SetRate(rate)),
            Err(message) => Err(message),
        }
    } else if text::same_text(word, "enqueue") {
        match read_enqueue(rest) {
            Ok(scheduled) => Ok(ReplCommand::Enqueue(scheduled)),
            Err(message) => Err(message),
        }
    } else if text::same_text(word, "pipe") {
        let line = text::trimmed(rest);
        if line.is_empty() {
            Err("usage: pipe <timestamp:command>".to_owned())
        } else {
            Ok(ReplCommand::PipeLine(line.to_owned()))
        }
    } else {
        Err("unknown command '".to_owned().concat(word).concat("'"))
    }
}

/// Parses a line that was typed into the client.
///
/// Whitespace around the line is ignored and so is the case of its first word. Every
/// subcommand checks its arguments and answers with how it is used when they do not
/// fit. Empty lines and unknown commands are errors.
pub fn parse_repl_command(line: &str) -> (out: Result<ReplCommand, String>)
    ensures
        outcome(out) == reading(line@),
        outcome(out) == repl_line(line@, text::lowercase(first_word(line@))),
        vstd::utf8::is_ascii_chars(first_word(line@)) ==> outcome(out) == repl_line(
            line@,
            text::ascii_lower(first_word(line@)),
        ),
{
    let trimmed = text::trimmed(line);
    if trimmed.is_empty() {
        return Err("empty input".to_owned());
    }
    let (head, tail) = text::cut(trimmed, ' ');
    let rest = match tail {
        Some(rest) => rest,
        None => {
            proof {
                reveal_strlit("");
                assert(""@ == Seq::<char>::empty());
            }
            ""
        },
    };
    let word = text::lowercased(head);
    interpret_command(word.as_str(), rest)
}

/// A command as it is sent to a remote listener. What concerns the client alone is
/// not sent.
pub open spec fn serialized(command: ReplView) -> Option<Seq<char>> {
    match command {
        ReplView::Start => Some("start"@),
        ReplView::Stop => Some("stop"@),
        ReplView::Tick => Some("tick"@),
        ReplView::Step(delta) => Some("step "@ + text::decimal(delta as nat)),
        ReplView::Advance(target) => Some("advance "@ + text::decimal(target as nat)),
        ReplView::RunTicks(ticks) => Some("run "@ + text::decimal(ticks as nat)),
        ReplView::SetRate(rate) => Some("rate "@ + text::decimal(rate as nat)),
        ReplView::Enqueue(scheduled) => Some(
            text::decimal(scheduled.timestamp as nat) + ":"@ + scheduled.command,
        ),
        ReplView::PipeLine(line) => Some(line),
        ReplView::Now => Some("now"@),
        ReplView::Help => None,
        ReplView::Quit => None,
    }
}

/// A verb and its number.
fn with_decimal(word: &str, number: u64) -> (out: String)
    ensures
        out@ == word@ + text::decimal(number as nat),
{
    word.to_owned().concat(text::decimal_text(number).as_str())
}

/// The line that sends a command to a remote listener, or nothing for `help` and
/// `quit`, which concern the client alone.
pub fn serialize_repl_command(command: &ReplCommand) -> (out: Option<String>)
    ensures
        match out {
            Some(line) => serialized(command@) == Some(line@),
            None => serialized(command@) is None,
        },
{
    match command {
        ReplCommand::Start => Some("start".to_owned()),
        ReplCommand::Stop => Some("stop".to_owned()),
        ReplCommand::Tick => Some("tick".to_owned()),
        ReplCommand::Step(delta) => Some(with_decimal("step ", *delta)),
        ReplCommand::Advance(target) => Some(with_decimal("advance ", *target)),
        ReplCommand::RunTicks(ticks) => Some(with_decimal("run ", *ticks)),
        ReplCommand::SetRate(rate) => Some(with_decimal("rate ", *rate)),
        ReplCommand::Enqueue(scheduled) => Some(
            text::decimal_text(scheduled.timestamp).concat(":").concat(
                scheduled.command.as_str(),
            ),
        ),
        ReplCommand::PipeLine(line) => Some(line.clone()),
        ReplCommand::Now => Some("now".to_owned()),
        ReplCommand::Help => None,
        ReplCommand::Quit => None,
    }
}

// ---------------------------------------------------------------------------
// Laws
// ---------------------------------------------------------------------------


/// The whitespace around a line does not matter.
pub proof fn whitespace_is_ignored(line: Seq<char>, word: Seq<char>)
    ensures
        first_word(text::trim(line)) == first_word(line),
        repl_line(text::trim(line), word) == repl_line(line, word),
        reading(text::trim(line)) == reading(line),
{
    text::trim_is_idempotent(line);
}

/// The case of ASCII letters in the first word does not matter: a line says the same
/// with its first word spelled in another case.
pub proof fn case_is_ignored(line: Seq<char>, respelled: Seq<char>)
    requires
        text::ascii_lower(respelled) == text::ascii_lower(first_word(line)),
    ensures
        reading(respelled + text::trim(line).skip(first_word(line).len() as int)) == reading(line),
{
    let bare = text::trim(line);
    let word = first_word(line);
    let tail = bare.skip(word.len() as int);
    let other = respelled + tail;
    text::cut_is_first(bare, ' ');
    text::trim_leaves_no_edge(line);
    assert(respelled.len() == text::ascii_lower(respelled).len());
    assert(word.len() == text::ascii_lower(word).len());
    assert forall|i: int| 0 <= i < word.len() implies text::is_white(#[trigger] respelled[i])
        == text::is_white(word[i]) && (respelled[i] == ' ') == (word[i] == ' ') by {
        assert(text::ascii_lower(respelled)[i] == text::ascii_lower_char(respelled[i]));
        assert(text::ascii_lower(word)[i] == text::ascii_lower_char(word[i]));
        lemma_same_whiteness(respelled[i], word[i]);
    }
    assert(!respelled.contains(' ')) by {
        if respelled.contains(' ') {
            let i = choose|i: int| 0 <= i < respelled.len() && respelled[i] == ' ';
            assert(word[i] == ' ');
        }
    }
    if bare.len() > 0 {
        assert(word.len() > 0) by {
            if word.len() == 0 {
                assert(bare[0] == ' ');
            }
        }
        assert(bare[0] == word[0]);
        assert(other.first() == respelled[0]);
        if tail.len() > 0 {
            assert(other.last() == bare.last());
        } else {
            assert(bare =~= word);
            assert(other.last() == respelled[respelled.len() - 1]);
        }
    }
    text::trim_keeps_bare_text(other);
    match text::after(bare, ' ') {
        Some(rest) => {
            assert(tail =~= seq![' '] + rest);
            assert(other =~= respelled + seq![' '] + rest);
            text::cut_between(respelled, ' ', rest);
        },
        None => {
            assert(other =~= respelled);
            text::cut_nowhere(respelled, ' ');
        },
    }
}

proof fn lemma_same_whiteness(a: char, b: char)
    requires
        text::ascii_lower_char(a) == text::ascii_lower_char(b),
    ensures
        text::is_white(a) == text::is_white(b),
        (a == ' ') == (b == ' '),
{
}

/// What a user can type is checked: no tick rate is zero, and neither a command to
/// schedule nor a pipe line is empty or has whitespace around it.
pub proof fn commands_are_checked(line: Seq<char>, word: Seq<char>)
    ensures
        match repl_line(line, word) {
            Ok(ReplView::SetRate(rate)) => rate > 0,
            Ok(ReplView::Enqueue(scheduled)) => scheduled.command.len() > 0 && text::trim(
                scheduled.command,
            ) == scheduled.command,
            Ok(ReplView::PipeLine(piped)) => piped.len() > 0 && text::trim(piped) == piped,
            _ => true,
        },
{
    let rest = arguments(line);
    text::trim_is_idempotent(rest);
    if let Some(body) = text::after(rest, ' ') {
        text::trim_is_idempotent(body);
    }
}

/// A command that is sent as its own words is typed the same way: start, stop, tick,
/// now, and step, advance, run and a rate other than zero parse back from their line.
pub proof fn serialized_commands_parse_back(command: ReplView, line: Seq<char>)
    requires
        serialized(command) == Some(line),
        !(command is Enqueue) && !(command is PipeLine),
        command matches ReplView::SetRate(rate) ==> rate > 0,
    ensures
        vstd::utf8::is_ascii_chars(first_word(line)),
        repl_line(line, text::ascii_lower(first_word(line))) == Ok::<ReplView, Seq<char>>(command),
{
    lemma_words();
    match command {
        ReplView::Start => lemma_word_alone(line),
        ReplView::Stop => lemma_word_alone(line),
        ReplView::Tick => lemma_word_alone(line),
        ReplView::Now => lemma_word_alone(line),
        ReplView::Step(delta) => {
            reveal_strlit("step ");
            reveal_strlit("step");
            assert("step "@ =~= "step"@ + seq![' ']);
            lemma_word_and_number("step"@, delta);
        },
        ReplView::Advance(target) => {
            reveal_strlit("advance ");
            reveal_strlit("advance");
            assert("advance "@ =~= "advance"@ + seq![' ']);
            lemma_word_and_number("advance"@, target);
        },
        ReplView::RunTicks(ticks) => {
            reveal_strlit("run ");
            reveal_strlit("run");
            assert("run "@ =~= "run"@ + seq![' ']);
            lemma_word_and_number("run"@, ticks);
        },
        ReplView::SetRate(rate) => {
            reveal_strlit("rate ");
            reveal_strlit("rate");
            assert("rate "@ =~= "rate"@ + seq![' ']);
            lemma_word_and_number("rate"@, rate);
        },
        _ => {},
    }
}

/// A word of small letters.
spec fn small_word(word: Seq<char>) -> bool {
    word.len() > 0 && forall|i: int| 0 <= i < word.len() ==> 'a' <= #[trigger] word[i] <= 'z'
}

proof fn lemma_small_word(word: Seq<char>)
    requires
        small_word(word),
    ensures
        vstd::utf8::is_ascii_chars(word),
        text::ascii_lower(word) == word,
        !word.contains(' '),
        !text::is_white(word.first()) && !text::is_white(word.last()),
{
    assert(text::ascii_lower(word) =~= word);
    assert('a' <= word[word.len() - 1]);
}

proof fn lemma_word_alone(word: Seq<char>)
    requires
        small_word(word),
    ensures
        text::trim(word) == word,
        first_word(word) == word,
        vstd::utf8::is_ascii_chars(word),
        text::ascii_lower(word) == word,
{
    lemma_small_word(word);
    text::trim_keeps_bare_text(word);
    text::cut_nowhere(word, ' ');
}

proof fn lemma_word_and_number(word: Seq<char>, number: u64)
    requires
        small_word(word),
    ensures
        ({
            let line = word + seq![' '] + text::decimal(number as nat);
            &&& text::trim(line) == line
            &&& first_word(line) == word
            &&& arguments(line) == text::decimal(number as nat)
            &&& vstd::utf8::is_ascii_chars(word)
            &&& text::ascii_lower(word) == word
            &&& text::parsed_u64(text::trim(arguments(line))) == Some(number)
        }),
{
    let digits = text::decimal(number as nat);
    let line = word + seq![' '] + digits;
    lemma_small_word(word);
    text::decimal_is_digits(number as nat);
    text::decimal_reads_back(number as nat);
    assert(text::is_digit(digits[0]) && text::is_digit(digits[digits.len() - 1]));
    assert(line.first() == word.first() && line.last() == digits.last());
    text::trim_keeps_bare_text(line);
    text::trim_keeps_bare_text(digits);
    text::cut_between(word, ' ', digits);
}

proof fn lemma_words()
    ensures
        small_word("start"@),
        small_word("stop"@),
        small_word("tick"@),
        small_word("now"@),
        small_word("step"@),
        small_word("advance"@),
        small_word("run"@),
        small_word("rate"@),
        forall|rest: Seq<char>| #[trigger]
            command("start"@, rest) == Ok::<ReplView, Seq<char>>(ReplView::Start),
        forall|rest: Seq<char>| #[trigger]
            command("stop"@, rest) == Ok::<ReplView, Seq<char>>(ReplView::Stop),
        forall|rest: Seq<char>| #[trigger]
            command("tick"@, rest) == Ok::<ReplView, Seq<char>>(ReplView::Tick),
        forall|rest: Seq<char>| #[trigger]
            command("now"@, rest) == Ok::<ReplView, Seq<char>>(ReplView::Now),
        forall|rest: Seq<char>| #[trigger]
            command("step"@, rest) == match number_of(Verb::Step, rest) {
                Ok(delta) => Ok(ReplView::Step(delta)),
                Err(message) => Err(message),
            },
        forall|rest: Seq<char>| #[trigger]
            command("advance"@, rest) == match number_of(Verb::Advance, rest) {
                Ok(target) => Ok(ReplView::Advance(target)),
                Err(message) => Err(message),
            },
        forall|rest: Seq<char>| #[trigger]
            command("run"@, rest) == match number_of(Verb::Run, rest) {
                Ok(ticks) => Ok(ReplView::RunTicks(ticks)),
                Err(message) => Err(message),
            },
        forall|rest: Seq<char>| #[trigger]
            command("rate"@, rest) == match number_of(Verb::Rate, rest) {
                Ok(rate) => Ok(ReplView::SetRate(rate)),
                Err(message) => Err(message),
            },
{
    reveal_strlit("start");
    reveal_strlit("stop");
    reveal_strlit("tick");
    reveal_strlit("now");
    reveal_strlit("help");
    reveal_strlit("quit");
    reveal_strlit("exit");
    reveal_strlit("step");
    reveal_strlit("advance");
    reveal_strlit("run");
    reveal_strlit("rate");
    assert("stop"@[2] == 'o');
    assert("step"@[2] == 'e');
    assert("tick"@[0] == 't');
    assert("rate"@[0] == 'r');
    assert("help"@[0] == 'h');
    assert("quit"@[0] == 'q');
    assert("exit"@[0] == 'e');
    assert("now"@[0] == 'n');
    assert("run"@[0] == 'r');
    assert("advance"@.len() == 7);
}

/// Whether a line, whose first word has ASCII letters only, is read to `result`.
pub open spec fn reads_as(line: Seq<char>, result: Result<ReplView, Seq<char>>) -> bool {
    &&& vstd::utf8::is_ascii_chars(first_word(line))
    &&& repl_line(line, text::ascii_lower(first_word(line))) == result
}

/// A pipe line is taken as it was typed, character for character: only the first word of
/// a line is read in small letters.
pub proof fn piped_text_stands_as_typed(typed: Seq<char>, gap: Seq<char>, piped: Seq<char>)
    requires
        text::ascii_lower(typed) == "pipe"@,
        text::all_white(gap),
        piped.len() > 0,
        text::is_bare(piped),
    ensures
        reads_as(
            typed + seq![' '] + (gap + piped),
            Ok::<ReplView, Seq<char>>(ReplView::PipeLine(piped)),
        ),
{
    lemma_more_words();
    lemma_line(typed, "pipe"@, gap, piped);
}

/// A command to schedule is taken as it was typed, character for character, at the
/// timestamp in front of it.
pub proof fn enqueued_text_stands_as_typed(
    typed: Seq<char>,
    stamp: Seq<char>,
    timestamp: u64,
    gap: Seq<char>,
    body: Seq<char>,
)
    requires
        text::ascii_lower(typed) == "enqueue"@,
        !stamp.contains(' '),
        text::parsed_u64(text::trim(stamp)) == Some(timestamp),
        text::all_white(gap),
        body.len() > 0,
        text::is_bare(body),
    ensures
        reads_as(
            typed + seq![' '] + (stamp + seq![' '] + (gap + body)),
            Ok::<ReplView, Seq<char>>(
                ReplView::Enqueue(CommandView { timestamp, command: body }),
            ),
        ),
{
    lemma_more_words();
    let rest = stamp + seq![' '] + (gap + body);
    assert(rest[rest.len() - 1] == body[body.len() - 1]);
    lemma_word_and_rest(typed, "enqueue"@, rest);
    text::cut_between(stamp, ' ', gap + body);
    text::trim_finds_the_bare_text(gap, body, Seq::empty());
    assert(gap + body + Seq::<char>::empty() =~= gap + body);
}

/// The commands with a number are their word, in large or small letters, and the number.
/// A rate of zero is refused.
pub proof fn numbered_commands(
    typed: Seq<char>,
    gap: Seq<char>,
    argument: Seq<char>,
    number: u64,
)
    requires
        text::all_white(gap),
        argument.len() > 0,
        text::is_bare(argument),
        text::parsed_u64(argument) == Some(number),
    ensures
        ({
            let line = typed + seq![' '] + (gap + argument);
            let word = text::ascii_lower(typed);
            &&& word == "step"@ ==> reads_as(
                line,
                Ok::<ReplView, Seq<char>>(ReplView::Step(number)),
            )
            &&& word == "advance"@ ==> reads_as(
                line,
                Ok::<ReplView, Seq<char>>(ReplView::Advance(number)),
            )
            &&& word == "run"@ ==> reads_as(
                line,
                Ok::<ReplView, Seq<char>>(ReplView::RunTicks(number)),
            )
            &&& word == "rate"@ && number > 0 ==> reads_as(
                line,
                Ok::<ReplView, Seq<char>>(ReplView::SetRate(number)),
            )
            &&& word == "rate"@ && number == 0 ==> reads_as(
                line,
                Err::<ReplView, Seq<char>>("tick rate must be greater than zero"@),
            )
        }),
{
    lemma_words();
    let word = text::ascii_lower(typed);
    if word == "step"@ || word == "advance"@ || word == "run"@ || word == "rate"@ {
        lemma_line(typed, word, gap, argument);
    }
}

/// A command with a number is refused with how it is used where no number stands behind
/// its word.
pub proof fn commands_need_their_number(typed: Seq<char>, gap: Seq<char>, argument: Seq<char>)
    requires
        text::all_white(gap),
        argument.len() > 0,
        text::is_bare(argument),
        text::parsed_u64(argument) is None,
    ensures
        ({
            let line = typed + seq![' '] + (gap + argument);
            let word = text::ascii_lower(typed);
            &&& word == "step"@ ==> is_refused(typed, line, "usage: step <non-negative delta>"@)
            &&& word == "advance"@ ==> is_refused(typed, line, "usage: advance <target timestamp>"@)
            &&& word == "run"@ ==> is_refused(typed, line, "usage: run <number of ticks>"@)
            &&& word == "rate"@ ==> is_refused(typed, line, "usage: rate <non-zero u64>"@)
        }),
{
    lemma_words();
    let word = text::ascii_lower(typed);
    if word == "step"@ || word == "advance"@ || word == "run"@ || word == "rate"@ {
        lemma_line(typed, word, gap, argument);
        lemma_typed_alone(typed, word);
        text::other_texts_are_no_numbers(Seq::empty(), 0);
    }
}

/// Whether a word alone and a line with it are both refused with `message`.
pub open spec fn is_refused(typed: Seq<char>, line: Seq<char>, message: Seq<char>) -> bool {
    &&& reads_as(typed, Err::<ReplView, Seq<char>>(message))
    &&& reads_as(line, Err::<ReplView, Seq<char>>(message))
}

/// The commands without a number are their word, in large or small letters, alone or with
/// anything behind it.
pub proof fn plain_commands(typed: Seq<char>, rest: Seq<char>)
    requires
        rest.len() > 0,
        !text::is_white(rest[rest.len() - 1]),
    ensures
        text::ascii_lower(typed) == "start"@ ==> is_command(typed, rest, ReplView::Start),
        text::ascii_lower(typed) == "stop"@ ==> is_command(typed, rest, ReplView::Stop),
        text::ascii_lower(typed) == "tick"@ ==> is_command(typed, rest, ReplView::Tick),
        text::ascii_lower(typed) == "now"@ ==> is_command(typed, rest, ReplView::Now),
        text::ascii_lower(typed) == "help"@ ==> is_command(typed, rest, ReplView::Help),
        text::ascii_lower(typed) == "quit"@ ==> is_command(typed, rest, ReplView::Quit),
        text::ascii_lower(typed) == "exit"@ ==> is_command(typed, rest, ReplView::Quit),
{
    lemma_words();
    lemma_more_words();
    let word = text::ascii_lower(typed);
    if word == "start"@ || word == "stop"@ || word == "tick"@ || word == "now"@ || word == "help"@
        || word == "quit"@ || word == "exit"@ {
        lemma_word_and_rest(typed, word, rest);
        lemma_typed_alone(typed, word);
    }
}

/// Whether a word is a command, alone and with a rest behind it.
pub open spec fn is_command(typed: Seq<char>, rest: Seq<char>, command: ReplView) -> bool {
    &&& reads_as(typed, Ok::<ReplView, Seq<char>>(command))
    &&& reads_as(typed + seq![' '] + rest, Ok::<ReplView, Seq<char>>(command))
}

/// What is missing behind `enqueue` and `pipe` is told: a timestamp first, then the
/// command, and a line in the pipe format.
pub proof fn arguments_are_needed(typed: Seq<char>, stamp: Seq<char>)
    requires
        stamp.len() > 0,
        text::is_bare(stamp),
        !stamp.contains(' '),
    ensures
        text::ascii_lower(typed) == "pipe"@ ==> reads_as(
            typed,
            Err::<ReplView, Seq<char>>("usage: pipe <timestamp:command>"@),
        ),
        text::ascii_lower(typed) == "enqueue"@ ==> reads_as(
            typed,
            Err::<ReplView, Seq<char>>("timestamp must be a non-negative integer"@),
        ),
        text::ascii_lower(typed) == "enqueue"@ && text::parsed_u64(stamp) is Some ==> reads_as(
            typed + seq![' '] + stamp,
            Err::<ReplView, Seq<char>>("usage: enqueue <timestamp> <command>"@),
        ),
{
    lemma_more_words();
    let word = text::ascii_lower(typed);
    if word == "pipe"@ || word == "enqueue"@ {
        lemma_typed_alone(typed, word);
        lemma_word_and_rest(typed, word, stamp);
        text::other_texts_are_no_numbers(Seq::empty(), 0);
        text::cut_nowhere(Seq::empty(), ' ');
        text::trim_keeps_bare_text(Seq::empty());
        text::cut_nowhere(stamp, ' ');
        text::trim_keeps_bare_text(stamp);
    }
}

/// What stands behind `enqueue` up to the next space has to be a timestamp, whatever comes
/// after it.
pub proof fn timestamps_are_needed(typed: Seq<char>, stamp: Seq<char>, rest: Seq<char>)
    requires
        text::ascii_lower(typed) == "enqueue"@,
        !stamp.contains(' '),
        text::parsed_u64(text::trim(stamp)) is None,
        rest.len() > 0,
        !text::is_white(rest[rest.len() - 1]),
    ensures
        reads_as(
            typed + seq![' '] + (stamp + seq![' '] + rest),
            Err::<ReplView, Seq<char>>("timestamp must be a non-negative integer"@),
        ),
{
    lemma_more_words();
    let all = stamp + seq![' '] + rest;
    assert(all[all.len() - 1] == rest[rest.len() - 1]);
    lemma_word_and_rest(typed, "enqueue"@, all);
    text::cut_between(stamp, ' ', rest);
}

/// Any other word is no command, and neither is a line of whitespace.
pub proof fn other_words_are_unknown(line: Seq<char>, word: Seq<char>, blank: Seq<char>)
    requires
        text::trim(line).len() > 0,
        text::all_white(blank),
        word != "start"@ && word != "stop"@ && word != "tick"@ && word != "now"@ && word
            != "help"@ && word != "quit"@ && word != "exit"@,
        word != "step"@ && word != "advance"@ && word != "run"@ && word != "rate"@ && word
            != "enqueue"@ && word != "pipe"@,
    ensures
        repl_line(line, word) == Err::<ReplView, Seq<char>>("unknown command '"@ + word + "'"@),
        repl_line(blank, word) == Err::<ReplView, Seq<char>>("empty input"@),
{
    text::trim_finds_the_bare_text(blank, Seq::empty(), Seq::empty());
    assert(blank + Seq::<char>::empty() + Seq::<char>::empty() =~= blank);
}

/// What is sent of a command: its word in small letters, a space and its number, a command
/// to schedule behind its timestamp and a colon, and a pipe line as it is.
pub proof fn what_is_sent(number: u64, scheduled: CommandView, line: Seq<char>)
    ensures
        serialized(ReplView::Start) == Some("start"@),
        serialized(ReplView::Stop) == Some("stop"@),
        serialized(ReplView::Tick) == Some("tick"@),
        serialized(ReplView::Now) == Some("now"@),
        serialized(ReplView::Step(number)) == Some(
            "step"@ + seq![' '] + text::decimal(number as nat),
        ),
        serialized(ReplView::Advance(number)) == Some(
            "advance"@ + seq![' '] + text::decimal(number as nat),
        ),
        serialized(ReplView::RunTicks(number)) == Some(
            "run"@ + seq![' '] + text::decimal(number as nat),
        ),
        serialized(ReplView::SetRate(number)) == Some(
            "rate"@ + seq![' '] + text::decimal(number as nat),
        ),
        serialized(ReplView::Enqueue(scheduled)) == Some(
            text::decimal(scheduled.timestamp as nat) + seq![':'] + scheduled.command,
        ),
        serialized(ReplView::PipeLine(line)) == Some(line),
        serialized(ReplView::Help) is None,
        serialized(ReplView::Quit) is None,
{
    reveal_strlit("step");
    reveal_strlit("step ");
    reveal_strlit("advance");
    reveal_strlit("advance ");
    reveal_strlit("run");
    reveal_strlit("run ");
    reveal_strlit("rate");
    reveal_strlit("rate ");
    reveal_strlit(":");
    assert("step "@ =~= "step"@ + seq![' ']);
    assert("advance "@ =~= "advance"@ + seq![' ']);
    assert("run "@ =~= "run"@ + seq![' ']);
    assert("rate "@ =~= "rate"@ + seq![' ']);
    assert(":"@ =~= seq![':']);
}

proof fn lemma_typed(typed: Seq<char>, word: Seq<char>)
    requires
        small_word(word),
        text::ascii_lower(typed) == word,
    ensures
        typed.len() == word.len(),
        vstd::utf8::is_ascii_chars(typed),
        !typed.contains(' '),
        !text::is_white(typed[0]) && !text::is_white(typed[typed.len() - 1]),
{
    assert forall|i: int| 0 <= i < typed.len() implies 'A' <= #[trigger] typed[i] <= 'z' by {
        assert(word[i] == text::ascii_lower_char(typed[i]));
    }
    assert(typed.len() == word.len());
    assert('A' <= typed[0] <= 'z');
    assert('A' <= typed[typed.len() - 1] <= 'z');
}

proof fn lemma_typed_alone(typed: Seq<char>, word: Seq<char>)
    requires
        small_word(word),
        text::ascii_lower(typed) == word,
    ensures
        first_word(typed) == typed,
        arguments(typed) == Seq::<char>::empty(),
        text::trim(typed).len() > 0,
        vstd::utf8::is_ascii_chars(typed),
{
    lemma_typed(typed, word);
    text::trim_keeps_bare_text(typed);
    text::cut_nowhere(typed, ' ');
}

proof fn lemma_word_and_rest(typed: Seq<char>, word: Seq<char>, rest: Seq<char>)
    requires
        small_word(word),
        text::ascii_lower(typed) == word,
        rest.len() > 0,
        !text::is_white(rest[rest.len() - 1]),
    ensures
        first_word(typed + seq![' '] + rest) == typed,
        arguments(typed + seq![' '] + rest) == rest,
        text::trim(typed + seq![' '] + rest).len() > 0,
        vstd::utf8::is_ascii_chars(typed),
{
    let line = typed + seq![' '] + rest;
    lemma_typed(typed, word);
    assert(line.first() == typed[0]);
    assert(line.last() == rest[rest.len() - 1]);
    text::trim_keeps_bare_text(line);
    text::cut_between(typed, ' ', rest);
}

proof fn lemma_line(typed: Seq<char>, word: Seq<char>, gap: Seq<char>, argument: Seq<char>)
    requires
        small_word(word),
        text::ascii_lower(typed) == word,
        text::all_white(gap),
        argument.len() > 0,
        text::is_bare(argument),
    ensures
        ({
            let line = typed + seq![' '] + (gap + argument);
            &&& first_word(line) == typed
            &&& text::trim(arguments(line)) == argument
            &&& text::trim(line).len() > 0
            &&& vstd::utf8::is_ascii_chars(typed)
        }),
{
    let rest = gap + argument;
    assert(rest[rest.len() - 1] == argument[argument.len() - 1]);
    lemma_word_and_rest(typed, word, rest);
    text::trim_finds_the_bare_text(gap, argument, Seq::empty());
    assert(gap + argument + Seq::<char>::empty() =~= rest);
}

proof fn lemma_more_words()
    ensures
        small_word("help"@),
        small_word("quit"@),
        small_word("exit"@),
        small_word("enqueue"@),
        small_word("pipe"@),
        forall|rest: Seq<char>| #[trigger]
            command("help"@, rest) == Ok::<ReplView, Seq<char>>(ReplView::Help),
        forall|rest: Seq<char>| #[trigger]
            command("quit"@, rest) == Ok::<ReplView, Seq<char>>(ReplView::Quit),
        forall|rest: Seq<char>| #[trigger]
            command("exit"@, rest) == Ok::<ReplView, Seq<char>>(ReplView::Quit),
        forall|rest: Seq<char>| #[trigger]
            command("enqueue"@, rest) == match enqueue_arguments(rest) {
                Ok(scheduled) => Ok(ReplView::Enqueue(scheduled)),
                Err(message) => Err(message),
            },
        forall|rest: Seq<char>| #[trigger]
            command("pipe"@, rest) == if text::trim(rest).len() == 0 {
                Err::<ReplView, Seq<char>>("usage: pipe <timestamp:command>"@)
            } else {
                Ok(ReplView::PipeLine(text::trim(rest)))
            },
{
    reveal_strlit("start");
    reveal_strlit("stop");
    reveal_strlit("tick");
    reveal_strlit("now");
    reveal_strlit("help");
    reveal_strlit("quit");
    reveal_strlit("exit");
    reveal_strlit("step");
    reveal_strlit("advance");
    reveal_strlit("run");
    reveal_strlit("rate");
    reveal_strlit("enqueue");
    reveal_strlit("pipe");
    assert("stop"@[0] == 's');
    assert("step"@[0] == 's');
    assert("tick"@[0] == 't');
    assert("rate"@[0] == 'r');
    assert("help"@[0] == 'h');
    assert("quit"@[0] == 'q');
    assert("exit"@[0] == 'e');
    assert("pipe"@[0] == 'p');
    assert("enqueue"@[0] == 'e');
    assert("advance"@[0] == 'a');
    assert("start"@.len() == 5);
    assert("now"@.len() == 3);
    assert("run"@.len() == 3);
    assert("enqueue"@.len() == 7);
}

/// The line `pipe`, a space and a text is read as that text, character for character.
pub proof fn pipe_command_keeps_its_text(piped: Seq<char>)
    requires
        piped.len() > 0,
        text::is_bare(piped),
    ensures
        reads_as("pipe "@ + piped, Ok::<ReplView, Seq<char>>(ReplView::PipeLine(piped))),
{
    reveal_strlit("pipe");
    reveal_strlit("pipe ");
    assert(text::ascii_lower("pipe"@) =~= "pipe"@);
    piped_text_stands_as_typed("pipe"@, Seq::empty(), piped);
    assert("pipe"@ + seq![' '] + (Seq::<char>::empty() + piped) =~= "pipe "@ + piped);
}

/// A command says what it holds, and so does the outcome of reading one.
pub proof fn commands_say_what_they_hold(
    number: u64,
    scheduled: ScheduledCommand,
    line: String,
    message: String,
)
    ensures
        outcome(Ok(ReplCommand::Start)) == Ok::<ReplView, Seq<char>>(ReplView::Start),
        outcome(Ok(ReplCommand::Stop)) == Ok::<ReplView, Seq<char>>(ReplView::Stop),
        outcome(Ok(ReplCommand::Tick)) == Ok::<ReplView, Seq<char>>(ReplView::Tick),
        outcome(Ok(ReplCommand::Now)) == Ok::<ReplView, Seq<char>>(ReplView::Now),
        outcome(Ok(ReplCommand::Help)) == Ok::<ReplView, Seq<char>>(ReplView::Help),
        outcome(Ok(ReplCommand::Quit)) == Ok::<ReplView, Seq<char>>(ReplView::Quit),
        outcome(Ok(ReplCommand::Step(number))) == Ok::<ReplView, Seq<char>>(
            ReplView::Step(number),
        ),
        outcome(Ok(ReplCommand::Advance(number))) == Ok::<ReplView, Seq<char>>(
            ReplView::Advance(number),
        ),
        outcome(Ok(ReplCommand::RunTicks(number))) == Ok::<ReplView, Seq<char>>(
            ReplView::RunTicks(number),
        ),
        outcome(Ok(ReplCommand::SetRate(number))) == Ok::<ReplView, Seq<char>>(
            ReplView::SetRate(number),
        ),
        outcome(Ok(ReplCommand::Enqueue(scheduled))) == Ok::<ReplView, Seq<char>>(
            ReplView::Enqueue(
                CommandView { timestamp: scheduled.timestamp, command: scheduled.command@ },
            ),
        ),
        outcome(Ok(ReplCommand::PipeLine(line))) == Ok::<ReplView, Seq<char>>(
            ReplView::PipeLine(line@),
        ),
        outcome(Err(message)) == Err::<ReplView, Seq<char>>(message@),
{
}

}
