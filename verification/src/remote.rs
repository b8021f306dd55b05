//! Remote control: what the interactive client sends arrives at a listener as what
//! its user asked for.

use vstd::prelude::*;

use crate::forward::{self, ForwardView};
use crate::json;
use crate::pipe;
use crate::repl::{self, parse_repl_command, serialize_repl_command, ReplCommand, ReplView};
use crate::scheduler::CommandView;
use crate::session;
use crate::text;
use crate::windows_pipe::{self, EventView, Verb};

verus! {

/// What a client in remote mode does about a line that its user typed.
#[derive(Debug)]
pub enum RemoteAction {
    /// Send a line to the listener.
    Send(String),
    /// Complain on the error output.
    Complain(String),
    /// Show the command reference.
    Help,
    /// Terminate.
    Quit,
}

/// What a client in remote mode does, as plain values.
pub enum RemoteView {
    /// Send a line.
    Send(Seq<char>),
    /// Complain.
    Complain(Seq<char>),
    /// Show the command reference.
    Help,
    /// Terminate.
    Quit,
}

impl View for RemoteAction {
    type V = RemoteView;

    open spec fn view(&self) -> RemoteView {
        match self {
            RemoteAction::Send(line) => RemoteView::Send(line@),
            RemoteAction::Complain(message) => RemoteView::Complain(message@),
            RemoteAction::Help => RemoteView::Help,
            RemoteAction::Quit => RemoteView::Quit,
        }
    }
}

/// What a client in remote mode does about a typed line that was read to `outcome`.
pub open spec fn remote_action(outcome: Result<ReplView, Seq<char>>) -> RemoteView {
    match outcome {
        Err(message) => RemoteView::Complain(message),
        Ok(command) => match repl::serialized(command) {
            Some(line) => RemoteView::Send(line),
            None => if command is Help {
                RemoteView::Help
            } else {
                RemoteView::Quit
            },
        },
    }
}

/// Decides what a client in remote mode does about what its user typed.
pub fn decide_remote(outcome: Result<ReplCommand, String>) -> (action: RemoteAction)
    ensures
        action@ == remote_action(repl::outcome(outcome)),
{
    match outcome {
        Err(message) => RemoteAction::Complain(message),
        Ok(command) => match serialize_repl_command(&command) {
            Some(line) => RemoteAction::Send(line),
            None => match command {
                ReplCommand::Help => RemoteAction::Help,
                _ => RemoteAction::Quit,
            },
        },
    }
}

/// Decides what a client in remote mode does about a line that its user typed.
pub fn take_remote_line(line: &str) -> (action: RemoteAction)
    ensures
        action@ == remote_action(repl::reading(line@)),
        action@ == remote_action(
            repl::repl_line(line@, text::lowercase(repl::first_word(line@))),
        ),
        vstd::utf8::is_ascii_chars(repl::first_word(line@)) ==> action@ == remote_action(
            repl::repl_line(line@, text::ascii_lower(repl::first_word(line@))),
        ),
{
    decide_remote(parse_repl_command(line))
}

// ---------------------------------------------------------------------------
// Laws
// ---------------------------------------------------------------------------

/// What a listener does with a line that cannot be an array or an object of JSON.
pub open spec fn heard(line: Seq<char>) -> ForwardView {
    forward::forwarded(line, windows_pipe::shorthand(text::trim(line)))
}

/// Whether a command can be sent: it sets no tick rate of zero, a command to schedule
/// has no whitespace around it, and a pipe line has none either and parses.
pub open spec fn sendable(command: ReplView) -> bool {
    match command {
        ReplView::SetRate(rate) => rate > 0,
        ReplView::Enqueue(scheduled) => text::trim(scheduled.command) == scheduled.command,
        ReplView::PipeLine(line) => text::trim(line) == line && pipe::pipe_line(line) is Ok,
        _ => true,
    }
}

/// Every command that is sent, and that can be, arrives as the event that it asks for
/// locally. It is read neither as an array nor as an object of JSON.
pub proof fn commands_arrive(command: ReplView, line: Seq<char>)
    requires
        sendable(command),
        repl::serialized(command) == Some(line),
    ensures
        !json::may_open_structure(text::trim(line)),
        session::command_event(command) matches Some(event) && heard(line) == (ForwardView::Emit {
            event,
            reply: None,
        }),
{
    lemma_verbs();
    match command {
        ReplView::Start => lemma_plain_arrives(line, Verb::Start, EventView::Start),
        ReplView::Stop => lemma_plain_arrives(line, Verb::Stop, EventView::Stop),
        ReplView::Tick => lemma_plain_arrives(line, Verb::Tick, EventView::Tick),
        ReplView::Now => lemma_plain_arrives(line, Verb::Now, EventView::Now),
        ReplView::Step(delta) => {
            assert(line =~= "step"@ + seq![' '] + text::decimal(delta as nat)) by {
                reveal_strlit("step ");
                reveal_strlit("step");
            }
            lemma_numbered_arrives("step"@, Verb::Step, delta);
        },
        ReplView::Advance(target) => {
            assert(line =~= "advance"@ + seq![' '] + text::decimal(target as nat)) by {
                reveal_strlit("advance ");
                reveal_strlit("advance");
            }
            lemma_numbered_arrives("advance"@, Verb::Advance, target);
        },
        ReplView::RunTicks(ticks) => {
            assert(line =~= "run"@ + seq![' '] + text::decimal(ticks as nat)) by {
                reveal_strlit("run ");
                reveal_strlit("run");
            }
            lemma_numbered_arrives("run"@, Verb::Run, ticks);
        },
        ReplView::SetRate(rate) => {
            assert(line =~= "rate"@ + seq![' '] + text::decimal(rate as nat)) by {
                reveal_strlit("rate ");
                reveal_strlit("rate");
            }
            lemma_numbered_arrives("rate"@, Verb::Rate, rate);
        },
        ReplView::Enqueue(scheduled) => {
            let stamp = text::decimal(scheduled.timestamp as nat);
            let body = scheduled.command;
            reveal_strlit(":");
            assert(line =~= stamp + seq![':'] + body);
            pipe::line_reads_back(scheduled.timestamp, body);
            text::decimal_is_digits(scheduled.timestamp as nat);
            assert(text::is_digit(stamp[0]));
            assert(line[0] == stamp[0]);
            text::trim_leaves_no_edge(body);
            assert(!text::is_white(line.last())) by {
                if body.len() > 0 {
                    assert(line.last() == body.last());
                } else {
                    assert(line.last() == ':');
                }
            }
            text::trim_keeps_bare_text(line);
            lemma_scheduled_arrives(line, scheduled);
        },
        ReplView::PipeLine(piped) => {
            lemma_scheduled_arrives(piped, pipe::pipe_line(piped)->Ok_0);
        },
        ReplView::Help => {},
        ReplView::Quit => {},
    }
}

/// What a user can type into the client is sent, unless it concerns the client alone,
/// and arrives as the event that it asks for locally. A pipe line has to parse.
pub proof fn typed_lines_arrive(line: Seq<char>, word: Seq<char>, command: ReplView)
    requires
        repl::repl_line(line, word) == Ok::<ReplView, Seq<char>>(command),
        command matches ReplView::PipeLine(piped) ==> pipe::pipe_line(piped) is Ok,
    ensures
        repl::serialized(command) is None <==> command is Help || command is Quit,
        repl::serialized(command) matches Some(sent) ==> {
            &&& !json::may_open_structure(text::trim(sent))
            &&& session::command_event(command) matches Some(event) && heard(sent) == (
            ForwardView::Emit { event, reply: None })
        },
{
    repl::commands_are_checked(line, word);
    if let Some(sent) = repl::serialized(command) {
        commands_arrive(command, sent);
    }
}

/// A command whose text stands on one line is sent as one line.
pub proof fn commands_are_sent_on_one_line(command: ReplView, line: Seq<char>)
    requires
        repl::serialized(command) == Some(line),
        command matches ReplView::Enqueue(scheduled) ==> json::one_line(scheduled.command),
        command matches ReplView::PipeLine(piped) ==> json::one_line(piped),
    ensures
        json::one_line(line),
{
    reveal_strlit("start");
    reveal_strlit("stop");
    reveal_strlit("tick");
    reveal_strlit("now");
    reveal_strlit("step ");
    reveal_strlit("advance ");
    reveal_strlit("run ");
    reveal_strlit("rate ");
    reveal_strlit(":");
    match command {
        ReplView::Step(number) => lemma_numbered_on_one_line("step "@, number),
        ReplView::Advance(number) => lemma_numbered_on_one_line("advance "@, number),
        ReplView::RunTicks(number) => lemma_numbered_on_one_line("run "@, number),
        ReplView::SetRate(number) => lemma_numbered_on_one_line("rate "@, number),
        ReplView::Enqueue(scheduled) => {
            let stamp = text::decimal(scheduled.timestamp as nat);
            text::decimal_is_digits(scheduled.timestamp as nat);
            json::one_line_together(stamp, ":"@);
            json::one_line_together(stamp + ":"@, scheduled.command);
        },
        _ => {},
    }
}

proof fn lemma_numbered_on_one_line(front: Seq<char>, number: u64)
    requires
        json::one_line(front),
    ensures
        json::one_line(front + text::decimal(number as nat)),
{
    text::decimal_is_digits(number as nat);
    assert(json::one_line(text::decimal(number as nat)));
    json::one_line_together(front, text::decimal(number as nat));
}

/// A word of small letters.
spec fn small_word(word: Seq<char>) -> bool {
    word.len() > 0 && forall|i: int| 0 <= i < word.len() ==> 'a' <= #[trigger] word[i] <= 'z'
}

proof fn lemma_verbs()
    ensures
        small_word("start"@),
        small_word("stop"@),
        small_word("tick"@),
        small_word("now"@),
        small_word("run"@),
        small_word("step"@),
        small_word("advance"@),
        small_word("rate"@),
        windows_pipe::verb("start"@) == Some(Verb::Start),
        windows_pipe::verb("stop"@) == Some(Verb::Stop),
        windows_pipe::verb("tick"@) == Some(Verb::Tick),
        windows_pipe::verb("now"@) == Some(Verb::Now),
        windows_pipe::verb("run"@) == Some(Verb::Run),
        windows_pipe::verb("step"@) == Some(Verb::Step),
        windows_pipe::verb("advance"@) == Some(Verb::Advance),
        windows_pipe::verb("rate"@) == Some(Verb::Rate),
        forall|word: Seq<char>|
            #[trigger] windows_pipe::verb(word) is Some ==> word.len() > 0 && 'a' <= word[0] <= 'z',
{
    reveal_strlit("start");
    reveal_strlit("stop");
    reveal_strlit("pause");
    reveal_strlit("tick");
    reveal_strlit("now");
    reveal_strlit("run");
    reveal_strlit("step");
    reveal_strlit("advance");
    reveal_strlit("rate");
    assert("stop"@[2] == 'o');
    assert("step"@[2] == 'e');
    assert("tick"@[0] == 't');
    assert("rate"@[0] == 'r');
    assert("now"@[0] == 'n');
    assert("run"@[0] == 'r');
    assert("advance"@.len() == 7);
}

proof fn lemma_plain_arrives(word: Seq<char>, verb: Verb, event: EventView)
    requires
        small_word(word),
        windows_pipe::verb(word) == Some(verb),
        windows_pipe::plain_event(verb) == Some(event),
    ensures
        !json::may_open_structure(text::trim(word)),
        heard(word) == (ForwardView::Emit { event, reply: None }),
{
    text::trim_keeps_bare_text(word);
    text::cut_nowhere(word, ' ');
    text::cut_nowhere(word, ':');
    assert(text::ascii_lower(word) =~= word);
}

proof fn lemma_numbered_arrives(word: Seq<char>, verb: Verb, number: u64)
    requires
        small_word(word),
        windows_pipe::verb(word) == Some(verb),
        windows_pipe::plain_event(verb) is None,
        verb is Rate ==> number > 0,
    ensures
        ({
            let line = word + seq![' '] + text::decimal(number as nat);
            &&& !json::may_open_structure(text::trim(line))
            &&& heard(line) == (ForwardView::Emit {
                event: windows_pipe::numbered_event(verb, number),
                reply: None,
            })
        }),
{
    let digits = text::decimal(number as nat);
    let line = word + seq![' '] + digits;
    text::decimal_is_digits(number as nat);
    text::decimal_reads_back(number as nat);
    assert(text::is_digit(digits[0]) && text::is_digit(digits[digits.len() - 1]));
    assert(line[0] == word[0]);
    assert(line.last() == digits.last());
    text::trim_keeps_bare_text(line);
    text::trim_keeps_bare_text(digits);
    text::cut_between(word, ' ', digits);
    assert(text::ascii_lower(word) =~= word);
}

proof fn lemma_scheduled_arrives(line: Seq<char>, command: CommandView)
    requires
        text::trim(line) == line,
        pipe::pipe_line(line) == Ok::<CommandView, pipe::LineFault>(command),
    ensures
        !json::may_open_structure(text::trim(line)),
        heard(line) == (ForwardView::Emit { event: EventView::Scheduled(command), reply: None }),
{
    let front = text::before(line, ':');
    let stamp = text::trim(front);
    text::cut_is_first(line, ':');
    text::trim_leaves_no_edge(line);
    assert(stamp.len() > 0);
    lemma_trim_of_bare_front(front);
    assert(line[0] == front[0]);
    assert(front[0] == stamp[0]);
    let digits = text::unsigned_digits(stamp);
    assert(stamp[0] == '+' || text::is_digit(stamp[0])) by {
        if stamp[0] != '+' {
            assert(digits[0] == stamp[0]);
        }
    }
    lemma_verbs();
    let (word, argument) = windows_pipe::shorthand_parts(line);
    text::cut_is_first(line, ' ');
    assert(word.len() > 0 ==> word[0] == line[0]);
    windows_pipe::other_lines_are_left(line);
}

proof fn lemma_trim_of_bare_front(s: Seq<char>)
    requires
        text::trim(s).len() > 0,
    ensures
        s.len() > 0,
        !text::is_white(s[0]) ==> text::trim(s)[0] == s[0],
{
    if text::trim(s).len() > 0 && s.len() > 0 && !text::is_white(s[0]) {
        assert(text::trim_start(s) == s);
        text::trim_end_keeps_first(s);
    }
}

/// What cannot be read is complained about with what is wrong, `help` and `quit` are the
/// client's own, and every other command is sent as its line.
pub proof fn what_remote_clients_do(message: Seq<char>, command: ReplView, line: Seq<char>)
    ensures
        remote_action(Err(message)) == RemoteView::Complain(message),
        remote_action(Ok(ReplView::Help)) == RemoteView::Help,
        remote_action(Ok(ReplView::Quit)) == RemoteView::Quit,
        repl::serialized(command) == Some(line) ==> remote_action(Ok(command)) == RemoteView::Send(
            line,
        ),
        !(command is Help) && !(command is Quit) ==> remote_action(Ok(command)) is Send,
{
}

/// What a client in remote mode does says what it holds.
pub proof fn actions_say_what_they_hold(line: String)
    ensures
        RemoteAction::Send(line)@ == RemoteView::Send(line@),
        RemoteAction::Complain(line)@ == RemoteView::Complain(line@),
        RemoteAction::Help@ == RemoteView::Help,
        RemoteAction::Quit@ == RemoteView::Quit,
{
}

}
