//! What a pipe listener does with the lines of a client: which event it passes on,
//! what it answers and what it complains about.

use vstd::prelude::*;
use vstd::string::*;

use crate::json;
use crate::pipe::{self, parse_pipe_line};
use crate::text;
use crate::windows_pipe::{
    self, parse_control_instruction, ControlFault, ControlParseError, ControlParseResult,
    ControlView, EventView, JsonRpcErrorDetail, PipeEvent,
};

verus! {

/// What a listener does next.
#[derive(Debug)]
pub enum ForwardAction {
    /// Pass the event on and then, where there is a reply, write it as a line.
    Emit {
        /// What the client asked for.
        event: PipeEvent,
        /// What the client is told.
        reply: Option<String>,
    },
    /// Write the reply as a line.
    Reply(String),
    /// Complain on the error output.
    Complain(String),
    /// Do nothing.
    Ignore,
    /// Pass the event on and stop listening.
    Finish(PipeEvent),
}

/// What a listener does next, as plain values.
pub enum ForwardView {
    /// Pass the event on, then write the reply.
    Emit {
        /// What the client asked for.
        event: EventView,
        /// What the client is told.
        reply: Option<Seq<char>>,
    },
    /// Write the reply.
    Reply(Seq<char>),
    /// Complain.
    Complain(Seq<char>),
    /// Do nothing.
    Ignore,
    /// Pass the event on and stop.
    Finish(EventView),
}

impl View for ForwardAction {
    type V = ForwardView;

    open spec fn view(&self) -> ForwardView {
        match self {
            ForwardAction::Emit { event, reply } => ForwardView::Emit {
                event: event@,
                reply: windows_pipe::text_view(*reply),
            },
            ForwardAction::Reply(reply) => ForwardView::Reply(reply@),
            ForwardAction::Complain(message) => ForwardView::Complain(message@),
            ForwardAction::Ignore => ForwardView::Ignore,
            ForwardAction::Finish(event) => ForwardView::Finish(event@),
        }
    }
}

/// The reply to a JSON-RPC request that was carried out.
pub open spec fn success_reply(id: Seq<char>) -> Seq<char> {
    "{\"jsonrpc\":\"2.0\",\"id\":"@ + id + ",\"result\":\"ok\"}"@
}

/// A JSON-RPC error as a JSON object.
pub open spec fn error_object(
    code: i64,
    message: Seq<char>,
    data: Option<Seq<char>>,
) -> Seq<char> {
    let tail = match data {
        Some(data) => ",\"data\":"@ + data + "}"@,
        None => "}"@,
    };
    "{\"code\":"@ + text::signed_decimal(code as int) + ",\"message\":"@ + json::json_quoted(
        message,
    ) + tail
}

/// The reply to a JSON-RPC request that failed.
pub open spec fn error_reply(
    id: Seq<char>,
    code: i64,
    message: Seq<char>,
    data: Option<Seq<char>>,
) -> Seq<char> {
    "{\"jsonrpc\":\"2.0\",\"id\":"@ + id + ",\"error\":"@ + error_object(code, message, data)
        + "}"@
}

/// The complaint about a line that an error was found in.
pub open spec fn complaint(what: Seq<char>, line: Seq<char>, error: Seq<char>) -> Seq<char> {
    "failed to parse "@ + what + " '"@ + line + "': "@ + error
}

/// What a listener does with a line that says `outcome` as a control instruction.
pub open spec fn forwarded(
    line: Seq<char>,
    outcome: Result<ControlView, ControlFault>,
) -> ForwardView {
    match outcome {
        Ok(ControlView::Event(Some(event))) => ForwardView::Emit { event, reply: None },
        Ok(ControlView::Event(None)) => match pipe::pipe_line(text::trim(line)) {
            Ok(command) => ForwardView::Emit { event: EventView::Scheduled(command), reply: None },
            Err(fault) => ForwardView::Complain(
                complaint("pipe line"@, line, pipe::fault_message(fault)),
            ),
        },
        Ok(ControlView::JsonRpc { id, event }) => ForwardView::Emit {
            event,
            reply: match id {
                Some(id) => Some(success_reply(id)),
                None => None,
            },
        },
        Err(ControlFault::JsonRpc { code, message, data, id }) => match id {
            Some(id) => ForwardView::Reply(error_reply(id, code, message, data)),
            None => ForwardView::Ignore,
        },
        Err(ControlFault::Other(message)) => ForwardView::Complain(
            complaint("control instruction"@, line, message),
        ),
    }
}

/// Whether every reply that an action writes stands on one line.
pub open spec fn replies_on_one_line(action: ForwardView) -> bool {
    match action {
        ForwardView::Emit { reply: Some(reply), .. } => json::one_line(reply),
        ForwardView::Reply(reply) => json::one_line(reply),
        _ => true,
    }
}

/// The reply to a JSON-RPC request that was carried out.
fn success_text(id: &str) -> (out: String)
    ensures
        out@ == success_reply(id@),
        json::one_line(id@) ==> json::one_line(out@),
{
    proof {
        reveal_strlit("{\"jsonrpc\":\"2.0\",\"id\":");
        reveal_strlit(",\"result\":\"ok\"}");
        let start = "{\"jsonrpc\":\"2.0\",\"id\":"@;
        let end = ",\"result\":\"ok\"}"@;
        if json::one_line(id@) {
            json::one_line_together(start, id@);
            json::one_line_together(start + id@, end);
        }
    }
    "{\"jsonrpc\":\"2.0\",\"id\":".to_owned().concat(id).concat(",\"result\":\"ok\"}")
}

/// A JSON-RPC error as a JSON object.
fn error_object_text(detail: &JsonRpcErrorDetail) -> (out: String)
    ensures
        out@ == error_object(
            detail.code,
            detail.message@,
            windows_pipe::text_view(detail.data),
        ),
        (detail.data matches Some(data) ==> json::one_line(data@)) ==> json::one_line(out@),
{
    let quoted = json::quote_json(detail.message.as_str());
    let code = text::signed_decimal_text(detail.code);
    let start = "{\"code\":".to_owned().concat(code.as_str()).concat(",\"message\":").concat(
        quoted.as_str(),
    );
    let tail = match &detail.data {
        Some(data) => ",\"data\":".to_owned().concat(data.as_str()).concat("}"),
        None => "}".to_owned(),
    };
    proof {
        reveal_strlit("{\"code\":");
        reveal_strlit(",\"message\":");
        reveal_strlit(",\"data\":");
        reveal_strlit("}");
        if &detail.data matches Some(data) ==> json::one_line(data@) {
            lemma_number_on_one_line(detail.code as int);
            json::quoted_on_one_line(detail.message@);
            let (a, b) = ("{\"code\":"@, ",\"message\":"@);
            json::one_line_together(a, code@);
            json::one_line_together(a + code@, b);
            json::one_line_together(a + code@ + b, quoted@);
            if let Some(data) = &detail.data {
                json::one_line_together(",\"data\":"@, data@);
                json::one_line_together(",\"data\":"@ + data@, "}"@);
            }
            json::one_line_together(start@, tail@);
        }
    }
    start.concat(tail.as_str())
}

/// The reply to a JSON-RPC request that failed.
fn error_text(id: &str, detail: &JsonRpcErrorDetail) -> (out: String)
    ensures
        out@ == error_reply(
            id@,
            detail.code,
            detail.message@,
            windows_pipe::text_view(detail.data),
        ),
        json::one_line(id@) && (detail.data matches Some(data) ==> json::one_line(data@))
            ==> json::one_line(out@),
{
    let object = error_object_text(detail);
    proof {
        reveal_strlit("{\"jsonrpc\":\"2.0\",\"id\":");
        reveal_strlit(",\"error\":");
        reveal_strlit("}");
        if json::one_line(id@) && json::one_line(object@) {
            let (a, b) = ("{\"jsonrpc\":\"2.0\",\"id\":"@, ",\"error\":"@);
            json::one_line_together(a, id@);
            json::one_line_together(a + id@, b);
            json::one_line_together(a + id@ + b, object@);
            json::one_line_together(a + id@ + b + object@, "}"@);
        }
    }
    "{\"jsonrpc\":\"2.0\",\"id\":".to_owned().concat(id).concat(",\"error\":").concat(
        object.as_str(),
    ).concat("}")
}

proof fn lemma_number_on_one_line(n: int)
    ensures
        json::one_line(text::signed_decimal(n)),
{
    let magnitude = if n < 0 {
        -n
    } else {
        n
    } as nat;
    text::decimal_is_digits(magnitude);
    assert(json::one_line(text::decimal(magnitude)));
    json::one_line_together(seq!['-'], text::decimal(magnitude));
}

/// The complaint about a line that an error was found in.
pub(crate) fn complaint_text(what: &str, line: &str, error: &str) -> (out: String)
    ensures
        out@ == complaint(what@, line@, error@),
{
    "failed to parse ".to_owned().concat(what).concat(" '").concat(line).concat("': ").concat(
        error,
    )
}

/// Decides what to do with a line that was read as a control instruction.
pub fn forward_outcome(
    line: &str,
    outcome: Result<ControlParseResult, ControlParseError>,
) -> (action: ForwardAction)
    ensures
        action@ == forwarded(line@, windows_pipe::outcome(outcome)),
        windows_pipe::echoes_on_one_line(windows_pipe::outcome(outcome)) ==> replies_on_one_line(
            action@,
        ),
{
    match outcome {
        Ok(ControlParseResult::Event(Some(event))) => ForwardAction::Emit { event, reply: None },
        Ok(ControlParseResult::Event(None)) => match parse_pipe_line(text::trimmed(line)) {
            Ok(parsed) => ForwardAction::Emit {
                event: PipeEvent::Scheduled(parsed.into_scheduled()),
                reply: None,
            },
            Err(error) => {
                let message = error.to_string();
                ForwardAction::Complain(complaint_text("pipe line", line, message.as_str()))
            },
        },
        Ok(ControlParseResult::JsonRpc { id, event }) => {
            let reply: Option<String> = match &id {
                Some(id) => Some(success_text(id.as_str())),
                None => None,
            };
            ForwardAction::Emit { event, reply }
        },
        Err(ControlParseError::JsonRpc(detail, id)) => match &id {
            Some(id) => ForwardAction::Reply(error_text(id.as_str(), &detail)),
            None => ForwardAction::Ignore,
        },
        Err(ControlParseError::Other(message)) => ForwardAction::Complain(
            complaint_text("control instruction", line, message.as_str()),
        ),
    }
}

/// Decides what to do with what was read from a client: one line, or `None` at the
/// end of its input.
///
/// A line is taken without the whitespace around it. Lines that are not understood
/// are complained about and do not end the listening. A JSON-RPC request is answered
/// exactly when it has an `id`.
pub fn forward_read(read: Option<&str>) -> (action: ForwardAction)
    ensures
        match read {
            Some(line) => action@ == forwarded(
                line@,
                windows_pipe::control(text::trim(line@), json::json_form(text::trim(line@))),
            ),
            None => action@ == ForwardView::Finish(EventView::Disconnected),
        },
        read matches Some(line) ==> (!json::may_open_structure(text::trim(line@)) ==> action@
            == forwarded(line@, windows_pipe::shorthand(text::trim(line@)))),
        replies_on_one_line(action@),
{
    match read {
        None => ForwardAction::Finish(PipeEvent::Disconnected),
        Some(line) => {
            let outcome = parse_control_instruction(text::trimmed(line));
            forward_outcome(line, outcome)
        },
    }
}

// ---------------------------------------------------------------------------
// Laws
// ---------------------------------------------------------------------------


/// Whether an action answers the client.
pub open spec fn answers(action: ForwardView) -> bool {
    match action {
        ForwardView::Emit { reply, .. } => reply is Some,
        ForwardView::Reply(_) => true,
        _ => false,
    }
}

/// A message with a `jsonrpc` member is answered exactly when it has an `id`: with
/// success where it is carried out, and with its error where it is not.
pub proof fn answered_exactly_with_id(
    line: Seq<char>,
    version: json::ItemForm,
    members: Seq<(Seq<char>, json::ItemForm)>,
)
    ensures
        ({
            let outcome = windows_pipe::rpc_outcome(version, members);
            let action = forwarded(line, outcome);
            &&& answers(action) <==> windows_pipe::message_id(members) is Some
            &&& windows_pipe::message_id(members) matches Some(id) ==> match outcome {
                Ok(ControlView::JsonRpc { event, .. }) => action == (ForwardView::Emit {
                    event,
                    reply: Some(success_reply(id)),
                }),
                Err(ControlFault::JsonRpc { code, message, data, .. }) => action
                    == ForwardView::Reply(error_reply(id, code, message, data)),
                _ => false,
            }
        }),
{
    windows_pipe::jsonrpc_keeps_the_id(version, members);
}

/// No line ends the listening, and an event is passed on only where one was
/// understood.
pub proof fn lines_never_end_listening(
    line: Seq<char>,
    outcome: Result<ControlView, ControlFault>,
)
    ensures
        !(forwarded(line, outcome) is Finish),
        outcome is Err ==> !(forwarded(line, outcome) is Emit),
{
}

/// A member of a JSON object as text: its key as a JSON string, a colon and its value.
pub open spec fn member_of(key: Seq<char>, value: Seq<char>) -> Seq<char> {
    json::json_quoted(key) + seq![':'] + value
}

/// Replies are JSON objects with the version, the `id` as it came and the result or the
/// error. An error has its code, its message as a JSON string and, where there is any,
/// its data.
pub proof fn replies_are_objects(
    id: Seq<char>,
    code: i64,
    message: Seq<char>,
    data: Seq<char>,
)
    ensures
        success_reply(id) == "{"@ + member_of("jsonrpc"@, json::json_quoted("2.0"@)) + ","@
            + member_of("id"@, id) + ","@ + member_of("result"@, json::json_quoted("ok"@)) + "}"@,
        error_object(code, message, None) == "{"@ + member_of(
            "code"@,
            text::signed_decimal(code as int),
        ) + ","@ + member_of("message"@, json::json_quoted(message)) + "}"@,
        error_object(code, message, Some(data)) == "{"@ + member_of(
            "code"@,
            text::signed_decimal(code as int),
        ) + ","@ + member_of("message"@, json::json_quoted(message)) + ","@ + member_of(
            "data"@,
            data,
        ) + "}"@,
        error_reply(id, code, message, None) == "{"@ + member_of(
            "jsonrpc"@,
            json::json_quoted("2.0"@),
        ) + ","@ + member_of("id"@, id) + ","@ + member_of(
            "error"@,
            error_object(code, message, None),
        ) + "}"@,
        error_reply(id, code, message, Some(data)) == "{"@ + member_of(
            "jsonrpc"@,
            json::json_quoted("2.0"@),
        ) + ","@ + member_of("id"@, id) + ","@ + member_of(
            "error"@,
            error_object(code, message, Some(data)),
        ) + "}"@,
{
    lemma_keys();
    reveal_strlit("{");
    reveal_strlit(",");
    reveal_strlit("}");
    reveal_strlit("{\"jsonrpc\":\"2.0\",\"id\":");
    reveal_strlit(",\"result\":\"ok\"}");
    reveal_strlit(",\"error\":");
    reveal_strlit("{\"code\":");
    reveal_strlit(",\"message\":");
    reveal_strlit(",\"data\":");
    let version = "{"@ + member_of("jsonrpc"@, json::json_quoted("2.0"@)) + ","@;
    assert("{\"jsonrpc\":\"2.0\",\"id\":"@ =~= version + json::json_quoted("id"@) + seq![':']);
    assert(",\"result\":\"ok\"}"@ =~= ","@ + member_of("result"@, json::json_quoted("ok"@))
        + "}"@);
    assert(",\"error\":"@ =~= ","@ + json::json_quoted("error"@) + seq![':']);
    assert("{\"code\":"@ =~= "{"@ + json::json_quoted("code"@) + seq![':']);
    assert(",\"message\":"@ =~= ","@ + json::json_quoted("message"@) + seq![':']);
    assert(",\"data\":"@ =~= ","@ + json::json_quoted("data"@) + seq![':']);
    assert(success_reply(id) =~= version + member_of("id"@, id) + ","@ + member_of(
        "result"@,
        json::json_quoted("ok"@),
    ) + "}"@);
    let number = text::signed_decimal(code as int);
    let quoted = json::json_quoted(message);
    assert(error_object(code, message, None) =~= "{"@ + member_of("code"@, number) + ","@
        + member_of("message"@, quoted) + "}"@);
    assert(error_object(code, message, Some(data)) =~= "{"@ + member_of("code"@, number) + ","@
        + member_of("message"@, quoted) + ","@ + member_of("data"@, data) + "}"@);
    assert(error_reply(id, code, message, None) =~= version + member_of("id"@, id) + ","@
        + member_of("error"@, error_object(code, message, None)) + "}"@);
    assert(error_reply(id, code, message, Some(data)) =~= version + member_of("id"@, id) + ","@
        + member_of("error"@, error_object(code, message, Some(data))) + "}"@);
}

proof fn lemma_keys()
    ensures
        json::json_quoted("jsonrpc"@) == seq!['"'] + "jsonrpc"@ + seq!['"'],
        json::json_quoted("2.0"@) == seq!['"'] + "2.0"@ + seq!['"'],
        json::json_quoted("id"@) == seq!['"'] + "id"@ + seq!['"'],
        json::json_quoted("result"@) == seq!['"'] + "result"@ + seq!['"'],
        json::json_quoted("ok"@) == seq!['"'] + "ok"@ + seq!['"'],
        json::json_quoted("error"@) == seq!['"'] + "error"@ + seq!['"'],
        json::json_quoted("code"@) == seq!['"'] + "code"@ + seq!['"'],
        json::json_quoted("message"@) == seq!['"'] + "message"@ + seq!['"'],
        json::json_quoted("data"@) == seq!['"'] + "data"@ + seq!['"'],
        "jsonrpc"@ == seq!['j', 's', 'o', 'n', 'r', 'p', 'c'],
        "2.0"@ == seq!['2', '.', '0'],
        "id"@ == seq!['i', 'd'],
        "result"@ == seq!['r', 'e', 's', 'u', 'l', 't'],
        "ok"@ == seq!['o', 'k'],
        "error"@ == seq!['e', 'r', 'r', 'o', 'r'],
        "code"@ == seq!['c', 'o', 'd', 'e'],
        "message"@ == seq!['m', 'e', 's', 's', 'a', 'g', 'e'],
        "data"@ == seq!['d', 'a', 't', 'a'],
{
    reveal_strlit("jsonrpc");
    reveal_strlit("2.0");
    reveal_strlit("id");
    reveal_strlit("result");
    reveal_strlit("ok");
    reveal_strlit("error");
    reveal_strlit("code");
    reveal_strlit("message");
    reveal_strlit("data");
    assert("jsonrpc"@ =~= seq!['j', 's', 'o', 'n', 'r', 'p', 'c']);
    assert("2.0"@ =~= seq!['2', '.', '0']);
    assert("id"@ =~= seq!['i', 'd']);
    assert("result"@ =~= seq!['r', 'e', 's', 'u', 'l', 't']);
    assert("ok"@ =~= seq!['o', 'k']);
    assert("error"@ =~= seq!['e', 'r', 'r', 'o', 'r']);
    assert("code"@ =~= seq!['c', 'o', 'd', 'e']);
    assert("message"@ =~= seq!['m', 'e', 's', 's', 'a', 'g', 'e']);
    assert("data"@ =~= seq!['d', 'a', 't', 'a']);
    json::plain_text_is_quoted_as_it_is("jsonrpc"@);
    json::plain_text_is_quoted_as_it_is("2.0"@);
    json::plain_text_is_quoted_as_it_is("id"@);
    json::plain_text_is_quoted_as_it_is("result"@);
    json::plain_text_is_quoted_as_it_is("ok"@);
    json::plain_text_is_quoted_as_it_is("error"@);
    json::plain_text_is_quoted_as_it_is("code"@);
    json::plain_text_is_quoted_as_it_is("message"@);
    json::plain_text_is_quoted_as_it_is("data"@);
}

/// An event that was understood is passed on as it is: without a reply where it came as a
/// plain control message or without an `id`, and with success otherwise.
pub proof fn events_are_passed_on(line: Seq<char>, event: EventView, id: Seq<char>)
    ensures
        forwarded(line, Ok(ControlView::Event(Some(event)))) == (ForwardView::Emit {
            event,
            reply: None,
        }),
        forwarded(line, Ok(ControlView::JsonRpc { id: None, event })) == (ForwardView::Emit {
            event,
            reply: None,
        }),
        forwarded(line, Ok(ControlView::JsonRpc { id: Some(id), event })) == (ForwardView::Emit {
            event,
            reply: Some(success_reply(id)),
        }),
{
}

/// A line that is no control message is a scheduler line: without the whitespace around
/// it, it asks for the command that it holds, or is complained about.
pub proof fn other_lines_schedule(front: Seq<char>, bare: Seq<char>, back: Seq<char>)
    requires
        text::all_white(front),
        text::is_bare(bare),
        text::all_white(back),
    ensures
        pipe::pipe_line(bare) matches Ok(command) ==> forwarded(
            front + bare + back,
            Ok(ControlView::Event(None)),
        ) == (ForwardView::Emit { event: EventView::Scheduled(command), reply: None }),
        pipe::pipe_line(bare) matches Err(fault) ==> forwarded(
            front + bare + back,
            Ok(ControlView::Event(None)),
        ) == ForwardView::Complain(
            "failed to parse pipe line '"@ + (front + bare + back) + "': "@ + pipe::fault_message(
                fault,
            ),
        ),
{
    text::trim_finds_the_bare_text(front, bare, back);
    reveal_strlit("failed to parse ");
    reveal_strlit("pipe line");
    reveal_strlit(" '");
    reveal_strlit("failed to parse pipe line '");
    assert("failed to parse "@ + "pipe line"@ + " '"@ =~= "failed to parse pipe line '"@);
}

/// A request that failed is answered with its error where it has an `id`, and passed over
/// where it has none. Any other message that failed is complained about.
pub proof fn failures_are_answered(
    line: Seq<char>,
    code: i64,
    message: Seq<char>,
    data: Option<Seq<char>>,
    id: Seq<char>,
)
    ensures
        forwarded(line, Err(ControlFault::JsonRpc { code, message, data, id: Some(id) }))
            == ForwardView::Reply(error_reply(id, code, message, data)),
        forwarded(line, Err(ControlFault::JsonRpc { code, message, data, id: None }))
            == ForwardView::Ignore,
        forwarded(line, Err(ControlFault::Other(message))) == ForwardView::Complain(
            "failed to parse control instruction '"@ + line + "': "@ + message,
        ),
{
    reveal_strlit("failed to parse ");
    reveal_strlit("control instruction");
    reveal_strlit(" '");
    reveal_strlit("failed to parse control instruction '");
    assert("failed to parse "@ + "control instruction"@ + " '"@
        =~= "failed to parse control instruction '"@);
}

/// Replies have no line feed where they stand on one line, and an action says what it
/// holds.
pub proof fn actions_say_what_they_hold(
    event: PipeEvent,
    reply: String,
    message: String,
    i: int,
)
    ensures
        replies_on_one_line(ForwardView::Reply(reply@)) && 0 <= i < reply@.len() ==> reply@[i]
            != '\n',
        replies_on_one_line(ForwardView::Emit { event: event@, reply: Some(reply@) }) && 0 <= i
            < reply@.len() ==> reply@[i] != '\n',
        (ForwardAction::Emit { event, reply: None })@ == (ForwardView::Emit {
            event: event@,
            reply: None,
        }),
        (ForwardAction::Emit { event, reply: Some(reply) })@ == (ForwardView::Emit {
            event: event@,
            reply: Some(reply@),
        }),
        ForwardAction::Reply(reply)@ == ForwardView::Reply(reply@),
        ForwardAction::Complain(message)@ == ForwardView::Complain(message@),
        ForwardAction::Ignore@ == ForwardView::Ignore,
        ForwardAction::Finish(event)@ == ForwardView::Finish(event@),
{
}

}
