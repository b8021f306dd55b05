//! Control messages and scheduler lines received over a pipe.
//!
//! A line is tried as a JSON-RPC request, then as a JSON control object, then as a
//! shorthand control line, and at last as a scheduler line in the pipe format.

use vstd::prelude::*;
use vstd::string::*;

use crate::json::{self, ItemForm, JsonForm, JsonItem, JsonNode};
use crate::scheduler::{CommandView, ScheduledCommand};
use crate::text;

verus! {

/// What a pipe client asks for.
#[derive(Debug, PartialEq, Eq)]
pub enum PipeEvent {
    /// Resume ticking on the configured interval.
    Start,
    /// Stop ticking immediately.
    Stop,
    /// Execute a single tick immediately.
    Tick,
    /// Advance by an explicit delta without changing the tick rate.
    Step(u64),
    /// Jump directly to a target timestamp.
    Advance(u64),
    /// Run the dispatcher for a fixed number of ticks.
    RunTicks(u64),
    /// Update the tick rate used when progressing simulated time.
    SetRate(u64),
    /// Query the current simulated time.
    Now,
    /// Pause ticking without terminating the listener.
    Pause,
    /// A command to queue in the dispatcher.
    Scheduled(ScheduledCommand),
    /// A note about a file, to be shown to the user.
    AddFileNote {
        /// The file that the note is about.
        file: String,
        /// The note.
        note: String,
    },
    /// The remote client disconnected.
    Disconnected,
}

/// What a pipe client asks for, as plain values.
pub enum EventView {
    /// Resume ticking.
    Start,
    /// Stop ticking.
    Stop,
    /// Execute a single tick.
    Tick,
    /// Advance by a delta.
    Step(u64),
    /// Jump to a timestamp.
    Advance(u64),
    /// Run a number of ticks.
    RunTicks(u64),
    /// Update the tick rate.
    SetRate(u64),
    /// Query the time.
    Now,
    /// Pause ticking.
    Pause,
    /// Queue a command.
    Scheduled(CommandView),
    /// Show a note about a file.
    AddFileNote {
        /// The file that the note is about.
        file: Seq<char>,
        /// The note.
        note: Seq<char>,
    },
    /// The client disconnected.
    Disconnected,
}

impl View for PipeEvent {
    type V = EventView;

    open spec fn view(&self) -> EventView {
        match self {
            PipeEvent::Start => EventView::Start,
            PipeEvent::Stop => EventView::Stop,
            PipeEvent::Tick => EventView::Tick,
            PipeEvent::Step(delta) => EventView::Step(*delta),
            PipeEvent::Advance(target) => EventView::Advance(*target),
            PipeEvent::RunTicks(ticks) => EventView::RunTicks(*ticks),
            PipeEvent::SetRate(rate) => EventView::SetRate(*rate),
            PipeEvent::Now => EventView::Now,
            PipeEvent::Pause => EventView::Pause,
            PipeEvent::Scheduled(command) => EventView::Scheduled(command@),
            PipeEvent::AddFileNote { file, note } => EventView::AddFileNote {
                file: file@,
                note: note@,
            },
            PipeEvent::Disconnected => EventView::Disconnected,
        }
    }
}

impl Clone for PipeEvent {
    fn clone(&self) -> (copy: Self)
        ensures
            copy@ == self@,
    {
        match self {
            PipeEvent::Start => PipeEvent::Start,
            PipeEvent::Stop => PipeEvent::Stop,
            PipeEvent::Tick => PipeEvent::Tick,
            PipeEvent::Step(delta) => PipeEvent::Step(*delta),
            PipeEvent::Advance(target) => PipeEvent::Advance(*target),
            PipeEvent::RunTicks(ticks) => PipeEvent::RunTicks(*ticks),
            PipeEvent::SetRate(rate) => PipeEvent::SetRate(*rate),
            PipeEvent::Now => PipeEvent::Now,
            PipeEvent::Pause => PipeEvent::Pause,
            PipeEvent::Scheduled(command) => PipeEvent::Scheduled(command.clone()),
            PipeEvent::AddFileNote { file, note } => PipeEvent::AddFileNote {
                file: file.clone(),
                note: note.clone(),
            },
            PipeEvent::Disconnected => PipeEvent::Disconnected,
        }
    }
}

impl From<ScheduledCommand> for PipeEvent {
    fn from(command: ScheduledCommand) -> (event: Self)
        ensures
            event@ == EventView::Scheduled(command@),
    {
        PipeEvent::Scheduled(command)
    }
}

impl vstd::std_specs::convert::FromSpecImpl<ScheduledCommand> for PipeEvent {
    open spec fn obeys_from_spec() -> bool {
        true
    }

    open spec fn from_spec(command: ScheduledCommand) -> PipeEvent {
        PipeEvent::Scheduled(command)
    }
}

/// The verbs that control messages share.
#[derive(Debug, Clone, Copy, PartialEq, Eq, Structural)]
pub enum Verb {
    /// `start`
    Start,
    /// `stop`
    Stop,
    /// `pause`
    Pause,
    /// `tick`
    Tick,
    /// `now`
    Now,
    /// `run`, which takes a number of ticks
    Run,
    /// `step`, which takes a delta
    Step,
    /// `advance`, which takes a target timestamp
    Advance,
    /// `rate`, which takes a rate
    Rate,
}

/// The verb that a word spells, if it spells one.
pub open spec fn verb(word: Seq<char>) -> Option<Verb> {
    if word == "start"@ {
        Some(Verb::Start)
    } else if word == "stop"@ {
        Some(Verb::Stop)
    } else if word == "pause"@ {
        Some(Verb::Pause)
    } else if word == "tick"@ {
        Some(Verb::Tick)
    } else if word == "now"@ {
        Some(Verb::Now)
    } else if word == "run"@ {
        Some(Verb::Run)
    } else if word == "step"@ {
        Some(Verb::Step)
    } else if word == "advance"@ {
        Some(Verb::Advance)
    } else if word == "rate"@ {
        Some(Verb::Rate)
    } else {
        None
    }
}

/// The event for a verb that takes no number.
pub open spec fn plain_event(verb: Verb) -> Option<EventView> {
    match verb {
        Verb::Start => Some(EventView::Start),
        Verb::Stop => Some(EventView::Stop),
        Verb::Pause => Some(EventView::Pause),
        Verb::Tick => Some(EventView::Tick),
        Verb::Now => Some(EventView::Now),
        _ => None,
    }
}

/// The event for a verb and the number it takes.
pub open spec fn numbered_event(verb: Verb, number: u64) -> EventView {
    match verb {
        Verb::Run => EventView::RunTicks(number),
        Verb::Step => EventView::Step(number),
        Verb::Advance => EventView::Advance(number),
        _ => EventView::SetRate(number),
    }
}

/// How a JSON message names the number that a verb takes.
pub open spec fn field_name(verb: Verb) -> Seq<char> {
    match verb {
        Verb::Run => "ticks"@,
        Verb::Step => "delta"@,
        Verb::Advance => "target"@,
        _ => "rate"@,
    }
}

/// The verb that a word spells, if it spells one.
pub fn read_verb(word: &str) -> (out: Option<Verb>)
    ensures
        out == verb(word@),
{
    if text::same_text(word, "start") {
        Some(Verb::Start)
    } else if text::same_text(word, "stop") {
        Some(Verb::Stop)
    } else if text::same_text(word, "pause") {
        Some(Verb::Pause)
    } else if text::same_text(word, "tick") {
        Some(Verb::Tick)
    } else if text::same_text(word, "now") {
        Some(Verb::Now)
    } else if text::same_text(word, "run") {
        Some(Verb::Run)
    } else if text::same_text(word, "step") {
        Some(Verb::Step)
    } else if text::same_text(word, "advance") {
        Some(Verb::Advance)
    } else if text::same_text(word, "rate") {
        Some(Verb::Rate)
    } else {
        None
    }
}

/// The event for a verb that takes no number.
fn without_number(verb: Verb) -> (out: Option<PipeEvent>)
    ensures
        match out {
            Some(event) => plain_event(verb) == Some(event@),
            None => plain_event(verb) is None,
        },
{
    match verb {
        Verb::Start => Some(PipeEvent::Start),
        Verb::Stop => Some(PipeEvent::Stop),
        Verb::Pause => Some(PipeEvent::Pause),
        Verb::Tick => Some(PipeEvent::Tick),
        Verb::Now => Some(PipeEvent::Now),
        _ => None,
    }
}

/// The event for a verb and the number it takes.
fn with_number(verb: Verb, number: u64) -> (event: PipeEvent)
    ensures
        event@ == numbered_event(verb, number),
{
    match verb {
        Verb::Run => PipeEvent::RunTicks(number),
        Verb::Step => PipeEvent::Step(number),
        Verb::Advance => PipeEvent::Advance(number),
        _ => PipeEvent::SetRate(number),
    }
}

/// How a JSON message names the number that a verb takes.
fn number_field(verb: Verb) -> (field: &'static str)
    ensures
        field@ == field_name(verb),
{
    match verb {
        Verb::Run => "ticks",
        Verb::Step => "delta",
        Verb::Advance => "target",
        _ => "rate",
    }
}

/// A JSON-RPC error, ready to be reported.
#[derive(Debug)]
pub struct JsonRpcErrorDetail {
    /// JSON-RPC error code.
    pub code: i64,
    /// What went wrong.
    pub message: String,
    /// More about it, as compact JSON text.
    pub data: Option<String>,
}

/// A control message that was understood.
#[derive(Debug)]
pub enum ControlParseResult {
    /// A plain control message, or nothing where the line is none.
    Event(Option<PipeEvent>),
    /// A JSON-RPC request.
    JsonRpc {
        /// The request's `id` as compact JSON text; a request without one is a
        /// notification.
        id: Option<String>,
        /// What the request asks for.
        event: PipeEvent,
    },
}

/// A control message that was not understood.
#[derive(Debug)]
pub enum ControlParseError {
    /// A JSON-RPC request, with its `id` as compact JSON text.
    JsonRpc(JsonRpcErrorDetail, Option<String>),
    /// Any other control message.
    Other(String),
}

/// A control message that was understood, as plain values.
pub enum ControlView {
    /// A plain control message, or nothing where the line is none.
    Event(Option<EventView>),
    /// A JSON-RPC request.
    JsonRpc {
        /// The request's `id`.
        id: Option<Seq<char>>,
        /// What the request asks for.
        event: EventView,
    },
}

/// A control message that was not understood, as plain values.
pub enum ControlFault {
    /// A JSON-RPC request.
    JsonRpc {
        /// JSON-RPC error code.
        code: i64,
        /// What went wrong.
        message: Seq<char>,
        /// More about it.
        data: Option<Seq<char>>,
        /// The request's `id`.
        id: Option<Seq<char>>,
    },
    /// Any other control message.
    Other(Seq<char>),
}

/// An optional text as plain values.
pub open spec fn text_view(text: Option<String>) -> Option<Seq<char>> {
    match text {
        Some(text) => Some(text@),
        None => None,
    }
}

impl View for ControlParseResult {
    type V = ControlView;

    open spec fn view(&self) -> ControlView {
        match self {
            ControlParseResult::Event(Some(event)) => ControlView::Event(Some(event@)),
            ControlParseResult::Event(None) => ControlView::Event(None),
            ControlParseResult::JsonRpc { id, event } => ControlView::JsonRpc {
                id: text_view(*id),
                event: event@,
            },
        }
    }
}

impl View for ControlParseError {
    type V = ControlFault;

    open spec fn view(&self) -> ControlFault {
        match self {
            ControlParseError::JsonRpc(detail, id) => ControlFault::JsonRpc {
                code: detail.code,
                message: detail.message@,
                data: text_view(detail.data),
                id: text_view(*id),
            },
            ControlParseError::Other(message) => ControlFault::Other(message@),
        }
    }
}

/// The outcome of reading a control message, as plain values.
pub open spec fn outcome<T: View>(out: Result<T, ControlParseError>) -> Result<T::V, ControlFault> {
    match out {
        Ok(value) => Ok(value@),
        Err(error) => Err(error@),
    }
}

// ---------------------------------------------------------------------------
// Shorthand control lines
// ---------------------------------------------------------------------------

/// The verb and the argument of a shorthand line: parted by the first space, or by
/// the first colon where there is no space.
pub open spec fn shorthand_parts(line: Seq<char>) -> (Seq<char>, Seq<char>) {
    match text::after(line, ' ') {
        Some(rest) => (text::ascii_lower(text::before(line, ' ')), text::trim(rest)),
        None => match text::after(line, ':') {
            Some(rest) => (text::ascii_lower(text::before(line, ':')), text::trim(rest)),
            None => (text::ascii_lower(line), Seq::empty()),
        },
    }
}

/// How a verb that takes a number is used.
pub open spec fn usage(verb: Verb) -> Seq<char> {
    match verb {
        Verb::Run => "usage: run <number of ticks>"@,
        Verb::Step => "usage: step <non-negative delta>"@,
        Verb::Advance => "usage: advance <target timestamp>"@,
        _ => "usage: rate <non-zero u64>"@,
    }
}

/// What refuses a tick rate of zero.
pub open spec fn zero_rate_message() -> Seq<char> {
    "tick rate must be greater than zero"@
}

/// The event of a verb and the text of its argument.
pub open spec fn spoken(verb: Verb, argument: Seq<char>) -> Result<EventView, Seq<char>> {
    match plain_event(verb) {
        Some(event) => Ok(event),
        None => match text::parsed_u64(argument) {
            None => Err(usage(verb)),
            Some(number) => if verb is Rate && number == 0 {
                Err(zero_rate_message())
            } else {
                Ok(numbered_event(verb, number))
            },
        },
    }
}

/// What a shorthand line says. A line that begins with no verb says nothing.
pub open spec fn shorthand(line: Seq<char>) -> Result<ControlView, ControlFault> {
    let (word, argument) = shorthand_parts(line);
    match verb(word) {
        None => Ok(ControlView::Event(None)),
        Some(found) => match spoken(found, argument) {
            Ok(event) => Ok(ControlView::Event(Some(event))),
            Err(message) => Err(ControlFault::Other(message)),
        },
    }
}

/// How a verb that takes a number is used.
pub fn usage_text(verb: Verb) -> (out: &'static str)
    ensures
        out@ == usage(verb),
{
    match verb {
        Verb::Run => "usage: run <number of ticks>",
        Verb::Step => "usage: step <non-negative delta>",
        Verb::Advance => "usage: advance <target timestamp>",
        _ => "usage: rate <non-zero u64>",
    }
}

/// The event of a verb and the text of its argument, or what is wrong with them.
pub fn speak(verb: Verb, argument: &str) -> (out: Result<PipeEvent, String>)
    ensures
        match out {
            Ok(event) => spoken(verb, argument@) == Ok::<EventView, Seq<char>>(event@),
            Err(message) => spoken(verb, argument@) == Err::<EventView, Seq<char>>(message@),
        },
{
    if let Some(event) = without_number(verb) {
        return Ok(event);
    }
    match text::parse_u64(argument) {
        None => Err(usage_text(verb).to_owned()),
        Some(number) => if verb == Verb::Rate && number == 0 {
            Err("tick rate must be greater than zero".to_owned())
        } else {
            Ok(with_number(verb, number))
        },
    }
}

/// Reads a shorthand control line such as `rate 2`, `run:3` or `tick`.
pub fn parse_shorthand(line: &str) -> (out: Result<ControlParseResult, ControlParseError>)
    ensures
        outcome(out) == shorthand(line@),
{
    let (head, tail) = text::cut(line, ' ');
    let (word, argument) = match tail {
        Some(rest) => (text::ascii_lowered(head), text::trimmed(rest)),
        None => {
            let (front, back) = text::cut(line, ':');
            match back {
                Some(rest) => (text::ascii_lowered(front), text::trimmed(rest)),
                None => {
                    proof {
                        reveal_strlit("");
                        assert(""@ == Seq::<char>::empty());
                    }
                    (text::ascii_lowered(line), "")
                },
            }
        },
    };
    match read_verb(word.as_str()) {
        None => Ok(ControlParseResult::Event(None)),
        Some(found) => match speak(found, argument) {
            Ok(event) => Ok(ControlParseResult::Event(Some(event))),
            Err(message) => Err(ControlParseError::Other(message)),
        },
    }
}

// ---------------------------------------------------------------------------
// JSON control objects
// ---------------------------------------------------------------------------

/// The verb that a JSON value names, if it is a string that spells one.
pub open spec fn tagged_verb(tag: ItemForm) -> Option<Verb> {
    match tag.string {
        Ok(word) => verb(word),
        Err(_) => None,
    }
}

/// The number of a member, if the member is there and holds one.
pub open spec fn member_number(members: Seq<(Seq<char>, ItemForm)>, key: Seq<char>) -> Option<
    u64,
> {
    match json::member(members, key) {
        Some(item) => item.number,
        None => None,
    }
}

/// The event of a verb and the number that comes with it, where the verb takes one.
pub open spec fn completed(verb: Verb, number: Option<u64>) -> Option<EventView> {
    match plain_event(verb) {
        Some(event) => Some(event),
        None => match number {
            Some(number) => Some(numbered_event(verb, number)),
            None => None,
        },
    }
}

/// What a line says as a JSON control message, given what it says as JSON. As an
/// object it names its verb under `type` and the number under its field name, and
/// neither twice. As an array it holds the verb and the number, where the verb takes
/// one, and nothing else.
pub open spec fn instruction(line: Seq<char>, form: JsonForm) -> Option<EventView> {
    match form {
        JsonForm::Object(members) => match json::member(members, "type"@) {
            Some(tag) if !json::keyed_twice(line, "type"@) => match tagged_verb(tag) {
                Some(found) => if plain_event(found) is None && json::keyed_twice(
                    line,
                    field_name(found),
                ) {
                    None
                } else {
                    completed(found, member_number(members, field_name(found)))
                },
                None => None,
            },
            _ => None,
        },
        JsonForm::Array(items) => if items.len() > 0 {
            match tagged_verb(items[0]) {
                Some(found) => if plain_event(found) is Some {
                    if items.len() == 1 {
                        plain_event(found)
                    } else {
                        None
                    }
                } else if items.len() == 2 {
                    completed(found, items[1].number)
                } else {
                    None
                },
                None => None,
            }
        } else {
            None
        },
        _ => None,
    }
}

/// What becomes of a JSON control message: a tick rate of zero is refused.
pub open spec fn instructed(event: EventView) -> Result<ControlView, ControlFault> {
    if event == EventView::SetRate(0) {
        Err(ControlFault::Other(zero_rate_message()))
    } else {
        Ok(ControlView::Event(Some(event)))
    }
}

/// The verb that a JSON value names, if it is a string that spells one.
fn read_tag(tag: &JsonItem) -> (out: Option<Verb>)
    ensures
        out == tagged_verb(tag@),
{
    match &tag.string {
        Ok(word) => read_verb(word.as_str()),
        Err(_) => None,
    }
}

/// The event of a verb and the number that comes with it, where the verb takes one.
fn complete(verb: Verb, number: Option<u64>) -> (out: Option<PipeEvent>)
    ensures
        match out {
            Some(event) => completed(verb, number) == Some(event@),
            None => completed(verb, number) is None,
        },
{
    if let Some(event) = without_number(verb) {
        return Some(event);
    }
    match number {
        Some(number) => Some(with_number(verb, number)),
        None => None,
    }
}

/// Reads a JSON control message such as `{"type":"rate","rate":5}`.
pub fn read_instruction(line: &str, node: &JsonNode) -> (out: Option<PipeEvent>)
    ensures
        match out {
            Some(event) => instruction(line@, node@) == Some(event@),
            None => instruction(line@, node@) is None,
        },
{
    match node {
        JsonNode::Object(members) => {
            assert(node@ == JsonForm::Object(json::member_forms(members@)));
            let tag = json::find_member(members, "type")?;
            if json::is_keyed_twice(line, "type") {
                return None;
            }
            let found = read_tag(tag)?;
            if without_number(found).is_none() && json::is_keyed_twice(line, number_field(found)) {
                return None;
            }
            let number: Option<u64> = match json::find_member(members, number_field(found)) {
                Some(item) => item.number,
                None => None,
            };
            complete(found, number)
        },
        JsonNode::Array(items) => {
            if items.len() == 0 {
                return None;
            }
            let found = read_tag(&items[0])?;
            if let Some(event) = without_number(found) {
                if items.len() == 1 {
                    Some(event)
                } else {
                    None
                }
            } else if items.len() == 2 {
                complete(found, items[1].number)
            } else {
                None
            }
        },
        _ => None,
    }
}

/// Accepts the event of a JSON control message, unless it sets a tick rate of zero.
pub fn accept_instruction(event: PipeEvent) -> (out: Result<ControlParseResult, ControlParseError>)
    ensures
        outcome(out) == instructed(event@),
{
    if let PipeEvent::SetRate(rate) = &event {
        if *rate == 0 {
            return Err(
                ControlParseError::Other("tick rate must be greater than zero".to_owned()),
            );
        }
    }
    Ok(ControlParseResult::Event(Some(event)))
}

// ---------------------------------------------------------------------------
// JSON-RPC requests
// ---------------------------------------------------------------------------

/// JSON-RPC code of a message that is no request.
pub const INVALID_REQUEST: i64 = -32600;

/// JSON-RPC code of a method that does not exist.
pub const METHOD_NOT_FOUND: i64 = -32601;

/// JSON-RPC code of parameters that do not fit the method.
pub const INVALID_PARAMS: i64 = -32602;

/// A JSON-RPC request.
#[derive(Debug)]
pub struct JsonRpcRequest {
    /// Protocol version, which is `2.0`.
    pub jsonrpc: String,
    /// The request's `id` as compact JSON text.
    pub id: Option<String>,
    /// What the request asks for.
    pub method: String,
    /// The parameters.
    pub params: Option<JsonNode>,
}

/// A JSON-RPC request as plain values.
pub struct RequestView {
    /// Protocol version.
    pub jsonrpc: Seq<char>,
    /// The request's `id`.
    pub id: Option<Seq<char>>,
    /// What the request asks for.
    pub method: Seq<char>,
    /// The parameters.
    pub params: Option<JsonForm>,
}

/// Optional parameters as plain values.
pub open spec fn params_view(params: Option<JsonNode>) -> Option<JsonForm> {
    match params {
        Some(node) => Some(node@),
        None => None,
    }
}

impl View for JsonRpcRequest {
    type V = RequestView;

    open spec fn view(&self) -> RequestView {
        RequestView {
            jsonrpc: self.jsonrpc@,
            id: text_view(self.id),
            method: self.method@,
            params: params_view(self.params),
        }
    }
}

/// A JSON-RPC error without further data.
pub open spec fn rpc_fault(code: i64, message: Seq<char>, id: Option<Seq<char>>) -> ControlFault {
    ControlFault::JsonRpc { code, message, data: None, id }
}

/// The number among the parameters of a request: the parameters themselves, the
/// first of them, or the one with the field's name.
pub open spec fn parameter(params: Option<JsonForm>, field: Seq<char>) -> Option<u64> {
    match params {
        Some(JsonForm::Number(number)) => number,
        Some(JsonForm::Array(items)) => if items.len() > 0 {
            items[0].number
        } else {
            None
        },
        Some(JsonForm::Object(members)) => member_number(members, field),
        _ => None,
    }
}

/// What says that a method misses its parameter.
pub open spec fn missing_parameter(method: Seq<char>, field: Seq<char>) -> Seq<char> {
    "invalid params: method '"@ + method + "' requires '"@ + field + "'"@
}

/// The number that a method takes, or the error that says that it is missing.
pub open spec fn extracted(
    params: Option<JsonForm>,
    field: Seq<char>,
    method: Seq<char>,
    id: Option<Seq<char>>,
) -> Result<u64, ControlFault> {
    match parameter(params, field) {
        Some(number) => Ok(number),
        None => Err(rpc_fault(INVALID_PARAMS, missing_parameter(method, field), id)),
    }
}

/// The verb behind a method: `AddFileNoteAsync` is another name of `now`.
pub open spec fn method_verb(method: Seq<char>) -> Option<Verb> {
    if method == "AddFileNoteAsync"@ {
        Some(Verb::Now)
    } else {
        verb(method)
    }
}

/// What a request asks for.
pub open spec fn requested(request: RequestView) -> Result<EventView, ControlFault> {
    match method_verb(request.method) {
        None => Err(
            rpc_fault(
                METHOD_NOT_FOUND,
                "method not found: '"@ + request.method + "'"@,
                request.id,
            ),
        ),
        Some(found) => match plain_event(found) {
            Some(event) => Ok(event),
            None => match extracted(
                request.params,
                field_name(found),
                request.method,
                request.id,
            ) {
                Err(fault) => Err(fault),
                Ok(number) => if found is Rate && number == 0 {
                    Err(
                        rpc_fault(
                            INVALID_PARAMS,
                            "invalid params: tick rate must be greater than zero"@,
                            request.id,
                        ),
                    )
                } else {
                    Ok(numbered_event(found, number))
                },
            },
        },
    }
}

/// The `id` of a message, if it has one.
pub open spec fn message_id(members: Seq<(Seq<char>, ItemForm)>) -> Option<Seq<char>> {
    match json::member(members, "id"@) {
        Some(item) => Some(item.text),
        None => None,
    }
}

/// The error for a message that is no request.
pub open spec fn no_request(reason: Seq<char>, id: Option<Seq<char>>) -> ControlFault {
    rpc_fault(INVALID_REQUEST, "invalid JSON-RPC request: "@ + reason, id)
}

/// The request that a message with a `jsonrpc` member holds: its version and its
/// method are strings, and the version is `2.0`.
pub open spec fn envelope(
    version: ItemForm,
    members: Seq<(Seq<char>, ItemForm)>,
) -> Result<RequestView, ControlFault> {
    let id = message_id(members);
    match version.string {
        Err(reason) => Err(no_request(reason, id)),
        Ok(jsonrpc) => match json::member(members, "method"@) {
            None => Err(no_request("missing field `method`"@, id)),
            Some(item) => match item.string {
                Err(reason) => Err(no_request(reason, id)),
                Ok(method) => if jsonrpc != "2.0"@ {
                    Err(no_request("jsonrpc must be \"2.0\""@, id))
                } else {
                    Ok(
                        RequestView {
                            jsonrpc,
                            id,
                            method,
                            params: match json::member(members, "params"@) {
                                Some(params) => json::json_form(params.text),
                                None => None,
                            },
                        },
                    )
                },
            },
        },
    }
}

/// A JSON-RPC error without further data.
fn rpc_error(code: i64, message: String, id: Option<String>) -> (error: ControlParseError)
    ensures
        error@ == rpc_fault(code, message@, text_view(id)),
{
    ControlParseError::JsonRpc(JsonRpcErrorDetail { code, message, data: None }, id)
}

/// A copy of an optional text.
fn copy_text(text: &Option<String>) -> (copy: Option<String>)
    ensures
        text_view(copy) == text_view(*text),
{
    match text {
        Some(text) => Some(text.clone()),
        None => None,
    }
}

/// The number that a method takes, from the parameters of its request.
pub fn extract_jsonrpc_u64(
    params: &Option<JsonNode>,
    field: &str,
    method: &str,
    id: &Option<String>,
) -> (out: Result<u64, ControlParseError>)
    ensures
        match out {
            Ok(number) => extracted(params_view(*params), field@, method@, text_view(*id)) == Ok::<
                u64,
                ControlFault,
            >(number),
            Err(error) => extracted(params_view(*params), field@, method@, text_view(*id)) == Err::<
                u64,
                ControlFault,
            >(error@),
        },
{
    let value: Option<u64> = match params {
        Some(JsonNode::Number(number)) => *number,
        Some(JsonNode::Array(items)) => if items.len() > 0 {
            items[0].number
        } else {
            None
        },
        Some(JsonNode::Object(members)) => {
            assert(params_view(*params) == Some(JsonForm::Object(json::member_forms(members@))));
            match json::find_member(members, field) {
                Some(item) => item.number,
                None => None,
            }
        },
        _ => None,
    };
    match value {
        Some(number) => Ok(number),
        None => {
            let message = "invalid params: method '".to_owned().concat(method).concat(
                "' requires '",
            ).concat(field).concat("'");
            Err(rpc_error(INVALID_PARAMS, message, copy_text(id)))
        },
    }
}

/// The event that a request asks for, or the error to report.
pub fn parse_jsonrpc_request(request: &JsonRpcRequest) -> (out: Result<
    PipeEvent,
    ControlParseError,
>)
    ensures
        outcome(out) == requested(request@),
{
    let method = request.method.as_str();
    let looked_up = if text::same_text(method, "AddFileNoteAsync") {
        Some(Verb::Now)
    } else {
        read_verb(method)
    };
    match looked_up {
        None => {
            let message = "method not found: '".to_owned().concat(method).concat("'");
            Err(rpc_error(METHOD_NOT_FOUND, message, copy_text(&request.id)))
        },
        Some(found) => {
            if let Some(event) = without_number(found) {
                return Ok(event);
            }
            match extract_jsonrpc_u64(&request.params, number_field(found), method, &request.id) {
                Err(error) => Err(error),
                Ok(number) => if found == Verb::Rate && number == 0 {
                    let message =
                        "invalid params: tick rate must be greater than zero".to_owned();
                    Err(rpc_error(INVALID_PARAMS, message, copy_text(&request.id)))
                } else {
                    Ok(with_number(found, number))
                },
            }
        },
    }
}

/// The error for a message that is no request.
fn not_a_request(reason: &str, id: Option<String>) -> (error: ControlParseError)
    ensures
        error@ == no_request(reason@, text_view(id)),
{
    let message = "invalid JSON-RPC request: ".to_owned().concat(reason);
    rpc_error(INVALID_REQUEST, message, id)
}

/// Reads the request that a message with a `jsonrpc` member holds.
pub fn read_request(version: &JsonItem, members: &Vec<(String, JsonItem)>) -> (out: Result<
    JsonRpcRequest,
    ControlParseError,
>)
    ensures
        outcome(out) == envelope(version@, json::member_forms(members@)),
{
    let id: Option<String> = match json::find_member(members, "id") {
        Some(item) => Some(item.text.clone()),
        None => None,
    };
    let jsonrpc = match &version.string {
        Ok(jsonrpc) => jsonrpc.clone(),
        Err(reason) => {
            return Err(not_a_request(reason.as_str(), id));
        },
    };
    let method = match json::find_member(members, "method") {
        None => {
            return Err(not_a_request("missing field `method`", id));
        },
        Some(item) => match &item.string {
            Ok(method) => method.clone(),
            Err(reason) => {
                return Err(not_a_request(reason.as_str(), id));
            },
        },
    };
    if !text::same_text(jsonrpc.as_str(), "2.0") {
        return Err(not_a_request("jsonrpc must be \"2.0\"", id));
    }
    let params: Option<JsonNode> = match json::find_member(members, "params") {
        Some(item) => json::read_json(item.text.as_str()),
        None => None,
    };
    Ok(JsonRpcRequest { jsonrpc, id, method, params })
}

// ---------------------------------------------------------------------------
// Control instructions
// ---------------------------------------------------------------------------

/// What becomes of a message with a `jsonrpc` member.
pub open spec fn rpc_outcome(
    version: ItemForm,
    members: Seq<(Seq<char>, ItemForm)>,
) -> Result<ControlView, ControlFault> {
    match envelope(version, members) {
        Err(fault) => Err(fault),
        Ok(request) => match requested(request) {
            Err(fault) => Err(fault),
            Ok(event) => Ok(ControlView::JsonRpc { id: request.id, event }),
        },
    }
}

/// What a line says as a control instruction, given what it says as JSON: a message
/// with a `jsonrpc` member is a JSON-RPC request and nothing else; then come JSON
/// control messages, and at last shorthand lines.
pub open spec fn control(line: Seq<char>, form: Option<JsonForm>) -> Result<
    ControlView,
    ControlFault,
> {
    match rpc_version(form) {
        Some(version) => rpc_outcome(version, form->0->Object_0),
        None => match form_instruction(line, form) {
            Some(event) => instructed(event),
            None => shorthand(line),
        },
    }
}

/// The `jsonrpc` member of a message, if it is an object that has one.
pub open spec fn rpc_version(form: Option<JsonForm>) -> Option<ItemForm> {
    match form {
        Some(JsonForm::Object(members)) => json::member(members, "jsonrpc"@),
        _ => None,
    }
}

/// What a line says as a JSON control message, if it is one.
pub open spec fn form_instruction(line: Seq<char>, form: Option<JsonForm>) -> Option<EventView> {
    match form {
        Some(form) => instruction(line, form),
        None => None,
    }
}

/// Whether what an outcome carries to be echoed, if anything, stands on one line.
pub open spec fn echoes_on_one_line(outcome: Result<ControlView, ControlFault>) -> bool {
    match outcome {
        Ok(ControlView::JsonRpc { id, .. }) => id matches Some(id) ==> json::one_line(id),
        Err(ControlFault::JsonRpc { id, data, .. }) => {
            &&& id matches Some(id) ==> json::one_line(id)
            &&& data matches Some(data) ==> json::one_line(data)
        },
        _ => true,
    }
}

/// What an outcome echoes stands on one line where all values of the message do.
pub proof fn control_echoes_on_one_line(line: Seq<char>, form: Option<JsonForm>)
    requires
        form matches Some(form) ==> json::one_line_below(form),
    ensures
        echoes_on_one_line(control(line, form)),
{
    if let Some(JsonForm::Object(members)) = form {
        json::member_stands_below(members, "id"@);
    }
}

/// Reads a control instruction from a line and from what it says as JSON.
pub fn interpret_control(line: &str, node: &Option<JsonNode>) -> (out: Result<
    ControlParseResult,
    ControlParseError,
>)
    ensures
        outcome(out) == control(line@, params_view(*node)),
{
    if let Some(JsonNode::Object(members)) = node {
        assert(params_view(*node) == Some(JsonForm::Object(json::member_forms(members@))));
        if let Some(version) = json::find_member(members, "jsonrpc") {
            let request = match read_request(version, members) {
                Ok(request) => request,
                Err(error) => {
                    return Err(error);
                },
            };
            return match parse_jsonrpc_request(&request) {
                Ok(event) => Ok(ControlParseResult::JsonRpc { id: request.id, event }),
                Err(error) => Err(error),
            };
        }
    }
    if let Some(found) = node {
        if let Some(event) = read_instruction(line, found) {
            return accept_instruction(event);
        }
    }
    parse_shorthand(line)
}

/// Reads a control instruction.
///
/// The line is tried as a JSON-RPC request such as
/// `{"jsonrpc":"2.0","method":"start"}`, then as a JSON control message such as
/// `{"type":"start"}`, and then as a shorthand line such as `rate 2`. A line that is
/// none of these gives `Event(None)`, so that it can be tried as a scheduler line.
/// A tick rate of zero is refused, and a malformed JSON-RPC request is an error that
/// no other reading is tried after.
pub fn parse_control_instruction(line: &str) -> (out: Result<
    ControlParseResult,
    ControlParseError,
>)
    ensures
        outcome(out) == control(line@, json::json_form(line@)),
        !json::may_open_structure(line@) ==> outcome(out) == shorthand(line@),
        echoes_on_one_line(outcome(out)),
{
    let node = json::read_json(line);
    proof {
        control_echoes_on_one_line(line@, params_view(node));
    }
    assert(params_view(node) == json::json_form(line@));
    interpret_control(line, &node)
}

// ---------------------------------------------------------------------------
// Laws
// ---------------------------------------------------------------------------


/// No control instruction sets a tick rate of zero.
pub proof fn control_never_sets_zero_rate(line: Seq<char>, form: Option<JsonForm>)
    ensures
        match control(line, form) {
            Ok(ControlView::Event(Some(event))) => event != EventView::SetRate(0),
            Ok(ControlView::JsonRpc { event, .. }) => event != EventView::SetRate(0),
            _ => true,
        },
{
}

/// A message with a `jsonrpc` member is taken as a JSON-RPC request or refused as
/// one. No other reading is tried.
pub proof fn jsonrpc_never_falls_back(line: Seq<char>, form: Option<JsonForm>)
    requires
        rpc_version(form) is Some,
    ensures
        match control(line, form) {
            Ok(taken) => taken is JsonRpc,
            Err(fault) => fault is JsonRpc,
        },
{
}

/// What a message with a `jsonrpc` member comes to carries the `id` of the message.
pub proof fn jsonrpc_keeps_the_id(version: ItemForm, members: Seq<(Seq<char>, ItemForm)>)
    ensures
        match rpc_outcome(version, members) {
            Ok(ControlView::JsonRpc { id, .. }) => id == message_id(members),
            Err(ControlFault::JsonRpc { id, .. }) => id == message_id(members),
            _ => false,
        },
{
}

/// An error that a message with a `jsonrpc` member comes to has no further data.
pub proof fn jsonrpc_errors_have_no_data(
    version: ItemForm,
    members: Seq<(Seq<char>, ItemForm)>,
)
    ensures
        rpc_outcome(version, members) matches Err(ControlFault::JsonRpc { data, .. }) ==> data
            is None,
{
}

/// A number as the parameters themselves, as the first of them and as the one with
/// the field's name is the same parameter.
pub proof fn parameter_forms_agree(
    field: Seq<char>,
    number: u64,
    items: Seq<ItemForm>,
    members: Seq<(Seq<char>, ItemForm)>,
)
    requires
        items.len() > 0,
        items[0].number == Some(number),
        json::member(members, field) matches Some(item) && item.number == Some(number),
    ensures
        parameter(Some(JsonForm::Number(Some(number))), field) == Some(number),
        parameter(Some(JsonForm::Array(items)), field) == Some(number),
        parameter(Some(JsonForm::Object(members)), field) == Some(number),
{
}

/// The method `AddFileNoteAsync` asks for what `now` asks for, whatever its
/// parameters.
pub proof fn file_note_is_now(request: RequestView)
    requires
        request.method == "AddFileNoteAsync"@,
    ensures
        requested(request) == requested(RequestView { method: "now"@, ..request }),
        requested(request) == Ok::<EventView, ControlFault>(EventView::Now),
{
    reveal_strlit("AddFileNoteAsync");
    reveal_strlit("now");
    reveal_strlit("start");
    reveal_strlit("stop");
    reveal_strlit("pause");
    reveal_strlit("tick");
    assert("now"@.len() == 3);
    assert("now"@[0] == 'n');
}

/// In a shorthand line a colon parts the verb from its argument as well as a space.
pub proof fn colon_and_space_agree(word: Seq<char>, argument: Seq<char>)
    requires
        !word.contains(' '),
        !word.contains(':'),
        !argument.contains(' '),
    ensures
        shorthand(word + seq![':'] + argument) == shorthand(word + seq![' '] + argument),
{
    let coloned = word + seq![':'] + argument;
    if coloned.contains(' ') {
        let i = choose|i: int| 0 <= i < coloned.len() && coloned[i] == ' ';
        if i < word.len() {
            assert(word[i] == ' ');
        } else if i > word.len() {
            assert(argument[i - word.len() - 1] == ' ');
        }
    }
    text::cut_nowhere(coloned, ' ');
    text::cut_between(word, ':', argument);
    text::cut_between(word, ' ', argument);
}

/// A line that begins with no verb is left to be tried as a scheduler line.
pub proof fn other_lines_are_left(line: Seq<char>)
    requires
        verb(shorthand_parts(line).0) is None,
    ensures
        shorthand(line) == Ok::<ControlView, ControlFault>(ControlView::Event(None)),
{
}

/// Whether a word spells one of the nine verbs.
pub open spec fn is_verb(word: Seq<char>) -> bool {
    takes_no_number(word) || takes_a_number(word)
}

/// Whether a word spells a verb that takes no number.
pub open spec fn takes_no_number(word: Seq<char>) -> bool {
    word == "start"@ || word == "stop"@ || word == "pause"@ || word == "tick"@ || word == "now"@
}

/// Whether a word spells a verb that takes a number.
pub open spec fn takes_a_number(word: Seq<char>) -> bool {
    word == "run"@ || word == "step"@ || word == "advance"@ || word == "rate"@
}

/// Whether a JSON message names the number that a word takes by `field`.
pub open spec fn is_number_field(word: Seq<char>, field: Seq<char>) -> bool {
    ||| word == "run"@ && field == "ticks"@
    ||| word == "step"@ && field == "delta"@
    ||| word == "advance"@ && field == "target"@
    ||| word == "rate"@ && field == "rate"@
}

/// A word of small letters.
spec fn small_word(word: Seq<char>) -> bool {
    word.len() > 0 && forall|i: int| 0 <= i < word.len() ==> 'a' <= #[trigger] word[i] <= 'z'
}

proof fn lemma_nine_verbs()
    ensures
        verb("start"@) == Some(Verb::Start),
        verb("stop"@) == Some(Verb::Stop),
        verb("pause"@) == Some(Verb::Pause),
        verb("tick"@) == Some(Verb::Tick),
        verb("now"@) == Some(Verb::Now),
        verb("run"@) == Some(Verb::Run),
        verb("step"@) == Some(Verb::Step),
        verb("advance"@) == Some(Verb::Advance),
        verb("rate"@) == Some(Verb::Rate),
        forall|word: Seq<char>| is_verb(word) ==> #[trigger] small_word(word),
        forall|word: Seq<char>| is_verb(word) ==> word != "AddFileNoteAsync"@ && #[trigger] verb(
            word,
        ) is Some,
        forall|word: Seq<char>| !is_verb(word) ==> #[trigger] verb(word) is None,
        forall|word: Seq<char>| takes_no_number(word) ==> !#[trigger] takes_a_number(word),
{
    reveal_strlit("start");
    reveal_strlit("stop");
    reveal_strlit("pause");
    reveal_strlit("tick");
    reveal_strlit("now");
    reveal_strlit("run");
    reveal_strlit("step");
    reveal_strlit("advance");
    reveal_strlit("rate");
    reveal_strlit("AddFileNoteAsync");
    assert("start"@.len() == 5);
    assert("pause"@.len() == 5);
    assert("start"@[0] == 's');
    assert("pause"@[0] == 'p');
    assert("stop"@[2] == 'o');
    assert("step"@[2] == 'e');
    assert("tick"@[0] == 't');
    assert("rate"@[0] == 'r');
    assert("now"@[0] == 'n');
    assert("run"@.len() == 3);
    assert("rate"@.len() == 4);
    assert("advance"@.len() == 7);
    assert("AddFileNoteAsync"@.len() == 16);
}

proof fn lemma_parts(typed: Seq<char>, rest: Seq<char>)
    requires
        !typed.contains(' '),
    ensures
        shorthand_parts(typed + seq![' '] + rest) == (text::ascii_lower(typed), text::trim(rest)),
        !typed.contains(':') ==> shorthand_parts(typed) == (
            text::ascii_lower(typed),
            Seq::<char>::empty(),
        ),
        !typed.contains(':') && !rest.contains(' ') ==> shorthand_parts(typed + seq![':'] + rest)
            == (text::ascii_lower(typed), text::trim(rest)),
{
    text::cut_between(typed, ' ', rest);
    text::cut_nowhere(typed, ' ');
    if !typed.contains(':') {
        text::cut_nowhere(typed, ':');
        text::cut_between(typed, ':', rest);
        if !rest.contains(' ') {
            let line = typed + seq![':'] + rest;
            if line.contains(' ') {
                let i = choose|i: int| 0 <= i < line.len() && line[i] == ' ';
                if i < typed.len() {
                    assert(typed[i] == ' ');
                } else if i > typed.len() {
                    assert(rest[i - typed.len() - 1] == ' ');
                }
            }
            text::cut_nowhere(line, ' ');
        }
    }
}

proof fn lemma_spelling(typed: Seq<char>, word: Seq<char>)
    requires
        small_word(word),
        text::ascii_lower(typed) == word,
    ensures
        !typed.contains(' '),
        !typed.contains(':'),
{
    assert forall|i: int| 0 <= i < typed.len() implies typed[i] != ' ' && typed[i] != ':' by {
        assert(word[i] == text::ascii_lower_char(typed[i]));
    }
}

/// The verbs without a number stand alone on a shorthand line, in large or small letters,
/// and mean the event of their name whatever stands behind them.
pub proof fn plain_shorthand(typed: Seq<char>, rest: Seq<char>)
    ensures
        text::ascii_lower(typed) == "start"@ ==> says_alone(typed, rest, EventView::Start),
        text::ascii_lower(typed) == "stop"@ ==> says_alone(typed, rest, EventView::Stop),
        text::ascii_lower(typed) == "pause"@ ==> says_alone(typed, rest, EventView::Pause),
        text::ascii_lower(typed) == "tick"@ ==> says_alone(typed, rest, EventView::Tick),
        text::ascii_lower(typed) == "now"@ ==> says_alone(typed, rest, EventView::Now),
{
    lemma_nine_verbs();
    let word = text::ascii_lower(typed);
    if takes_no_number(word) {
        assert(small_word(word));
        lemma_spelling(typed, word);
        lemma_parts(typed, rest);
    }
}

/// Whether a word, alone on a shorthand line and with a rest behind it, means `event`.
pub open spec fn says_alone(typed: Seq<char>, rest: Seq<char>, event: EventView) -> bool {
    &&& shorthand(typed) == Ok::<ControlView, ControlFault>(ControlView::Event(Some(event)))
    &&& shorthand(typed + seq![' '] + rest) == Ok::<ControlView, ControlFault>(
        ControlView::Event(Some(event)),
    )
}

/// The verbs with a number mean the event of their name and that number, in large or small
/// letters and behind a space or a colon. Without a number they are refused with how they
/// are used, and so is a rate of zero with what is wrong.
pub proof fn numbered_shorthand(typed: Seq<char>, argument: Seq<char>, number: u64)
    requires
        text::parsed_u64(text::trim(argument)) == Some(number),
    ensures
        text::ascii_lower(typed) == "run"@ ==> shorthand(typed + seq![' '] + argument) == Ok::<
            ControlView,
            ControlFault,
        >(ControlView::Event(Some(EventView::RunTicks(number)))),
        text::ascii_lower(typed) == "step"@ ==> shorthand(typed + seq![' '] + argument) == Ok::<
            ControlView,
            ControlFault,
        >(ControlView::Event(Some(EventView::Step(number)))),
        text::ascii_lower(typed) == "advance"@ ==> shorthand(typed + seq![' '] + argument) == Ok::<
            ControlView,
            ControlFault,
        >(ControlView::Event(Some(EventView::Advance(number)))),
        text::ascii_lower(typed) == "rate"@ && number > 0 ==> shorthand(
            typed + seq![' '] + argument,
        ) == Ok::<ControlView, ControlFault>(ControlView::Event(Some(EventView::SetRate(number)))),
        text::ascii_lower(typed) == "rate"@ && number == 0 ==> shorthand(
            typed + seq![' '] + argument,
        ) == Err::<ControlView, ControlFault>(
            ControlFault::Other("tick rate must be greater than zero"@),
        ),
        takes_a_number(text::ascii_lower(typed)) && !argument.contains(' ') ==> shorthand(
            typed + seq![':'] + argument,
        ) == shorthand(typed + seq![' '] + argument),
{
    lemma_nine_verbs();
    let word = text::ascii_lower(typed);
    if takes_a_number(word) {
        assert(small_word(word));
        lemma_spelling(typed, word);
        lemma_parts(typed, argument);
    }
}

/// A verb that takes a number is refused without one, alone or with anything else behind
/// it, with how it is used.
pub proof fn numbers_are_needed(typed: Seq<char>, argument: Seq<char>)
    requires
        text::parsed_u64(text::trim(argument)) is None,
    ensures
        text::ascii_lower(typed) == "run"@ ==> is_refused(
            typed,
            argument,
            "usage: run <number of ticks>"@,
        ),
        text::ascii_lower(typed) == "step"@ ==> is_refused(
            typed,
            argument,
            "usage: step <non-negative delta>"@,
        ),
        text::ascii_lower(typed) == "advance"@ ==> is_refused(
            typed,
            argument,
            "usage: advance <target timestamp>"@,
        ),
        text::ascii_lower(typed) == "rate"@ ==> is_refused(
            typed,
            argument,
            "usage: rate <non-zero u64>"@,
        ),
{
    lemma_nine_verbs();
    let word = text::ascii_lower(typed);
    if takes_a_number(word) {
        assert(small_word(word));
        lemma_spelling(typed, word);
        lemma_parts(typed, argument);
        text::other_texts_are_no_numbers(Seq::empty(), 0);
    }
}

/// Whether a word, alone on a shorthand line and with an argument behind it, is refused
/// with `message`.
pub open spec fn is_refused(typed: Seq<char>, argument: Seq<char>, message: Seq<char>) -> bool {
    &&& shorthand(typed) == Err::<ControlView, ControlFault>(ControlFault::Other(message))
    &&& shorthand(typed + seq![' '] + argument) == Err::<ControlView, ControlFault>(
        ControlFault::Other(message),
    )
}

/// A line whose first word is none of the nine verbs, in whatever letters, is no control
/// line.
pub proof fn other_words_say_nothing(typed: Seq<char>, rest: Seq<char>)
    requires
        !typed.contains(' '),
        !is_verb(text::ascii_lower(typed)),
    ensures
        shorthand(typed + seq![' '] + rest) == Ok::<ControlView, ControlFault>(
            ControlView::Event(None),
        ),
        !typed.contains(':') ==> shorthand(typed) == Ok::<ControlView, ControlFault>(
            ControlView::Event(None),
        ),
        !typed.contains(':') && !rest.contains(' ') ==> shorthand(typed + seq![':'] + rest) == Ok::<
            ControlView,
            ControlFault,
        >(ControlView::Event(None)),
{
    lemma_nine_verbs();
    lemma_parts(typed, rest);
}

/// A JSON control message means what the shorthand line of its verb and number means: an
/// object with the verb as its `type` and the number under the name that goes with the
/// verb, neither key twice, and an array of the verb and the number. A verb that takes no
/// number needs none.
pub proof fn json_means_what_shorthand_means(
    line: Seq<char>,
    members: Seq<(Seq<char>, ItemForm)>,
    items: Seq<ItemForm>,
    word: Seq<char>,
    field: Seq<char>,
    number: u64,
)
    ensures
        ({
            &&& json::member(members, "jsonrpc"@) is None
            &&& json::member(members, "type"@) matches Some(tag) && tag.string == Ok::<
                Seq<char>,
                Seq<char>,
            >(word)
            &&& !json::keyed_twice(line, "type"@)
            &&& takes_no_number(word) || (is_number_field(word, field) && holds_number(
                Some(JsonForm::Object(members)),
                field,
                number,
            ) && !json::keyed_twice(line, field))
        }) ==> control(line, Some(JsonForm::Object(members))) == shorthand(
            word + seq![' '] + text::decimal(number as nat),
        ),
        ({
            &&& items.len() > 0 && items[0].string == Ok::<Seq<char>, Seq<char>>(word)
            &&& takes_no_number(word) && items.len() == 1 || takes_a_number(word) && items.len()
                == 2 && items[1].number == Some(number)
        }) ==> control(line, Some(JsonForm::Array(items))) == shorthand(
            word + seq![' '] + text::decimal(number as nat),
        ),
{
    lemma_nine_verbs();
    if is_verb(word) {
        let digits = text::decimal(number as nat);
        assert(small_word(word));
        assert(text::ascii_lower(word) =~= word);
        lemma_spelling(word, word);
        lemma_parts(word, digits);
        text::decimal_is_digits(number as nat);
        text::decimal_reads_back(number as nat);
        assert(text::is_digit(digits[0]) && text::is_digit(digits[digits.len() - 1]));
        text::trim_keeps_bare_text(digits);
        lemma_fields(word, field);
    }
}

proof fn lemma_fields(word: Seq<char>, field: Seq<char>)
    ensures
        is_number_field(word, field) ==> takes_a_number(word) && verb(word) is Some && field_name(
            verb(word)->0,
        ) == field,
{
    lemma_nine_verbs();
}

/// Any other JSON is no control message, so that its line is read as a shorthand line: no
/// array or object, an object without `type` or with a `type` that spells no verb, an array
/// that does not begin with a verb.
pub proof fn other_json_is_left(
    line: Seq<char>,
    form: Option<JsonForm>,
    members: Seq<(Seq<char>, ItemForm)>,
    items: Seq<ItemForm>,
)
    ensures
        !(form matches Some(JsonForm::Object(_))) && !(form matches Some(JsonForm::Array(_)))
            ==> control(line, form) == shorthand(line),
        ({
            &&& json::member(members, "jsonrpc"@) is None
            &&& match json::member(members, "type"@) {
                Some(tag) => match tag.string {
                    Ok(word) => !is_verb(word) || json::keyed_twice(line, "type"@),
                    Err(_) => true,
                },
                None => true,
            }
        }) ==> control(line, Some(JsonForm::Object(members))) == shorthand(line),
        items.len() == 0 || items.len() > 2 || items[0].string is Err || !is_verb(
            items[0].string->Ok_0,
        ) ==> control(line, Some(JsonForm::Array(items))) == shorthand(line),
{
    lemma_nine_verbs();
}

/// JSON with a verb but not what belongs to it is no control message either: a verb that
/// takes a number without that number or with its key twice, and an array with more or
/// fewer elements.
pub proof fn incomplete_json_is_left(
    line: Seq<char>,
    members: Seq<(Seq<char>, ItemForm)>,
    items: Seq<ItemForm>,
    word: Seq<char>,
    field: Seq<char>,
)
    ensures
        ({
            &&& json::member(members, "jsonrpc"@) is None
            &&& json::member(members, "type"@) matches Some(tag) && tag.string == Ok::<
                Seq<char>,
                Seq<char>,
            >(word)
            &&& is_number_field(word, field)
            &&& json::keyed_twice(line, field) || match json::member(members, field) {
                Some(item) => item.number is None,
                None => true,
            }
        }) ==> control(line, Some(JsonForm::Object(members))) == shorthand(line),
        ({
            &&& items.len() > 0 && items[0].string == Ok::<Seq<char>, Seq<char>>(word)
            &&& takes_no_number(word) && items.len() != 1 || takes_a_number(word) && (items.len()
                != 2 || items[1].number is None)
        }) ==> control(line, Some(JsonForm::Array(items))) == shorthand(line),
{
    lemma_nine_verbs();
    if is_number_field(word, field) {
        lemma_fields(word, field);
    }
}

/// Whether the parameters of a request hold a number: as they are, as the first of them,
/// or under the name of a field.
pub open spec fn holds_number(params: Option<JsonForm>, field: Seq<char>, number: u64) -> bool {
    match params {
        Some(JsonForm::Number(value)) => value == Some(number),
        Some(JsonForm::Array(items)) => items.len() > 0 && items[0].number == Some(number),
        Some(JsonForm::Object(members)) => json::member(members, field) matches Some(item)
            && item.number == Some(number),
        _ => false,
    }
}

/// A request for one of the methods with a number asks for the event of its name and the
/// number that its parameters hold. A rate of zero is refused.
pub proof fn numbered_requests(request: RequestView, number: u64)
    ensures
        request.method == "run"@ && holds_number(request.params, "ticks"@, number) ==> requested(
            request,
        ) == Ok::<EventView, ControlFault>(EventView::RunTicks(number)),
        request.method == "step"@ && holds_number(request.params, "delta"@, number) ==> requested(
            request,
        ) == Ok::<EventView, ControlFault>(EventView::Step(number)),
        request.method == "advance"@ && holds_number(request.params, "target"@, number)
            ==> requested(request) == Ok::<EventView, ControlFault>(EventView::Advance(number)),
        request.method == "rate"@ && holds_number(request.params, "rate"@, number) && number > 0
            ==> requested(request) == Ok::<EventView, ControlFault>(EventView::SetRate(number)),
        request.method == "rate"@ && holds_number(request.params, "rate"@, number) && number == 0
            ==> requested(request) == Err::<EventView, ControlFault>(
            ControlFault::JsonRpc {
                code: (-32602) as i64,
                message: "invalid params: tick rate must be greater than zero"@,
                data: None,
                id: request.id,
            },
        ),
{
    lemma_nine_verbs();
}

/// A request for one of the methods without a number asks for the event of its name,
/// whatever its parameters.
pub proof fn plain_requests(request: RequestView)
    ensures
        request.method == "start"@ ==> requested(request) == Ok::<EventView, ControlFault>(
            EventView::Start,
        ),
        request.method == "stop"@ ==> requested(request) == Ok::<EventView, ControlFault>(
            EventView::Stop,
        ),
        request.method == "pause"@ ==> requested(request) == Ok::<EventView, ControlFault>(
            EventView::Pause,
        ),
        request.method == "tick"@ ==> requested(request) == Ok::<EventView, ControlFault>(
            EventView::Tick,
        ),
        request.method == "now"@ || request.method == "AddFileNoteAsync"@ ==> requested(request)
            == Ok::<EventView, ControlFault>(EventView::Now),
{
    lemma_nine_verbs();
}

/// What a request asks for does not depend on its `id`: with another one it asks for the
/// same, and where it is refused only the `id` that is echoed differs.
pub proof fn requests_do_not_depend_on_the_id(request: RequestView, id: Option<Seq<char>>)
    ensures
        match requested(request) {
            Ok(event) => requested(RequestView { id, ..request }) == Ok::<EventView, ControlFault>(
                event,
            ),
            Err(ControlFault::JsonRpc { code, message, data, id: echoed }) => echoed == request.id
                && requested(RequestView { id, ..request }) == Err::<EventView, ControlFault>(
                ControlFault::JsonRpc { code, message, data, id },
            ),
            Err(ControlFault::Other(_)) => false,
        },
{
}

/// A method that takes a number is refused where the parameters hold none, with the name
/// of what is missing.
pub proof fn requests_need_their_number(request: RequestView, field: Seq<char>)
    requires
        is_number_field(request.method, field),
        forall|number: u64| !holds_number(request.params, field, number),
    ensures
        requested(request) == Err::<EventView, ControlFault>(
            ControlFault::JsonRpc {
                code: (-32602) as i64,
                message: "invalid params: method '"@ + request.method + "' requires '"@ + field
                    + "'"@,
                data: None,
                id: request.id,
            },
        ),
{
    lemma_nine_verbs();
    lemma_fields(request.method, field);
    if let Some(number) = parameter(request.params, field) {
        assert(holds_number(request.params, field, number));
    }
}

/// Any other method does not exist.
pub proof fn other_methods_do_not_exist(request: RequestView)
    requires
        !is_verb(request.method),
        request.method != "AddFileNoteAsync"@,
    ensures
        requested(request) == Err::<EventView, ControlFault>(
            ControlFault::JsonRpc {
                code: (-32601) as i64,
                message: "method not found: '"@ + request.method + "'"@,
                data: None,
                id: request.id,
            },
        ),
{
    lemma_nine_verbs();
}

/// A message with `jsonrpc` `2.0` and a string as its `method` is the request of its
/// members: it comes to what that request asks for, under the message's `id`.
pub proof fn messages_are_requests(
    line: Seq<char>,
    members: Seq<(Seq<char>, ItemForm)>,
    request: RequestView,
)
    requires
        request.jsonrpc == "2.0"@,
        json::member(members, "jsonrpc"@) matches Some(item) && item.string == Ok::<
            Seq<char>,
            Seq<char>,
        >(request.jsonrpc),
        json::member(members, "method"@) matches Some(item) && item.string == Ok::<
            Seq<char>,
            Seq<char>,
        >(request.method),
        match json::member(members, "id"@) {
            Some(item) => request.id == Some(item.text),
            None => request.id is None,
        },
    ensures
        (match json::member(members, "params"@) {
            Some(item) => request.params == json::json_form(item.text),
            None => request.params is None,
        }) ==> match requested(request) {
            Ok(event) => control(line, Some(JsonForm::Object(members))) == Ok::<
                ControlView,
                ControlFault,
            >(ControlView::JsonRpc { id: request.id, event }),
            Err(fault) => control(line, Some(JsonForm::Object(members))) == Err::<
                ControlView,
                ControlFault,
            >(fault),
        },
{
}

/// A message with a `jsonrpc` member that is no request is refused with what is wrong: a
/// version that is no string, a method that is missing or no string, or another version,
/// in this order.
pub proof fn other_messages_are_refused(
    line: Seq<char>,
    members: Seq<(Seq<char>, ItemForm)>,
    version: ItemForm,
    reason: Seq<char>,
)
    requires
        json::member(members, "jsonrpc"@) == Some(version),
        match version.string {
            Err(error) => reason == error,
            Ok(jsonrpc) => match json::member(members, "method"@) {
                None => reason == "missing field `method`"@,
                Some(item) => match item.string {
                    Err(error) => reason == error,
                    Ok(_) => jsonrpc != "2.0"@ && reason == "jsonrpc must be \"2.0\""@,
                },
            },
        },
    ensures
        control(line, Some(JsonForm::Object(members))) == Err::<ControlView, ControlFault>(
            ControlFault::JsonRpc {
                code: (-32600) as i64,
                message: "invalid JSON-RPC request: "@ + reason,
                data: None,
                id: match json::member(members, "id"@) {
                    Some(item) => Some(item.text),
                    None => None,
                },
            },
        ),
{
}

/// An event says what it holds: its kind, its number or its texts.
pub proof fn events_say_what_they_hold(
    number: u64,
    command: ScheduledCommand,
    file: String,
    note: String,
)
    ensures
        PipeEvent::Start@ == EventView::Start,
        PipeEvent::Stop@ == EventView::Stop,
        PipeEvent::Tick@ == EventView::Tick,
        PipeEvent::Step(number)@ == EventView::Step(number),
        PipeEvent::Advance(number)@ == EventView::Advance(number),
        PipeEvent::RunTicks(number)@ == EventView::RunTicks(number),
        PipeEvent::SetRate(number)@ == EventView::SetRate(number),
        PipeEvent::Now@ == EventView::Now,
        PipeEvent::Pause@ == EventView::Pause,
        PipeEvent::Disconnected@ == EventView::Disconnected,
        PipeEvent::Scheduled(command)@ == EventView::Scheduled(
            CommandView { timestamp: command.timestamp, command: command.command@ },
        ),
        (PipeEvent::AddFileNote { file, note })@ == (EventView::AddFileNote {
            file: file@,
            note: note@,
        }),
{
}

/// What was read says what it holds, whether it was understood or not.
pub proof fn outcomes_say_what_they_hold(
    event: PipeEvent,
    id: Option<String>,
    detail: JsonRpcErrorDetail,
    message: String,
)
    ensures
        outcome(Ok::<PipeEvent, ControlParseError>(event)) == Ok::<EventView, ControlFault>(event@),
        outcome(Ok::<ControlParseResult, ControlParseError>(ControlParseResult::Event(None)))
            == Ok::<ControlView, ControlFault>(ControlView::Event(None)),
        outcome(Ok::<ControlParseResult, ControlParseError>(ControlParseResult::Event(Some(event))))
            == Ok::<ControlView, ControlFault>(ControlView::Event(Some(event@))),
        outcome(
            Ok::<ControlParseResult, ControlParseError>(ControlParseResult::JsonRpc { id, event }),
        ) == Ok::<ControlView, ControlFault>(
            ControlView::JsonRpc {
                id: match id {
                    Some(id) => Some(id@),
                    None => None,
                },
                event: event@,
            },
        ),
        outcome(Err::<ControlParseResult, ControlParseError>(ControlParseError::Other(message)))
            == Err::<ControlView, ControlFault>(ControlFault::Other(message@)),
        outcome(
            Err::<ControlParseResult, ControlParseError>(ControlParseError::JsonRpc(detail, id)),
        ) == Err::<ControlView, ControlFault>(
            ControlFault::JsonRpc {
                code: detail.code,
                message: detail.message@,
                data: match detail.data {
                    Some(data) => Some(data@),
                    None => None,
                },
                id: match id {
                    Some(id) => Some(id@),
                    None => None,
                },
            },
        ),
{
}

/// What an outcome echoes stands on one line where its `id` and its data have no line
/// feed.
pub proof fn echoes_have_no_line_feed(
    event: EventView,
    code: i64,
    message: Seq<char>,
    data: Seq<char>,
    id: Seq<char>,
    i: int,
)
    ensures
        echoes_on_one_line(Ok(ControlView::JsonRpc { id: Some(id), event })) && 0 <= i < id.len()
            ==> id[i] != '\n',
        echoes_on_one_line(
            Err(ControlFault::JsonRpc { code, message, data: Some(data), id: Some(id) }),
        ) ==> (0 <= i < id.len() ==> id[i] != '\n') && (0 <= i < data.len() ==> data[i] != '\n'),
{
}

}
