//! Binary messages: MessagePack payloads behind a length prefix.
//!
//! A JSON-RPC message can be sent as MessagePack instead of a line of JSON. Every
//! message, and every reply, is a frame: the length of the payload as a little-endian
//! `u32`, then the payload.

use vstd::prelude::*;
use vstd::string::*;

use serde_json::Value;

use crate::json::{self, JsonForm, JsonItem, JsonNode};
use crate::text;
use crate::windows_pipe::{
    self, interpret_control, ControlFault, ControlParseError, ControlParseResult, ControlView,
    EventView, JsonRpcErrorDetail, PipeEvent,
};

verus! {

/// A length as four bytes, the least significant first.
pub open spec fn length_prefix(length: nat) -> Seq<u8> {
    seq![
        (length % 256) as u8,
        (length / 0x100 % 256) as u8,
        (length / 0x1_0000 % 256) as u8,
        (length / 0x100_0000 % 256) as u8,
    ]
}

/// The length that the first four bytes hold.
pub open spec fn prefix_value(bytes: Seq<u8>) -> nat {
    (bytes[0] + bytes[1] * 0x100 + bytes[2] * 0x1_0000 + bytes[3] * 0x100_0000) as nat
}

/// A payload behind its length.
pub open spec fn frame(payload: Seq<u8>) -> Seq<u8> {
    length_prefix(payload.len()) + payload
}

/// Whether a payload has a length that four bytes can hold.
pub open spec fn frameable(payload: Seq<u8>) -> bool {
    payload.len() <= u32::MAX
}

/// The payload of the frame that leads some bytes, if all of it is there.
pub open spec fn leading_payload(bytes: Seq<u8>) -> Option<Seq<u8>> {
    if bytes.len() >= 4 && bytes.len() >= 4 + prefix_value(bytes) {
        Some(bytes.subrange(4, 4 + prefix_value(bytes) as int))
    } else {
        None
    }
}

/// Puts a payload behind its length. A payload that is too long for a frame gives
/// nothing.
pub fn encode_frame(payload: &Vec<u8>) -> (out: Option<Vec<u8>>)
    ensures
        match out {
            Some(bytes) => frameable(payload@) && bytes@ == frame(payload@),
            None => !frameable(payload@),
        },
{
    let length: u64 = payload.len() as u64;
    if length > 0xffff_ffff {
        return None;
    }
    let mut bytes: Vec<u8> = Vec::new();
    bytes.push((length % 256) as u8);
    bytes.push((length / 0x100 % 256) as u8);
    bytes.push((length / 0x1_0000 % 256) as u8);
    bytes.push((length / 0x100_0000 % 256) as u8);
    assert(bytes@ == length_prefix(payload@.len()));
    let mut at: usize = 0;
    while at < payload.len()
        invariant
            at <= payload.len(),
            bytes@ == length_prefix(payload@.len()) + payload@.take(at as int),
        decreases payload.len() - at,
    {
        bytes.push(payload[at]);
        at = at + 1;
        assert(payload@.take(at as int) == payload@.take(at - 1).push(payload@[at - 1]));
    }
    assert(payload@.take(at as int) == payload@);
    Some(bytes)
}

/// Takes the frame that leads some bytes: its payload, and how many bytes the frame
/// is long. Gives nothing while the frame is not all there.
pub fn decode_frame(bytes: &Vec<u8>) -> (out: Option<(Vec<u8>, usize)>)
    ensures
        match out {
            Some((payload, used)) => leading_payload(bytes@) == Some(payload@) && used == 4
                + payload@.len(),
            None => leading_payload(bytes@) is None,
        },
{
    if bytes.len() < 4 {
        return None;
    }
    let length: u64 = bytes[0] as u64 + bytes[1] as u64 * 0x100 + bytes[2] as u64 * 0x1_0000
        + bytes[3] as u64 * 0x100_0000;
    if ((bytes.len() - 4) as u64) < length {
        return None;
    }
    let end: usize = 4 + length as usize;
    let mut payload: Vec<u8> = Vec::new();
    let mut at: usize = 4;
    while at < end
        invariant
            4 <= at <= end <= bytes.len(),
            payload@ == bytes@.subrange(4, at as int),
        decreases end - at,
    {
        payload.push(bytes[at]);
        at = at + 1;
        assert(payload@ == bytes@.subrange(4, at as int));
    }
    Some((payload, end))
}

/// What a MessagePack payload says as JSON, one level deep: `None` where it holds no
/// value of JSON.
pub uninterp spec fn unpacked(payload: Seq<u8>) -> Option<JsonForm>;

/// The value that a JSON text holds, as MessagePack.
pub uninterp spec fn packed(text: Seq<char>) -> Option<Seq<u8>>;

/// The value of a member of the object that a MessagePack payload holds, as
/// MessagePack.
pub uninterp spec fn packed_member(payload: Seq<u8>, key: Seq<char>) -> Option<Seq<u8>>;

/// An object with some members, whose values are MessagePack, as MessagePack.
pub uninterp spec fn packed_object(members: Seq<(Seq<char>, Seq<u8>)>) -> Option<Seq<u8>>;

/// Members of an object as plain values.
pub open spec fn member_views(members: Seq<(String, Vec<u8>)>) -> Seq<(Seq<char>, Seq<u8>)> {
    members.map_values(|m: (String, Vec<u8>)| (m.0@, m.1@))
}

/// `rmp_serde::from_slice` into a `serde_json::Value`, or nothing where the payload
/// holds no value of JSON. What it gives is named [`unpacked`]. Below the first level
/// values are kept as `Value` prints them, in compact form and so on one line,
/// together with what `Value::as_u64` and `serde_json::from_value` into a `String` say
/// of them.
#[verifier::external_body]
fn unpack(payload: &Vec<u8>) -> (out: Option<JsonNode>)
    ensures
        windows_pipe::params_view(out) == unpacked(payload@),
        out matches Some(node) ==> json::one_line_below(node@),
{
    let item = |v: &Value| JsonItem {
        text: v.to_string(),
        number: v.as_u64(),
        string: serde_json::from_value(v.clone()).map_err(|error| error.to_string()),
    };
    Some(match rmp_serde::from_slice(payload).ok()? {
        Value::Null => JsonNode::Null,
        Value::Bool(value) => JsonNode::Bool(value),
        Value::Number(value) => JsonNode::Number(value.as_u64()),
        Value::String(value) => JsonNode::Text(value),
        Value::Array(items) => JsonNode::Array(items.iter().map(item).collect()),
        Value::Object(m) => JsonNode::Object(m.iter().map(|(k, v)| (k.clone(), item(v))).collect()),
    })
}

/// Whether the UTF-8 form of a text has a length that four bytes can hold, however its
/// characters are encoded.
pub open spec fn short_text(text: Seq<char>) -> bool {
    text.len() * 4 <= u32::MAX
}

/// An integer as JSON.
pub open spec fn integer_form(value: i64) -> JsonForm {
    JsonForm::Number(
        if value >= 0 {
            Some(value as u64)
        } else {
            None
        },
    )
}

/// Whether `payload`, as what is written for a JSON text, is there and reads back where
/// the text is a JSON string, as long as its length fits, or a decimal integer.
pub open spec fn scalars_read_back(text: Seq<char>, payload: Option<Seq<u8>>) -> bool {
    &&& forall|value: Seq<char>| #[trigger]
        json::json_quoted(value) == text ==> payload is Some && (short_text(text) ==> unpacked(
            payload->0,
        ) == Some(JsonForm::Text(value)))
    &&& forall|value: i64| #[trigger]
        text::signed_decimal(value as int) == text ==> payload is Some && unpacked(payload->0)
            == Some(integer_form(value))
}

/// Whether a few short keys lead to values that are neither arrays nor objects.
pub open spec fn flat_members(members: Seq<(Seq<char>, Seq<u8>)>) -> bool {
    &&& members.len() <= u32::MAX
    &&& forall|i: int|
        0 <= i < members.len() ==> short_text((#[trigger] members[i]).0) && (unpacked(
            members[i].1,
        ) matches Some(form) && !json::is_structure(form))
}

/// `rmp_serde::to_vec` of the `serde_json::Value` that a JSON text holds, or nothing
/// where it holds none. What it gives is named [`packed`]. A JSON string and a decimal
/// integer are such texts, and `rmp_serde::from_slice` reads their value back from what
/// is written, a string as long as its length fits.
#[verifier::external_body]
fn pack(text: &str) -> (out: Option<Vec<u8>>)
    ensures
        bytes_view(out) == packed(text@),
        out is Some <==> json::json_form(text@) is Some,
        scalars_read_back(text@, bytes_view(out)),
{
    rmp_serde::to_vec(&serde_json::from_str::<Value>(text).ok()?).ok()
}

/// `Value::get` on what `rmp_serde::from_slice` reads from a payload, and
/// `rmp_serde::to_vec` of what it finds, or nothing where the payload holds no object
/// with such a member. What it gives is named [`packed_member`], and
/// `rmp_serde::from_slice` reads it again.
#[verifier::external_body]
fn pack_member(payload: &Vec<u8>, key: &str) -> (out: Option<Vec<u8>>)
    ensures
        bytes_view(out) == packed_member(payload@, key@),
        out is Some <==> (unpacked(payload@) matches Some(JsonForm::Object(members))
            && json::member(members, key@) is Some),
        out matches Some(member) ==> unpacked(member@) is Some,
{
    rmp_serde::to_vec(rmp_serde::from_slice::<Value>(payload).ok()?.get(key)?).ok()
}

/// `rmp_serde::to_vec` of the `serde_json::Map` with some members, each value read
/// from MessagePack by `rmp_serde::from_slice`, or nothing where one of them is no
/// value of JSON. What it gives is named [`packed_object`]. `rmp_serde::from_slice`
/// reads an object of flat values again; of deeper ones nothing is said, because its
/// depth is limited.
#[verifier::external_body]
fn pack_object(members: &Vec<(String, Vec<u8>)>) -> (out: Option<Vec<u8>>)
    ensures
        bytes_view(out) == packed_object(member_views(members@)),
        out is Some <==> forall|i: int|
            0 <= i < members@.len() ==> unpacked((#[trigger] members@[i]).1@) is Some,
        out matches Some(object) ==> (flat_members(member_views(members@)) ==> unpacked(
            object@,
        ) is Some),
{
    let object: Option<serde_json::Map<String, Value>> =
        members.iter().map(|(k, v)| Some((k.clone(), rmp_serde::from_slice(v).ok()?))).collect();
    rmp_serde::to_vec(&object?).ok()
}

/// What a listener does about a binary message.
#[derive(Debug)]
pub enum FrameAction {
    /// Pass the event on and then, where there is a reply, write its bytes.
    Emit {
        /// What the client asked for.
        event: PipeEvent,
        /// What the client is told, as a frame.
        reply: Option<Vec<u8>>,
    },
    /// Write the bytes of the reply.
    Reply(Vec<u8>),
    /// Complain on the error output.
    Complain(String),
    /// Do nothing.
    Ignore,
    /// Pass the event on and stop listening.
    Finish(PipeEvent),
}

/// What a listener does about a binary message, as plain values.
pub enum FrameActionView {
    /// Pass the event on, then write the reply.
    Emit {
        /// What the client asked for.
        event: EventView,
        /// What the client is told.
        reply: Option<Seq<u8>>,
    },
    /// Write the reply.
    Reply(Seq<u8>),
    /// Complain.
    Complain(Seq<char>),
    /// Do nothing.
    Ignore,
    /// Pass the event on and stop.
    Finish(EventView),
}

/// Optional bytes as plain values.
pub open spec fn bytes_view(bytes: Option<Vec<u8>>) -> Option<Seq<u8>> {
    match bytes {
        Some(bytes) => Some(bytes@),
        None => None,
    }
}

impl View for FrameAction {
    type V = FrameActionView;

    open spec fn view(&self) -> FrameActionView {
        match self {
            FrameAction::Emit { event, reply } => FrameActionView::Emit {
                event: event@,
                reply: bytes_view(*reply),
            },
            FrameAction::Reply(reply) => FrameActionView::Reply(reply@),
            FrameAction::Complain(message) => FrameActionView::Complain(message@),
            FrameAction::Ignore => FrameActionView::Ignore,
            FrameAction::Finish(event) => FrameActionView::Finish(event@),
        }
    }
}

/// A reply as a frame. One that cannot be put into a frame is not sent.
pub open spec fn framed(payload: Option<Seq<u8>>) -> Option<Seq<u8>> {
    match payload {
        Some(payload) if frameable(payload) => Some(frame(payload)),
        _ => None,
    }
}

/// What a listener does about a binary message that says `outcome` as a control
/// instruction, given the payload of the reply, if there is one. Unlike a line, a
/// message that is no control instruction is not tried as a scheduler line.
pub open spec fn in_frames(
    outcome: Result<ControlView, ControlFault>,
    reply: Option<Seq<u8>>,
) -> FrameActionView {
    match outcome {
        Ok(ControlView::Event(Some(event))) => FrameActionView::Emit { event, reply: None },
        Ok(ControlView::Event(None)) => FrameActionView::Complain(
            "failed to parse MessagePack message"@,
        ),
        Ok(ControlView::JsonRpc { event, .. }) => FrameActionView::Emit {
            event,
            reply: framed(reply),
        },
        Err(ControlFault::JsonRpc { .. }) => match framed(reply) {
            Some(reply) => FrameActionView::Reply(reply),
            None => FrameActionView::Ignore,
        },
        Err(ControlFault::Other(message)) => FrameActionView::Complain(
            "failed to parse MessagePack message: "@ + message,
        ),
    }
}

/// A JSON-RPC error as MessagePack.
pub open spec fn packed_error(
    code: i64,
    message: Seq<char>,
    data: Option<Seq<char>>,
) -> Option<Seq<u8>> {
    match (packed(text::signed_decimal(code as int)), packed(json::json_quoted(message))) {
        (Some(code), Some(message)) => match data {
            None => packed_object(seq![("code"@, code), ("message"@, message)]),
            Some(data) => match packed(data) {
                Some(data) => packed_object(
                    seq![("code"@, code), ("message"@, message), ("data"@, data)],
                ),
                None => None,
            },
        },
        _ => None,
    }
}

/// A reply as MessagePack: its version, the `id` of the message in `payload` as it
/// came, and one more member.
pub open spec fn packed_reply(payload: Seq<u8>, key: Seq<char>, value: Option<Seq<u8>>) -> Option<
    Seq<u8>,
> {
    match (packed(json::json_quoted("2.0"@)), packed_member(payload, "id"@), value) {
        (Some(version), Some(id), Some(value)) => packed_object(
            seq![("jsonrpc"@, version), ("id"@, id), (key, value)],
        ),
        _ => None,
    }
}

/// The payload of the reply to a message that says `outcome` as a control instruction.
/// A request without an `id` gets no reply.
pub open spec fn reply_payload(
    payload: Seq<u8>,
    outcome: Result<ControlView, ControlFault>,
) -> Option<Seq<u8>> {
    match outcome {
        Ok(ControlView::JsonRpc { id: Some(_), .. }) => packed_reply(
            payload,
            "result"@,
            packed(json::json_quoted("ok"@)),
        ),
        Err(ControlFault::JsonRpc { code, message, data, id: Some(_) }) => packed_reply(
            payload,
            "error"@,
            packed_error(code, message, data),
        ),
        _ => None,
    }
}

/// What a listener does about a binary message, given what its payload says as JSON.
pub open spec fn frame_forwarded(payload: Seq<u8>, form: Option<JsonForm>) -> FrameActionView {
    match form {
        None => FrameActionView::Complain("failed to parse MessagePack message"@),
        Some(_) => {
            let outcome = windows_pipe::control(Seq::empty(), form);
            in_frames(outcome, reply_payload(payload, outcome))
        },
    }
}

/// A payload as a frame, if there is one and it fits.
fn enframe(payload: Option<Vec<u8>>) -> (out: Option<Vec<u8>>)
    ensures
        bytes_view(out) == framed(bytes_view(payload)),
{
    match payload {
        Some(payload) => encode_frame(&payload),
        None => None,
    }
}

/// Decides what to do about a binary message that was read as a control instruction,
/// given the payload of the reply, if there is one.
pub fn answer_in_frames(
    outcome: Result<ControlParseResult, ControlParseError>,
    reply: Option<Vec<u8>>,
) -> (out: FrameAction)
    ensures
        out@ == in_frames(windows_pipe::outcome(outcome), bytes_view(reply)),
{
    match outcome {
        Ok(ControlParseResult::Event(Some(event))) => FrameAction::Emit { event, reply: None },
        Ok(ControlParseResult::Event(None)) => FrameAction::Complain(
            "failed to parse MessagePack message".to_owned(),
        ),
        Ok(ControlParseResult::JsonRpc { id: _, event }) => FrameAction::Emit {
            event,
            reply: enframe(reply),
        },
        Err(ControlParseError::JsonRpc(_, _)) => match enframe(reply) {
            Some(reply) => FrameAction::Reply(reply),
            None => FrameAction::Ignore,
        },
        Err(ControlParseError::Other(message)) => FrameAction::Complain(
            "failed to parse MessagePack message: ".to_owned().concat(message.as_str()),
        ),
    }
}

/// A JSON-RPC error as MessagePack.
fn pack_error(detail: &JsonRpcErrorDetail) -> (out: Option<Vec<u8>>)
    ensures
        bytes_view(out) == packed_error(
            detail.code,
            detail.message@,
            windows_pipe::text_view(detail.data),
        ),
        detail.data is None && short_text(json::json_quoted(detail.message@)) ==> (out matches Some(
            error,
        ) && unpacked(error@) is Some),
{
    let code = pack(text::signed_decimal_text(detail.code).as_str())?;
    let message = pack(json::quote_json(detail.message.as_str()).as_str())?;
    proof {
        reveal_strlit("code");
        reveal_strlit("message");
    }
    let mut members: Vec<(String, Vec<u8>)> = Vec::new();
    members.push(("code".to_owned(), code));
    members.push(("message".to_owned(), message));
    assert(member_views(members@) =~= seq![("code"@, code@), ("message"@, message@)]);
    if let Some(data) = &detail.data {
        let data = pack(data.as_str())?;
        members.push(("data".to_owned(), data));
        assert(member_views(members@) =~= seq![
            ("code"@, code@),
            ("message"@, message@),
            ("data"@, data@),
        ]);
    }
    pack_object(&members)
}

/// A reply as MessagePack: its version, the `id` of the message in `payload` as it
/// came, and one more member.
fn pack_reply(payload: &Vec<u8>, key: &str, value: Vec<u8>) -> (out: Option<Vec<u8>>)
    ensures
        bytes_view(out) == packed_reply(payload@, key@, Some(value@)),
        unpacked(value@) is Some && (unpacked(payload@) matches Some(JsonForm::Object(members))
            && json::member(members, "id"@) is Some) ==> out is Some,
{
    proof {
        lemma_short_word("2.0"@);
    }
    let version = pack(json::quote_json("2.0").as_str())?;
    let id = pack_member(payload, "id")?;
    let mut members: Vec<(String, Vec<u8>)> = Vec::new();
    members.push(("jsonrpc".to_owned(), version));
    members.push(("id".to_owned(), id));
    members.push((key.to_owned(), value));
    assert(member_views(members@) =~= seq![
        ("jsonrpc"@, version@),
        ("id"@, id@),
        (key@, value@),
    ]);
    pack_object(&members)
}

proof fn lemma_short_word(word: Seq<char>)
    requires
        word == "2.0"@ || word == "ok"@,
    ensures
        short_text(json::json_quoted(word)),
{
    reveal_strlit("2.0");
    reveal_strlit("ok");
    json::plain_text_is_quoted_as_it_is(word);
}

/// The payload of the reply to a message that was read as a control instruction.
fn pack_answer(
    payload: &Vec<u8>,
    outcome: &Result<ControlParseResult, ControlParseError>,
) -> (out: Option<Vec<u8>>)
    ensures
        bytes_view(out) == reply_payload(payload@, windows_pipe::outcome(*outcome)),
        has_id(windows_pipe::outcome(*outcome)) && answerable(windows_pipe::outcome(*outcome)) && (
        unpacked(payload@) matches Some(JsonForm::Object(members)) && json::member(
            members,
            "id"@,
        ) is Some) ==> out is Some,
{
    match outcome {
        Ok(ControlParseResult::JsonRpc { id: Some(_), event: _ }) => {
            proof {
                lemma_short_word("ok"@);
            }
            let result = pack(json::quote_json("ok").as_str())?;
            pack_reply(payload, "result", result)
        },
        Err(ControlParseError::JsonRpc(detail, Some(_))) => {
            let error = pack_error(detail)?;
            pack_reply(payload, "error", error)
        },
        _ => None,
    }
}

/// Whether an outcome is that of a request with an `id`.
pub open spec fn has_id(outcome: Result<ControlView, ControlFault>) -> bool {
    match outcome {
        Ok(ControlView::JsonRpc { id, .. }) => id is Some,
        Err(ControlFault::JsonRpc { id, .. }) => id is Some,
        _ => false,
    }
}

/// Whether what a reply has to say of an outcome fits into MessagePack: an error has no
/// further data, and its message is not too long.
pub open spec fn answerable(outcome: Result<ControlView, ControlFault>) -> bool {
    match outcome {
        Err(ControlFault::JsonRpc { message, data, .. }) => data is None && short_text(
            json::json_quoted(message),
        ),
        _ => true,
    }
}

/// Whether an action answers the client.
pub open spec fn frame_answers(action: FrameActionView) -> bool {
    match action {
        FrameActionView::Emit { reply, .. } => reply is Some,
        FrameActionView::Reply(_) => true,
        _ => false,
    }
}

/// The members of a message that is a JSON-RPC request, well formed or not: an object
/// with a `jsonrpc` member.
pub open spec fn request_members(form: Option<JsonForm>) -> Option<
    Seq<(Seq<char>, json::ItemForm)>,
> {
    match form {
        Some(JsonForm::Object(members)) if json::member(members, "jsonrpc"@) is Some => Some(
            members,
        ),
        _ => None,
    }
}

/// Whether the reply to a message, if there is one, has a length that four bytes can
/// hold, and so has the message of its error.
pub open spec fn reply_fits(payload: Seq<u8>) -> bool {
    let outcome = windows_pipe::control(Seq::empty(), unpacked(payload));
    &&& outcome matches Err(ControlFault::JsonRpc { message, .. }) ==> short_text(
        json::json_quoted(message),
    )
    &&& reply_payload(payload, outcome) matches Some(reply) ==> frameable(reply)
}

/// Decides what to do about a binary message, given its payload.
///
/// A JSON-RPC request is answered exactly when it has an `id`, unless the reply would
/// be too long for a frame.
pub fn forward_payload(payload: &Vec<u8>) -> (out: FrameAction)
    ensures
        out@ == frame_forwarded(payload@, unpacked(payload@)),
        request_members(unpacked(payload@)) matches Some(members) ==> (reply_fits(payload@) ==> (
        frame_answers(out@) <==> windows_pipe::message_id(members) is Some)),
{
    let node = unpack(payload);
    if node.is_none() {
        return FrameAction::Complain("failed to parse MessagePack message".to_owned());
    }
    proof {
        reveal_strlit("");
        assert(""@ =~= Seq::<char>::empty());
        if let Some(members) = request_members(unpacked(payload@)) {
            let version = json::member(members, "jsonrpc"@)->0;
            windows_pipe::jsonrpc_keeps_the_id(version, members);
            windows_pipe::jsonrpc_errors_have_no_data(version, members);
        }
    }
    let outcome = interpret_control("", &node);
    let reply = pack_answer(payload, &outcome);
    answer_in_frames(outcome, reply)
}

/// Decides what to do about what was read from a client: the payload of one message,
/// or `None` at the end of its input.
pub fn forward_message(read: Option<&Vec<u8>>) -> (out: FrameAction)
    ensures
        match read {
            Some(payload) => out@ == frame_forwarded(payload@, unpacked(payload@)),
            None => out@ == FrameActionView::Finish(EventView::Disconnected),
        },
        read matches Some(payload) ==> (request_members(unpacked(payload@)) matches Some(members)
            ==> (reply_fits(payload@) ==> (frame_answers(out@) <==> windows_pipe::message_id(
            members,
        ) is Some))),
{
    match read {
        Some(payload) => forward_payload(payload),
        None => FrameAction::Finish(PipeEvent::Disconnected),
    }
}

// ---------------------------------------------------------------------------
// Laws
// ---------------------------------------------------------------------------

/// Behind a frame anything may follow: the frame's payload reads back.
pub proof fn frames_read_back(payload: Seq<u8>, rest: Seq<u8>)
    requires
        frameable(payload),
    ensures
        leading_payload(frame(payload) + rest) == Some(payload),
        (frame(payload) + rest).skip(4 + payload.len() as int) == rest,
{
    let bytes = frame(payload) + rest;
    let n = payload.len();
    assert(bytes.take(4) == length_prefix(n));
    assert(n == n % 256 + (n / 0x100 % 256) * 0x100 + (n / 0x1_0000 % 256) * 0x1_0000 + (n
        / 0x100_0000 % 256) * 0x100_0000);
    assert(prefix_value(bytes) == n);
    assert(bytes.subrange(4, 4 + n as int) == payload);
}

/// A frame of which the end is missing is not taken for a frame.
pub proof fn cut_frames_are_not_taken(payload: Seq<u8>, length: int)
    requires
        frameable(payload),
        0 <= length < frame(payload).len(),
    ensures
        leading_payload(frame(payload).take(length)) is None,
{
    frames_read_back(payload, Seq::empty());
    assert(frame(payload) + Seq::<u8>::empty() == frame(payload));
    let part = frame(payload).take(length);
    if length >= 4 {
        assert(part.take(4) == frame(payload).take(4));
        assert(prefix_value(part) == prefix_value(frame(payload)));
    }
}

/// The prefix of a frame is its payload's length in four bytes, the least significant
/// first, and the payload stands behind it as it is.
pub proof fn prefixes_are_little_endian(payload: Seq<u8>, bytes: Seq<u8>)
    requires
        frameable(payload),
    ensures
        frame(payload).len() == 4 + payload.len(),
        frame(payload).skip(4) == payload,
        frame(payload)[0] + 256 * (frame(payload)[1] + 256 * (frame(payload)[2] + 256 * frame(
            payload,
        )[3])) == payload.len(),
        bytes.len() >= 4 ==> prefix_value(bytes) == bytes[0] + 256 * (bytes[1] + 256 * (bytes[2]
            + 256 * bytes[3])),
        frameable(payload) <==> payload.len() < 0x1_0000_0000,
{
    let n = payload.len();
    assert(n == n % 256 + (n / 0x100 % 256) * 0x100 + (n / 0x1_0000 % 256) * 0x1_0000 + (n
        / 0x100_0000 % 256) * 0x100_0000);
    assert(frame(payload).skip(4) =~= payload);
    assert(frame(payload).take(4) =~= length_prefix(n));
}

/// Bytes lead with a payload exactly when all the bytes are there that their first four
/// promise.
pub proof fn payloads_are_taken_whole(prefix: Seq<u8>, payload: Seq<u8>, rest: Seq<u8>)
    requires
        prefix.len() == 4,
    ensures
        prefix[0] + 256 * (prefix[1] + 256 * (prefix[2] + 256 * prefix[3])) == payload.len()
            ==> leading_payload(prefix + payload + rest) == Some(payload),
        prefix[0] + 256 * (prefix[1] + 256 * (prefix[2] + 256 * prefix[3])) > payload.len()
            ==> leading_payload(prefix + payload) is None,
        rest.len() < 4 ==> leading_payload(rest) is None,
{
    let all = prefix + payload + rest;
    let part = prefix + payload;
    assert(all.take(4) =~= prefix);
    assert(all[0] == prefix[0] && all[1] == prefix[1] && all[2] == prefix[2] && all[3]
        == prefix[3]);
    assert(part[0] == prefix[0] && part[1] == prefix[1] && part[2] == prefix[2] && part[3]
        == prefix[3]);
    assert(all.subrange(4, 4 + payload.len() as int) =~= payload);
}

/// A binary message asks for what the same message asks for as a line: the same event is
/// passed on, and what is no event there is none here. What a line would be as a scheduler
/// line is not tried.
pub proof fn frames_ask_for_what_lines_ask_for(line: Seq<char>, payload: Seq<u8>, form: JsonForm)
    requires
        windows_pipe::rpc_version(Some(form)) is Some,
    ensures
        windows_pipe::control(line, Some(form)) == windows_pipe::control(
            Seq::empty(),
            Some(form),
        ),
        match crate::forward::forwarded(line, windows_pipe::control(line, Some(form))) {
            crate::forward::ForwardView::Emit { event, reply } => frame_forwarded(
                payload,
                Some(form),
            ) matches FrameActionView::Emit { event: passed_on, reply: answer } && passed_on
                == event && (reply is None ==> answer is None),
            crate::forward::ForwardView::Ignore => frame_forwarded(payload, Some(form))
                == FrameActionView::Ignore,
            _ => !(frame_forwarded(payload, Some(form)) is Emit) && !(frame_forwarded(
                payload,
                Some(form),
            ) is Complain),
        },
{
}

/// What becomes of a binary message by what it says: an event is passed on, with the reply
/// in a frame where a request has one, an error is answered in a frame, and anything else
/// is complained about.
pub proof fn answers_go_in_frames(
    event: EventView,
    id: Option<Seq<char>>,
    code: i64,
    message: Seq<char>,
    data: Option<Seq<char>>,
    reply: Seq<u8>,
)
    requires
        reply.len() <= u32::MAX,
    ensures
        in_frames(Ok(ControlView::Event(Some(event))), Some(reply)) == (FrameActionView::Emit {
            event,
            reply: None,
        }),
        in_frames(Ok(ControlView::JsonRpc { id, event }), Some(reply)) == (FrameActionView::Emit {
            event,
            reply: Some(frame(reply)),
        }),
        in_frames(Ok(ControlView::JsonRpc { id, event }), None) == (FrameActionView::Emit {
            event,
            reply: None,
        }),
        in_frames(Err(ControlFault::JsonRpc { code, message, data, id }), Some(reply))
            == FrameActionView::Reply(frame(reply)),
        in_frames(Err(ControlFault::JsonRpc { code, message, data, id }), None)
            == FrameActionView::Ignore,
        in_frames(Ok(ControlView::Event(None)), Some(reply)) == FrameActionView::Complain(
            "failed to parse MessagePack message"@,
        ),
        in_frames(Err(ControlFault::Other(message)), Some(reply)) == FrameActionView::Complain(
            "failed to parse MessagePack message"@ + seq![':', ' '] + message,
        ),
        frame_forwarded(reply, None) == FrameActionView::Complain(
            "failed to parse MessagePack message"@,
        ),
{
    reveal_strlit("failed to parse MessagePack message");
    reveal_strlit("failed to parse MessagePack message: ");
    assert("failed to parse MessagePack message: "@ =~= "failed to parse MessagePack message"@
        + seq![':', ' ']);
}

/// A reply that is too long for a frame is not sent.
pub proof fn long_replies_are_not_sent(reply: Seq<u8>)
    ensures
        framed(Some(reply)) is Some <==> reply.len() <= u32::MAX,
        framed(None) is None,
{
}

/// The reply to a message is an object with the version, the `id` of the message as it
/// came and its result or its error. An error has its code, its message and, where there
/// is any, its data. There is none without an `id`.
pub proof fn replies_echo_the_id(
    payload: Seq<u8>,
    event: EventView,
    code: i64,
    message: Seq<char>,
    text: Seq<char>,
    version: Seq<u8>,
    id: Seq<u8>,
    ok: Seq<u8>,
    number: Seq<u8>,
    said: Seq<u8>,
    more: Seq<u8>,
    error: Seq<u8>,
    any: Seq<char>,
)
    ensures
        packed(json::json_quoted("2.0"@)) == Some(version) && packed_member(payload, "id"@) == Some(
            id,
        ) && packed(json::json_quoted("ok"@)) == Some(ok) ==> reply_payload(
            payload,
            Ok(ControlView::JsonRpc { id: Some(any), event }),
        ) == packed_object(seq![("jsonrpc"@, version), ("id"@, id), ("result"@, ok)]),
        ({
            &&& packed(json::json_quoted("2.0"@)) == Some(version)
            &&& packed_member(payload, "id"@) == Some(id)
            &&& packed(text::signed_decimal(code as int)) == Some(number)
            &&& packed(json::json_quoted(message)) == Some(said)
        }) ==> {
            &&& packed_object(seq![("code"@, number), ("message"@, said)]) == Some(error)
                ==> reply_payload(
                payload,
                Err(ControlFault::JsonRpc { code, message, data: None, id: Some(any) }),
            ) == packed_object(seq![("jsonrpc"@, version), ("id"@, id), ("error"@, error)])
            &&& packed(text) == Some(more) && packed_object(
                seq![("code"@, number), ("message"@, said), ("data"@, more)],
            ) == Some(error) ==> reply_payload(
                payload,
                Err(ControlFault::JsonRpc { code, message, data: Some(text), id: Some(any) }),
            ) == packed_object(seq![("jsonrpc"@, version), ("id"@, id), ("error"@, error)])
        },
        reply_payload(payload, Ok(ControlView::JsonRpc { id: None, event })) is None,
        reply_payload(
            payload,
            Err(ControlFault::JsonRpc { code, message, data: Some(text), id: None }),
        ) is None,
        reply_payload(payload, Ok(ControlView::Event(Some(event)))) is None,
        reply_payload(payload, Err(ControlFault::Other(message))) is None,
{
}

/// An action says what it holds.
pub proof fn actions_say_what_they_hold(event: PipeEvent, reply: Vec<u8>, message: String)
    ensures
        (FrameAction::Emit { event, reply: None })@ == (FrameActionView::Emit {
            event: event@,
            reply: None,
        }),
        (FrameAction::Emit { event, reply: Some(reply) })@ == (FrameActionView::Emit {
            event: event@,
            reply: Some(reply@),
        }),
        FrameAction::Reply(reply)@ == FrameActionView::Reply(reply@),
        FrameAction::Complain(message)@ == FrameActionView::Complain(message@),
        FrameAction::Ignore@ == FrameActionView::Ignore,
        FrameAction::Finish(event)@ == FrameActionView::Finish(event@),
{
}

}
