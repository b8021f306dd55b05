//! Typed command payloads carried by the scheduler and the dispatcher.

use vstd::prelude::*;

verus! {

/// The payload of a scheduled command.
#[derive(Debug, PartialEq, Eq, PartialOrd, Ord, Hash)]
pub enum CommandPayload {
    /// Plain text, for commands without a typed form of their own.
    Raw(String),
}

impl View for CommandPayload {
    type V = Seq<char>;

    /// The text of the command.
    open spec fn view(&self) -> Seq<char> {
        match self {
            CommandPayload::Raw(value) => value@,
        }
    }
}

/// `String::from` copies a string slice into a string of its own.
pub assume_specification<'a>[ <String as From<&'a str>>::from ](value: &str) -> (out: String)
    ensures
        out@ == value@,
;

impl CommandPayload {
    /// A payload of plain text.
    pub fn raw<S: Into<String>>(value: S) -> (payload: Self)
        ensures
            payload matches CommandPayload::Raw(text) && call_ensures(S::into, (value,), text),
    {
        CommandPayload::Raw(value.into())
    }

    /// The text of the payload.
    pub fn as_str(&self) -> (text: &str)
        ensures
            text@ == self@,
    {
        match self {
            CommandPayload::Raw(value) => value.as_str(),
        }
    }

    /// The payload as it is printed: its text.
    pub fn to_string(&self) -> (text: String)
        ensures
            text@ == self@,
    {
        self.as_str().to_owned()
    }
}

impl Clone for CommandPayload {
    fn clone(&self) -> (copy: Self)
        ensures
            copy@ == self@,
    {
        match self {
            CommandPayload::Raw(value) => CommandPayload::Raw(value.clone()),
        }
    }
}

impl From<String> for CommandPayload {
    fn from(value: String) -> (payload: Self)
        ensures
            payload@ == value@,
    {
        CommandPayload::Raw(value)
    }
}

impl vstd::std_specs::convert::FromSpecImpl<String> for CommandPayload {
    open spec fn obeys_from_spec() -> bool {
        true
    }

    open spec fn from_spec(value: String) -> CommandPayload {
        CommandPayload::Raw(value)
    }
}

impl<'a> From<&'a str> for CommandPayload {
    fn from(value: &'a str) -> (payload: Self)
        ensures
            payload@ == value@,
    {
        CommandPayload::Raw(value.to_owned())
    }
}

impl<'a> vstd::std_specs::convert::FromSpecImpl<&'a str> for CommandPayload {
    open spec fn obeys_from_spec() -> bool {
        false
    }

    open spec fn from_spec(value: &'a str) -> CommandPayload {
        arbitrary()
    }
}

}
