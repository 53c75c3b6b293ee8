//! The application message carried in the payload of a text frame.
//!
//! On the wire a message is the JSON text `{"action": "..", "data": ".."}`.
//! The server writes that text itself, each field escaped as a JSON string;
//! what a client sends is read as JSON.

use crate::error::ChatError;
use crate::escape::{escaped, lemma_read_string_of_escaped, push_escaped_text, read_string};
use crate::outside::{json_member, json_string_member};
use vstd::prelude::*;

verus! {

/// One unit of application traffic: an action tag and its string payload.
#[derive(Clone, Debug, PartialEq, Eq)]
pub struct WebSocketMessage {
    /// What is asked for: `join`, `message` or `username`.
    pub action: String,
    /// What the action is about.
    pub data: String,
}

/// What a message is to the contracts: its two texts.
pub struct MessageView {
    pub action: Seq<char>,
    pub data: Seq<char>,
}

impl View for WebSocketMessage {
    type V = MessageView;

    open spec fn view(&self) -> MessageView {
        MessageView { action: self.action@, data: self.data@ }
    }
}

/// The text that carries `message` on the wire: a JSON object with the two
/// fields as its string members.
pub open spec fn wire_text(message: MessageView) -> Seq<char> {
    "{\"action\": \""@ + escaped(message.action) + "\", \"data\": \""@ + escaped(message.data)
        + "\"}"@
}

/// True when `text` is the wire text of a message.
pub open spec fn is_wire_text(text: Seq<char>) -> bool {
    exists|message: MessageView| text == #[trigger] wire_text(message)
}

/// The message of which `text` is the wire text.
pub open spec fn written_message(text: Seq<char>) -> MessageView
    recommends
        is_wire_text(text),
{
    choose|message: MessageView| text == #[trigger] wire_text(message)
}

/// The text that shows `message` to a reader.
pub open spec fn display_text(message: MessageView) -> Seq<char> {
    "WebSocketMessage { action: "@ + message.action + ", data: "@ + message.data + " }"@
}

/// The message made of two string members read from a JSON object, where
/// both are there.
pub open spec fn message_of_members(
    action: Option<Seq<char>>,
    data: Option<Seq<char>>,
) -> Option<MessageView> {
    match (action, data) {
        (Some(action), Some(data)) => Some(MessageView { action, data }),
        _ => None,
    }
}

/// The message that `text` holds: the string members `action` and `data` of
/// the JSON object that `text` spells.
pub open spec fn message_of_text(text: Seq<char>) -> Option<MessageView> {
    message_of_members(json_member(text, "action"@), json_member(text, "data"@))
}

impl WebSocketMessage {
    /// The message with the action tag `action` and the payload `data`.
    pub fn new(action: String, data: String) -> (message: WebSocketMessage)
        ensures
            message.action == action,
            message.data == data,
    {
        WebSocketMessage { action, data }
    }

    /// The text that carries this message on the wire.
    pub fn to_wire_text(&self) -> (text: String)
        ensures
            text@ == wire_text(self@),
    {
        let mut text = String::from_str("{\"action\": \"");
        push_escaped_text(&mut text, self.action.as_str());
        text.append("\", \"data\": \"");
        push_escaped_text(&mut text, self.data.as_str());
        text.append("\"}");
        text
    }

    /// This message as a reader sees it in a log.
    pub fn to_display_string(&self) -> (text: String)
        ensures
            text@ == display_text(self@),
    {
        let text = String::from_str("WebSocketMessage { action: ");
        let text = text.concat(self.action.as_str());
        let text = text.concat(", data: ");
        let text = text.concat(self.data.as_str());
        text.concat(" }")
    }

    /// The message made of the members `action` and `data` of a JSON object,
    /// each given where the object holds it as a string. A missing member
    /// makes the frame malformed.
    pub fn from_members(action: Option<String>, data: Option<String>) -> (message: Result<
        WebSocketMessage,
        ChatError,
    >)
        ensures
            message is Ok <==> action is Some && data is Some,
            message matches Ok(m) ==> Some(m.action) == action && Some(m.data) == data,
            message matches Err(e) ==> e == ChatError::FrameMalformed,
    {
        match (action, data) {
            (Some(action), Some(data)) => Ok(WebSocketMessage { action, data }),
            _ => Err(ChatError::FrameMalformed),
        }
    }

    /// Reads a message from the text of a payload.
    ///
    /// The text has to be a JSON object with the string members `action` and
    /// `data`; other members are passed over. Anything else is refused as
    /// `FrameMalformed`.
    pub fn from_wire_text(text: &str) -> (message: Result<WebSocketMessage, ChatError>)
        ensures
            message is Ok <==> message_of_text(text@) is Some,
            message matches Ok(m) ==> message_of_text(text@) == Some(m@),
            message matches Err(e) ==> e == ChatError::FrameMalformed,
    {
        let action = json_string_member(text, "action");
        let data = json_string_member(text, "data");
        WebSocketMessage::from_members(action, data)
    }
}

/// The two fields read back from a wire text.
spec fn read_wire_text(text: Seq<char>) -> MessageView {
    let first = read_string(text.skip(12));
    let second = read_string(first.1.skip(11));
    MessageView { action: first.0, data: second.0 }
}

proof fn lemma_read_wire_text(message: MessageView)
    ensures
        read_wire_text(wire_text(message)) == message,
{
    reveal_strlit("{\"action\": \"");
    reveal_strlit("\", \"data\": \"");
    reveal_strlit("\"}");
    let text = wire_text(message);
    let middle = "\", \"data\": \""@;
    let behind_data = "\"}"@.skip(1);
    let behind_action = middle.skip(1) + escaped(message.data) + "\"}"@;
    assert(text.skip(12) =~= escaped(message.action) + seq!['"'] + behind_action);
    lemma_read_string_of_escaped(message.action, behind_action);
    assert(behind_action.skip(11) =~= escaped(message.data) + seq!['"'] + behind_data);
    lemma_read_string_of_escaped(message.data, behind_data);
}

/// No two messages share a wire text.
pub proof fn lemma_wire_text_names_one_message(first: MessageView, second: MessageView)
    requires
        wire_text(first) == wire_text(second),
    ensures
        first == second,
{
    lemma_read_wire_text(first);
    lemma_read_wire_text(second);
}

/// What the server writes for a message is read as that message.
pub proof fn lemma_wire_text_is_read_back(message: MessageView)
    ensures
        message_of_text(wire_text(message)) == Some(message),
{
    reveal_strlit("action");
    reveal_strlit("data");
    assert("action"@.len() != "data"@.len());
    let text = wire_text(message);
    assert(is_wire_text(text));
    lemma_wire_text_names_one_message(written_message(text), message);
}

} // verus!
