//! Messages in frames: what the server sends, and what it reads.

use crate::error::ChatError;
use crate::frame::{
    client_frame, decode_frame_payload, encode_text_frame, frame_complete, frame_payload,
    lemma_client_frame_round_trip, lemma_frame_ends_where_it_says, lemma_server_frame_payload,
    server_frame, unmasked_complete, unmasked_payload,
};
use crate::message::{
    lemma_wire_text_is_read_back, message_of_text, wire_text, MessageView, WebSocketMessage,
};
use crate::outside::utf8_text;
use vstd::prelude::*;
use vstd::utf8::*;

verus! {

/// The text in the payload of the masked frame that starts `data`: the
/// frame has to be whole and its payload UTF-8.
pub open spec fn frame_text(data: Seq<u8>) -> Result<Seq<char>, ChatError> {
    if !frame_complete(data) {
        Err(ChatError::FrameIncomplete)
    } else if !valid_utf8(frame_payload(data)) {
        Err(ChatError::FrameMalformed)
    } else {
        Ok(decode_utf8(frame_payload(data)))
    }
}

/// The message in the masked frame that starts `data`.
pub open spec fn frame_message(data: Seq<u8>) -> Result<MessageView, ChatError> {
    match frame_text(data) {
        Ok(text) => match message_of_text(text) {
            Some(message) => Ok(message),
            None => Err(ChatError::FrameMalformed),
        },
        Err(e) => Err(e),
    }
}

/// The frame by which the server sends `message`: its wire text, in UTF-8,
/// as the payload of one unmasked text frame.
pub fn generate_websocket_response(message: WebSocketMessage) -> (frame: Vec<u8>)
    ensures
        frame@ == server_frame(encode_utf8(wire_text(message@))),
{
    let text = message.to_wire_text();
    encode_text_frame(text.as_str().as_bytes())
}

/// Unmasks the frame that starts `data` and reads its payload as text.
pub fn decode_frame_text(data: &[u8]) -> (text: Result<String, ChatError>)
    ensures
        match text {
            Ok(text) => frame_text(data@) == Ok::<Seq<char>, ChatError>(text@),
            Err(e) => frame_text(data@) == Err::<Seq<char>, ChatError>(e),
        },
{
    let payload = decode_frame_payload(data)?;
    match utf8_text(payload) {
        Some(text) => {
            proof {
                encode_utf8_decode_utf8(text@);
            }
            Ok(text)
        },
        None => Err(ChatError::FrameMalformed),
    }
}

/// Reads the message that a client sent in the masked frame that starts
/// `data`.
///
/// `FrameIncomplete` where the buffer ends before the frame does;
/// `FrameMalformed` where the payload is not UTF-8 or its text is not a JSON
/// object with the string members `action` and `data`.
pub fn decode_websocket_message(data: &[u8]) -> (message: Result<WebSocketMessage, ChatError>)
    ensures
        match message {
            Ok(m) => frame_message(data@) == Ok::<MessageView, ChatError>(m@),
            Err(e) => frame_message(data@) == Err::<MessageView, ChatError>(e),
        },
{
    let text = decode_frame_text(data)?;
    WebSocketMessage::from_wire_text(text.as_str())
}

/// The frame that the server makes of a message is whole, and its payload
/// is text that reads as that message.
pub proof fn lemma_response_carries_message(message: MessageView)
    requires
        encode_utf8(wire_text(message)).len() <= u64::MAX,
    ensures
        unmasked_complete(server_frame(encode_utf8(wire_text(message)))),
        valid_utf8(unmasked_payload(server_frame(encode_utf8(wire_text(message))))),
        message_of_text(
            decode_utf8(unmasked_payload(server_frame(encode_utf8(wire_text(message))))),
        ) == Some(message),
{
    lemma_server_frame_payload(encode_utf8(wire_text(message)));
    encode_utf8_valid_utf8(wire_text(message));
    encode_utf8_decode_utf8(wire_text(message));
    lemma_wire_text_is_read_back(message);
}

/// A message that the server framed and a client sends back masked, under
/// any key, is decoded as the message it was: the decoder reads the wire
/// text that was written, and from it both fields as they were. What
/// follows the frame in the buffer changes nothing.
pub proof fn lemma_message_round_trip(message: MessageView, key: Seq<u8>, behind: Seq<u8>)
    requires
        key.len() == 4,
        encode_utf8(wire_text(message)).len() <= u64::MAX,
    ensures
        frame_text(
            client_frame(unmasked_payload(server_frame(encode_utf8(wire_text(message)))), key)
                + behind,
        ) == Ok::<Seq<char>, ChatError>(wire_text(message)),
        frame_message(
            client_frame(unmasked_payload(server_frame(encode_utf8(wire_text(message)))), key)
                + behind,
        ) == Ok::<MessageView, ChatError>(message),
{
    let payload = encode_utf8(wire_text(message));
    lemma_server_frame_payload(payload);
    lemma_client_frame_round_trip(payload, key);
    lemma_frame_ends_where_it_says(client_frame(payload, key), behind);
    encode_utf8_valid_utf8(wire_text(message));
    encode_utf8_decode_utf8(wire_text(message));
    lemma_wire_text_is_read_back(message);
}

} // verus!
