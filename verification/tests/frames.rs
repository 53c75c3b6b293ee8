use ws_chat::codec::{decode_frame_text, decode_websocket_message, generate_websocket_response};
use ws_chat::error::ChatError;
use ws_chat::escape::push_escaped_text;
use ws_chat::frame::{
    decode_frame_payload, encode_masked_frame, encode_text_frame, frame_opcode,
    mask_as_client_frame, parse_frame_header, FrameHeader, LENGTH_16, LENGTH_64, MASK_BIT,
    OPCODE_CLOSE, SHORT_LENGTH_MAX, TEXT_FRAME,
};
use ws_chat::message::WebSocketMessage;

const KEY: [u8; 4] = [0x37, 0xfa, 0x21, 0x3d];

fn message(action: &str, data: &str) -> WebSocketMessage {
    WebSocketMessage::new(action.to_string(), data.to_string())
}

fn payload_of(length: usize) -> Vec<u8> {
    (0..length).map(|i| b'a' + (i % 26) as u8).collect()
}

fn round_trip(action: &str, data: &str) -> Result<WebSocketMessage, ChatError> {
    let frame = generate_websocket_response(message(action, data));
    let masked = mask_as_client_frame(&frame, &KEY).expect("a whole frame");
    decode_websocket_message(&masked)
}

fn printable(length: usize, seed: usize) -> String {
    (0..length).map(|i| (32 + (seed * 7 + i * 13) % 95) as u8 as char).collect()
}

#[test]
fn constants_are_those_of_the_wire_format() {
    assert_eq!(TEXT_FRAME, 0x81);
    assert_eq!(OPCODE_CLOSE, 8);
    assert_eq!(SHORT_LENGTH_MAX, 125);
    assert_eq!(LENGTH_16, 126);
    assert_eq!(LENGTH_64, 127);
    assert_eq!(MASK_BIT, 0x80);
}

#[test]
fn new_keeps_both_fields() {
    let m = WebSocketMessage::new("join".to_string(), "Anonymous has joined the chat".to_string());
    assert_eq!(m.action, "join");
    assert_eq!(m.data, "Anonymous has joined the chat");
}

#[test]
fn wire_text_is_written_field_by_field() {
    assert_eq!(
        message("message", "hello").to_wire_text(),
        "{\"action\": \"message\", \"data\": \"hello\"}"
    );
    assert_eq!(message("", "").to_wire_text(), "{\"action\": \"\", \"data\": \"\"}");
}

#[test]
fn wire_text_escapes_quote_and_backslash() {
    assert_eq!(
        message("a", "x\"y").to_wire_text(),
        "{\"action\": \"a\", \"data\": \"x\\\"y\"}"
    );
    assert_eq!(
        message("a\\", "\\n").to_wire_text(),
        "{\"action\": \"a\\\\\", \"data\": \"\\\\n\"}"
    );
}

#[test]
fn wire_text_escapes_control_characters() {
    assert_eq!(
        message("a", "\u{0}\t\n\r\u{1f}").to_wire_text(),
        "{\"action\": \"a\", \"data\": \"\\u0000\\u0009\\u000a\\u000d\\u001f\"}"
    );
}

#[test]
fn wire_text_leaves_every_other_character_as_it_is() {
    assert_eq!(
        message("a", " /~\u{7f}\u{80}é✓😀").to_wire_text(),
        "{\"action\": \"a\", \"data\": \" /~\u{7f}\u{80}é✓😀\"}"
    );
}

#[test]
fn escaped_text_is_appended() {
    let mut out = String::from("[");
    push_escaped_text(&mut out, "a\"b\\c\u{1}");
    assert_eq!(out, "[a\\\"b\\\\c\\u0001");
    push_escaped_text(&mut out, "");
    assert_eq!(out, "[a\\\"b\\\\c\\u0001");
}

#[test]
fn response_frame_of_a_message_with_a_quote() {
    let frame = generate_websocket_response(message("message", "a\"b"));
    let text = "{\"action\": \"message\", \"data\": \"a\\\"b\"}";
    assert_eq!(frame[0], 0x81);
    assert_eq!(frame[1] as usize, text.len());
    assert_eq!(&frame[2..], text.as_bytes());
    assert_eq!(
        WebSocketMessage::from_wire_text(std::str::from_utf8(&frame[2..]).expect("text")),
        Ok(message("message", "a\"b"))
    );
}

#[test]
fn display_string_names_both_fields() {
    assert_eq!(
        message("message", "hello").to_display_string(),
        "WebSocketMessage { action: message, data: hello }"
    );
}

#[test]
fn response_frame_of_a_short_message() {
    let frame = generate_websocket_response(message("message", "hello"));
    let text = "{\"action\": \"message\", \"data\": \"hello\"}";
    assert_eq!(text.len(), 38);
    let mut expected = vec![0x81u8, 38];
    expected.extend_from_slice(text.as_bytes());
    assert_eq!(frame, expected);
}

#[test]
fn response_frame_counts_bytes_not_characters() {
    let frame = generate_websocket_response(message("message", "é"));
    assert_eq!(frame[1], 26 + 7 + 2);
    assert_eq!(frame.len(), 2 + 26 + 7 + 2);
    assert_eq!(&frame[frame.len() - 4..], &[0xc3, 0xa9, b'"', b'}']);
}

#[test]
fn response_frame_of_a_medium_message() {
    let data = "x".repeat(200);
    let frame = generate_websocket_response(message("message", &data));
    let length = 26 + 7 + 200;
    assert_eq!(&frame[..4], &[0x81, 126, (length >> 8) as u8, (length & 255) as u8]);
    assert_eq!(frame.len(), 4 + length);
}

#[test]
fn response_frame_of_a_long_message() {
    let data = "x".repeat(70000);
    let frame = generate_websocket_response(message("message", &data));
    let length: u64 = 26 + 7 + 70000;
    assert_eq!(frame[0], 0x81);
    assert_eq!(frame[1], 127);
    assert_eq!(&frame[2..10], &length.to_be_bytes());
    assert_eq!(frame.len(), 10 + length as usize);
}

#[test]
fn length_field_boundaries_on_the_encode_path() {
    let cases: [(usize, Vec<u8>); 7] = [
        (0, vec![0x81, 0]),
        (1, vec![0x81, 1]),
        (125, vec![0x81, 125]),
        (126, vec![0x81, 126, 0, 126]),
        (127, vec![0x81, 126, 0, 127]),
        (65535, vec![0x81, 126, 0xff, 0xff]),
        (65536, vec![0x81, 127, 0, 0, 0, 0, 0, 1, 0, 0]),
    ];
    for (length, header) in cases {
        let payload = payload_of(length);
        let frame = encode_text_frame(&payload);
        assert_eq!(&frame[..header.len()], &header[..], "length {}", length);
        assert_eq!(&frame[header.len()..], &payload[..], "length {}", length);
    }
}

#[test]
fn length_field_boundaries_on_the_decode_path() {
    let cases: [(usize, usize, Vec<u8>); 7] = [
        (0, 2, vec![0x81, 0x80]),
        (1, 2, vec![0x81, 0x81]),
        (125, 2, vec![0x81, 0xfd]),
        (126, 4, vec![0x81, 0xfe, 0, 126]),
        (127, 4, vec![0x81, 0xfe, 0, 127]),
        (65535, 4, vec![0x81, 0xfe, 0xff, 0xff]),
        (65536, 10, vec![0x81, 0xff, 0, 0, 0, 0, 0, 1, 0, 0]),
    ];
    for (length, mask_index, header) in cases {
        let payload = payload_of(length);
        let mut frame = header.clone();
        frame.extend_from_slice(&KEY);
        frame.extend(payload.iter().enumerate().map(|(i, b)| b ^ KEY[i % 4]));
        assert_eq!(
            parse_frame_header(&frame),
            Some(FrameHeader { payload_len: length as u64, mask_index }),
            "length {}",
            length
        );
        assert_eq!(decode_frame_payload(&frame), Ok(payload.clone()), "length {}", length);
        assert_eq!(encode_masked_frame(&payload, &KEY), frame, "length {}", length);
    }
}

#[test]
fn header_reads_a_64_bit_length_in_full() {
    let frame = [0x81, 0xff, 1, 2, 3, 4, 5, 6, 7, 8];
    assert_eq!(
        parse_frame_header(&frame),
        Some(FrameHeader { payload_len: 0x0102_0304_0506_0708, mask_index: 10 })
    );
}

#[test]
fn header_passes_over_the_mask_bit() {
    assert_eq!(
        parse_frame_header(&[0x81, 5]),
        Some(FrameHeader { payload_len: 5, mask_index: 2 })
    );
    assert_eq!(
        parse_frame_header(&[0x81, 0x85]),
        Some(FrameHeader { payload_len: 5, mask_index: 2 })
    );
}

#[test]
fn header_that_is_cut_short() {
    assert_eq!(parse_frame_header(&[]), None);
    assert_eq!(parse_frame_header(&[0x81]), None);
    assert_eq!(parse_frame_header(&[0x81, 126, 0]), None);
    assert_eq!(parse_frame_header(&[0x81, 127, 0, 0, 0, 0, 0, 0, 0]), None);
}

#[test]
fn opcode_is_the_low_nibble() {
    assert_eq!(frame_opcode(&[0x81]), Some(1));
    assert_eq!(frame_opcode(&[0x88, 0x80]), Some(8));
    assert_eq!(frame_opcode(&[0xff]), Some(15));
    assert_eq!(frame_opcode(&[]), None);
}

#[test]
fn payload_of_the_rfc_frame() {
    // The masked "Hello" of the protocol's own examples.
    let frame = [0x81, 0x85, 0x37, 0xfa, 0x21, 0x3d, 0x7f, 0x9f, 0x4d, 0x51, 0x58];
    assert_eq!(decode_frame_payload(&frame), Ok(b"Hello".to_vec()));
    assert_eq!(decode_frame_text(&frame), Ok("Hello".to_string()));
    assert_eq!(encode_masked_frame(b"Hello", &KEY), frame.to_vec());
}

#[test]
fn payload_ends_where_the_header_says() {
    let mut frame = encode_masked_frame(b"Hello", &KEY);
    frame.extend_from_slice(&[0; 100]);
    assert_eq!(decode_frame_payload(&frame), Ok(b"Hello".to_vec()));
}

#[test]
fn frame_that_runs_past_the_buffer_is_incomplete() {
    let frame = encode_masked_frame(b"Hello", &KEY);
    for cut in 0..frame.len() {
        assert_eq!(decode_frame_payload(&frame[..cut]), Err(ChatError::FrameIncomplete));
        assert!(matches!(decode_websocket_message(&frame[..cut]), Err(ChatError::FrameIncomplete)));
    }
    let huge = [0x81, 0xff, 0xff, 0xff, 0xff, 0xff, 0xff, 0xff, 0xff, 0xff, 1, 2, 3, 4, 5];
    assert_eq!(decode_frame_payload(&huge), Err(ChatError::FrameIncomplete));
}

#[test]
fn payload_that_is_not_utf8_is_malformed() {
    let frame = encode_masked_frame(&[0xff, 0xfe], &KEY);
    assert_eq!(decode_frame_text(&frame), Err(ChatError::FrameMalformed));
    assert!(matches!(decode_websocket_message(&frame), Err(ChatError::FrameMalformed)));
    let cut_character = encode_masked_frame(&[b'a', 0xc3], &KEY);
    assert_eq!(decode_frame_text(&cut_character), Err(ChatError::FrameMalformed));
}

#[test]
fn text_is_read_as_utf8() {
    let frame = encode_masked_frame("héllo ✓".as_bytes(), &KEY);
    assert_eq!(decode_frame_text(&frame), Ok("héllo ✓".to_string()));
}

#[test]
fn message_is_read_from_a_client_frame() {
    let frame = encode_masked_frame(b"{\"action\":\"message\",\"data\":\"hi\"}", &KEY);
    assert_eq!(decode_websocket_message(&frame), Ok(message("message", "hi")));
}

#[test]
fn message_is_read_from_a_frame_in_a_zero_filled_buffer() {
    let frame = encode_masked_frame(b"{\"action\":\"username\",\"data\":\"Bob\"}", &KEY);
    let mut buffer = [0u8; 1024];
    buffer[..frame.len()].copy_from_slice(&frame);
    assert_eq!(decode_websocket_message(&buffer), Ok(message("username", "Bob")));
}

#[test]
fn message_text_is_read_as_json() {
    let m = WebSocketMessage::from_wire_text(
        " { \"data\" : \"a\\\"b\\u0041\\n\", \"extra\": [1, 2], \"action\" : \"x\" } ",
    )
    .ok()
    .expect("a message");
    assert_eq!(m.action, "x");
    assert_eq!(m.data, "a\"bA\n");
}

#[test]
fn message_text_that_is_no_message_is_malformed() {
    let refused = [
        "",
        "hello",
        "{",
        "null",
        "[\"message\", \"hi\"]",
        "{\"action\": \"message\"}",
        "{\"data\": \"hi\"}",
        "{\"action\": 1, \"data\": \"hi\"}",
        "{\"action\": \"message\", \"data\": null}",
        "{\"action\": \"message\", \"data\": \"hi\"} trailing",
    ];
    for text in refused {
        assert!(
            matches!(WebSocketMessage::from_wire_text(text), Err(ChatError::FrameMalformed)),
            "{}",
            text
        );
    }
}

#[test]
fn message_from_members_wants_both() {
    let m = WebSocketMessage::from_members(Some("a".to_string()), Some("d".to_string()))
        .ok()
        .expect("a message");
    assert_eq!(m.action, "a");
    assert_eq!(m.data, "d");
    assert!(matches!(
        WebSocketMessage::from_members(None, Some("d".to_string())),
        Err(ChatError::FrameMalformed)
    ));
    assert!(matches!(
        WebSocketMessage::from_members(Some("a".to_string()), None),
        Err(ChatError::FrameMalformed)
    ));
    assert!(matches!(WebSocketMessage::from_members(None, None), Err(ChatError::FrameMalformed)));
}

#[test]
fn masking_a_server_frame_keeps_its_payload() {
    for length in [0usize, 1, 125, 126, 127, 65535, 65536] {
        let payload = payload_of(length);
        let frame = encode_text_frame(&payload);
        let masked = mask_as_client_frame(&frame, &KEY).expect("a whole frame");
        assert_eq!(masked, encode_masked_frame(&payload, &KEY));
        assert_eq!(decode_frame_payload(&masked), Ok(payload));
    }
}

#[test]
fn masking_needs_a_whole_frame() {
    let frame = encode_text_frame(b"Hello");
    assert_eq!(mask_as_client_frame(&frame[..frame.len() - 1], &KEY), None);
    assert_eq!(mask_as_client_frame(&[0x81], &KEY), None);
    assert_eq!(mask_as_client_frame(&[0x81, 0], &KEY), Some(vec![0x81, 0x80, 0x37, 0xfa, 0x21, 0x3d]));
}

#[test]
fn masking_under_the_zero_key_changes_no_payload_byte() {
    let frame = encode_masked_frame(b"abc", &[0, 0, 0, 0]);
    assert_eq!(frame, vec![0x81, 0x83, 0, 0, 0, 0, b'a', b'b', b'c']);
}

#[test]
fn round_trip_gives_back_both_fields() {
    for length in [0usize, 1, 2, 50, 99, 100, 199, 200] {
        for seed in 0..5 {
            let action = printable(length, seed);
            let data = printable(200 - length, seed + 11);
            assert_eq!(round_trip(&action, &data), Ok(message(&action, &data)));
        }
    }
}

#[test]
fn round_trip_under_every_kind_of_key() {
    for key in [[0u8, 0, 0, 0], [0xff, 0xff, 0xff, 0xff], [1, 2, 3, 4], [0x80, 0, 0x7f, 0x22]] {
        let frame = generate_websocket_response(message("message", "Anonymous: hello"));
        let masked = mask_as_client_frame(&frame, &key).expect("a whole frame");
        let m = decode_websocket_message(&masked).ok().expect("a message");
        assert_eq!(m.action, "message");
        assert_eq!(m.data, "Anonymous: hello");
    }
}

#[test]
fn round_trip_of_every_printable_character() {
    let all: String = (32u8..=126).map(|b| b as char).collect();
    assert_eq!(all.len(), 95);
    assert_eq!(round_trip(&all, &all), Ok(message(&all, &all)));
    assert_eq!(round_trip("message", "\""), Ok(message("message", "\"")));
    assert_eq!(round_trip("message", "a\\"), Ok(message("message", "a\\")));
    assert_eq!(round_trip("message", "a\\nb"), Ok(message("message", "a\\nb")));
    assert_eq!(round_trip("\\\"", "\"\\"), Ok(message("\\\"", "\"\\")));
}

#[test]
fn round_trip_of_control_and_other_characters() {
    let control: String = (0u8..32).map(|b| b as char).collect();
    assert_eq!(round_trip("message", &control), Ok(message("message", &control)));
    let other = "\u{7f}\u{80}é✓😀\u{2028}\u{ffff}\u{10ffff}";
    assert_eq!(round_trip(other, other), Ok(message(other, other)));
}

#[test]
fn round_trip_in_a_zero_filled_buffer() {
    let frame = generate_websocket_response(message("message", "say \"hi\""));
    let masked = mask_as_client_frame(&frame, &KEY).expect("a whole frame");
    let mut buffer = [0u8; 1024];
    buffer[..masked.len()].copy_from_slice(&masked);
    assert_eq!(decode_websocket_message(&buffer), Ok(message("message", "say \"hi\"")));
}
