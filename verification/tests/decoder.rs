use adventure_agent::decode::{StreamChunk, StreamDecoder, StreamItem};
use adventure_agent::json::JsonValue;

fn collect_all(decoder: &mut StreamDecoder, chunks: &[&[u8]]) -> Vec<StreamItem> {
    let mut items = Vec::new();
    for chunk in chunks {
        items.extend(decoder.push_bytes(chunk));
    }
    items
}

fn line(content: &str) -> String {
    format!(
        "{{\"model\":\"qwen3:8b\",\"created_at\":\"2025-01-01T00:00:00Z\",\"message\":{{\"role\":\"assistant\",\"content\":{}}},\"done\":false}}\n",
        serde_json::to_string(content).unwrap()
    )
}

fn done_line() -> String {
    "{\"model\":\"qwen3:8b\",\"created_at\":\"2025-01-01T00:00:00Z\",\"done\":true,\"done_reason\":\"stop\"}\n".to_string()
}

#[test]
fn single_text_line_yields_text_chunk() {
    let mut d = StreamDecoder::new();
    let body = line("The hall is dark.");
    let items = d.push_bytes(body.as_bytes());
    assert_eq!(items.len(), 1);
    match &items[0] {
        StreamItem::Chunk(StreamChunk::TextChunk(s)) => assert_eq!(s, "The hall is dark."),
        other => panic!("expected a text chunk, got {:?}", other),
    }
}

#[test]
fn chunking_does_not_change_the_items() {
    let mut body = String::new();
    body.push_str(&line("Torchlight flickers — déjà vu."));
    body.push_str(&line("<think>plan the route</think>"));
    body.push_str(&done_line());
    let bytes = body.as_bytes();

    let mut whole = StreamDecoder::new();
    let reference = whole.push_bytes(bytes);

    // Split at every offset, including mid-line and inside the multi-byte
    // characters of the first line.
    for cut in 0..=bytes.len() {
        let mut d = StreamDecoder::new();
        let items = collect_all(&mut d, &[&bytes[..cut], &bytes[cut..]]);
        assert_eq!(format!("{:?}", items), format!("{:?}", reference), "cut at {}", cut);
    }

    // Byte-at-a-time delivery.
    let mut d = StreamDecoder::new();
    let singles: Vec<&[u8]> = bytes.chunks(1).collect();
    let items = collect_all(&mut d, &singles);
    assert_eq!(format!("{:?}", items), format!("{:?}", reference));
}

#[test]
fn done_yields_one_end_of_stream_and_nothing_after() {
    let mut d = StreamDecoder::new();
    let mut body = done_line();
    body.push_str(&line("text after the end"));
    body.push_str("random trailing garbage with no newline");
    let items = d.push_bytes(body.as_bytes());
    assert_eq!(items.len(), 1);
    assert!(matches!(items[0], StreamItem::Chunk(StreamChunk::Done)));
    assert!(d.is_closed());
    // Later deliveries are ignored outright.
    let more = d.push_bytes(line("still more").as_bytes());
    assert!(more.is_empty());
}

#[test]
fn tool_call_content_yields_tool_invocation_and_no_text() {
    let mut d = StreamDecoder::new();
    let body = line(r#"{"tool_calls":[{"function":{"name":"set_time","arguments":{"time":"Night"}}}]}"#);
    let items = d.push_bytes(body.as_bytes());
    assert_eq!(items.len(), 1);
    match &items[0] {
        StreamItem::Chunk(StreamChunk::ToolCall { name, arguments }) => {
            assert_eq!(name, "set_time");
            match arguments {
                JsonValue::Object(fields) => {
                    assert_eq!(fields.len(), 1);
                    assert_eq!(fields[0].0, "time");
                    match &fields[0].1 {
                        JsonValue::Str(s) => assert_eq!(s, "Night"),
                        other => panic!("expected a string argument, got {:?}", other),
                    }
                }
                other => panic!("expected an object of arguments, got {:?}", other),
            }
        }
        other => panic!("expected a tool call, got {:?}", other),
    }
}

#[test]
fn reasoning_markers_are_classified_as_reasoning() {
    let mut d = StreamDecoder::new();
    let mut body = line("<think>weigh the options");
    body.push_str(&line("the reasoning: goes like this"));
    body.push_str(&line("plain narrative"));
    let items = d.push_bytes(body.as_bytes());
    assert_eq!(items.len(), 3);
    assert!(matches!(&items[0], StreamItem::Chunk(StreamChunk::ReasoningChunk(_))));
    assert!(matches!(&items[1], StreamItem::Chunk(StreamChunk::ReasoningChunk(_))));
    assert!(matches!(&items[2], StreamItem::Chunk(StreamChunk::TextChunk(_))));
}

#[test]
fn empty_content_yields_nothing() {
    let mut d = StreamDecoder::new();
    let items = d.push_bytes(line("").as_bytes());
    assert!(items.is_empty());
    assert!(!d.is_closed());
}

#[test]
fn missing_message_yields_nothing() {
    let mut d = StreamDecoder::new();
    let body = "{\"model\":\"qwen3:8b\",\"created_at\":\"t\",\"done\":false}\n";
    let items = d.push_bytes(body.as_bytes());
    assert!(items.is_empty());
}

#[test]
fn malformed_line_yields_terminal_decode_error() {
    let mut d = StreamDecoder::new();
    let mut body = String::from("this is not json\n");
    body.push_str(&line("never reached"));
    let items = d.push_bytes(body.as_bytes());
    assert_eq!(items.len(), 1);
    match &items[0] {
        StreamItem::DecodeError(m) => assert_eq!(m, "Failed to parse JSON"),
        other => panic!("expected a decode error, got {:?}", other),
    }
    assert!(d.is_closed());
}

#[test]
fn envelope_with_wrong_done_type_is_malformed() {
    let mut d = StreamDecoder::new();
    let body = "{\"model\":\"m\",\"created_at\":\"t\",\"done\":\"yes\"}\n";
    let items = d.push_bytes(body.as_bytes());
    assert_eq!(items.len(), 1);
    assert!(matches!(items[0], StreamItem::DecodeError(_)));
}

#[test]
fn incomplete_line_waits_for_more_bytes() {
    let mut d = StreamDecoder::new();
    let body = line("patience");
    let (a, b) = body.as_bytes().split_at(10);
    assert!(d.push_bytes(a).is_empty());
    let items = d.push_bytes(b);
    assert_eq!(items.len(), 1);
    match &items[0] {
        StreamItem::Chunk(StreamChunk::TextChunk(s)) => assert_eq!(s, "patience"),
        other => panic!("expected a text chunk, got {:?}", other),
    }
}

#[test]
fn empty_tool_calls_array_falls_back_to_text() {
    let mut d = StreamDecoder::new();
    let items = d.push_bytes(line(r#"{"tool_calls":[]}"#).as_bytes());
    assert_eq!(items.len(), 1);
    match &items[0] {
        StreamItem::Chunk(StreamChunk::TextChunk(s)) => {
            assert_eq!(s, r#"{"tool_calls":[]}"#);
        }
        other => panic!("expected a text chunk, got {:?}", other),
    }
}

#[test]
fn json_content_without_tool_calls_is_plain_text() {
    let mut d = StreamDecoder::new();
    let items = d.push_bytes(line("42").as_bytes());
    assert_eq!(items.len(), 1);
    assert!(matches!(&items[0], StreamItem::Chunk(StreamChunk::TextChunk(s)) if s == "42"));
}

#[test]
fn null_message_and_null_done_reason_are_accepted() {
    let mut d = StreamDecoder::new();
    let body = "{\"model\":\"m\",\"created_at\":\"t\",\"message\":null,\"done\":false,\"done_reason\":null}\n";
    let items = d.push_bytes(body.as_bytes());
    assert!(items.is_empty());
    assert!(!d.is_closed());
}

#[test]
fn non_string_message_content_is_malformed() {
    let mut d = StreamDecoder::new();
    let body = "{\"model\":\"m\",\"created_at\":\"t\",\"message\":{\"role\":\"assistant\",\"content\":7},\"done\":false}\n";
    let items = d.push_bytes(body.as_bytes());
    assert_eq!(items.len(), 1);
    assert!(matches!(items[0], StreamItem::DecodeError(_)));
    assert!(d.is_closed());
}

#[test]
fn multibyte_text_survives_decoding() {
    let mut d = StreamDecoder::new();
    let body = line("Déjà vu — 夜が来る");
    let bytes = body.as_bytes();
    // Deliver split inside a multi-byte character.
    let cut = body.find('é').unwrap() + 1;
    let items = collect_all(&mut d, &[&bytes[..cut], &bytes[cut..]]);
    assert_eq!(items.len(), 1);
    match &items[0] {
        StreamItem::Chunk(StreamChunk::TextChunk(s)) => assert_eq!(s, "Déjà vu — 夜が来る"),
        other => panic!("expected a text chunk, got {:?}", other),
    }
}
