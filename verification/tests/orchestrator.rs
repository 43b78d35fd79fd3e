use adventure_agent::agent::{Agent, AgentMessage, GameState, ToolError};
use adventure_agent::decode::{StreamChunk, StreamItem};
use adventure_agent::json::JsonValue;

fn fresh_state() -> GameState {
    GameState {
        time: "Morning".to_string(),
        location: "Mysterious Room".to_string(),
        outfit: "Traveler's Cloak".to_string(),
    }
}

fn text_item(s: &str) -> StreamItem {
    StreamItem::Chunk(StreamChunk::TextChunk(s.to_string()))
}

fn tool_item(name: &str, fields: Vec<(String, JsonValue)>) -> StreamItem {
    StreamItem::Chunk(StreamChunk::ToolCall {
        name: name.to_string(),
        arguments: JsonValue::Object(fields),
    })
}

#[test]
fn start_new_game_returns_fixed_state_and_one_system_message() {
    let mut agent = Agent::new();
    let state = agent.start_new_game();
    assert_eq!(state.time, "Morning");
    assert_eq!(state.location, "Mysterious Room");
    assert_eq!(state.outfit, "Traveler's Cloak");
    assert_eq!(agent.history().len(), 1);
    assert_eq!(agent.history()[0].role, "system");
    assert!(agent.history()[0].content.contains("dungeon master"));
    // Starting again clears any accumulated history down to the one message.
    let _ = agent.start_new_game();
    assert_eq!(agent.history().len(), 1);
}

#[test]
fn extract_choices_reads_numbered_lines() {
    let agent = Agent::new();
    let choices = agent.extract_choices("You enter the hall.\n1. Go left\n2. Go right\n3. Wait");
    assert_eq!(choices, vec!["Go left", "Go right", "Wait"]);
}

#[test]
fn extract_choices_accepts_all_three_prefix_shapes() {
    let agent = Agent::new();
    let choices = agent.extract_choices("intro\n 1) Fight \n2: Flee\n3. Hide");
    assert_eq!(choices, vec!["Fight", "Flee", "Hide"]);
}

#[test]
fn extract_choices_orders_by_number_not_appearance() {
    let agent = Agent::new();
    let choices = agent.extract_choices("2. Second\n3. Third\n1. First");
    assert_eq!(choices, vec!["First", "Second", "Third"]);
}

#[test]
fn two_choices_fall_back_to_the_fixed_three() {
    let agent = Agent::new();
    let choices = agent.extract_choices("1. A\n2. B");
    assert_eq!(
        choices,
        vec![
            "Continue exploring",
            "Examine your surroundings carefully",
            "Take a different approach",
        ]
    );
}

#[test]
fn empty_text_falls_back_and_extra_choices_are_truncated() {
    let agent = Agent::new();
    assert_eq!(agent.extract_choices("").len(), 3);
    let many = agent.extract_choices("1. A\n2. B\n3. C\n3. D");
    assert_eq!(many, vec!["A", "B", "C"]);
}

#[test]
fn execute_tool_sets_each_field_verbatim() {
    let agent = Agent::new();
    let mut state = fresh_state();
    let args = JsonValue::Object(vec![("time".to_string(), JsonValue::Str("Night".to_string()))]);
    assert!(agent.execute_tool("set_time", &args, &mut state).is_ok());
    assert_eq!(state.time, "Night");

    let args = JsonValue::Object(vec![(
        "location".to_string(),
        JsonValue::Str("Throne Room".to_string()),
    )]);
    assert!(agent.execute_tool("set_location", &args, &mut state).is_ok());
    assert_eq!(state.location, "Throne Room");

    let args = JsonValue::Object(vec![(
        "outfit".to_string(),
        JsonValue::Str("Iron Armor".to_string()),
    )]);
    assert!(agent.execute_tool("set_outfit", &args, &mut state).is_ok());
    assert_eq!(state.outfit, "Iron Armor");
}

#[test]
fn execute_tool_rejects_missing_argument_and_unknown_tool() {
    let agent = Agent::new();
    let mut state = fresh_state();
    let empty = JsonValue::Object(vec![]);
    match agent.execute_tool("set_time", &empty, &mut state) {
        Err(e @ ToolError::MissingArgument { .. }) => {
            assert_eq!(e.message(), "Missing 'time' argument");
        }
        other => panic!("expected a missing-argument error, got {:?}", other),
    }
    match agent.execute_tool("cast_spell", &empty, &mut state) {
        Err(e @ ToolError::UnknownTool { .. }) => {
            assert_eq!(e.message(), "Unknown tool: cast_spell");
        }
        other => panic!("expected an unknown-tool error, got {:?}", other),
    }
    // A non-string argument is as missing.
    let wrong = JsonValue::Object(vec![("time".to_string(), JsonValue::Number("3".to_string()))]);
    assert!(agent.execute_tool("set_time", &wrong, &mut state).is_err());
    assert_eq!(state.time, "Morning");
}

#[test]
fn missing_outfit_argument_yields_one_error_notice_and_leaves_outfit_alone() {
    let mut agent = Agent::new();
    let _ = agent.start_new_game();
    let mut state = fresh_state();
    let items = vec![tool_item("set_outfit", vec![])];
    let events = agent.process_action("change clothes", &mut state, 1, &items);
    let errors: Vec<&AgentMessage> = events
        .iter()
        .filter(|e| matches!(e, AgentMessage::Error { .. }))
        .collect();
    assert_eq!(errors.len(), 1);
    match errors[0] {
        AgentMessage::Error { message } => {
            assert!(message.contains("outfit"), "message was {:?}", message);
            assert_eq!(message, "Tool execution failed: Missing 'outfit' argument");
        }
        _ => unreachable!(),
    }
    assert_eq!(state.outfit, "Traveler's Cloak");
}

#[test]
fn exactly_one_turn_complete_always_last_with_three_choices() {
    let mut agent = Agent::new();
    let _ = agent.start_new_game();
    let mut state = fresh_state();
    let items = vec![
        text_item("The hall opens up.\n"),
        StreamItem::Chunk(StreamChunk::ReasoningChunk("<think>hmm".to_string())),
        tool_item(
            "set_time",
            vec![("time".to_string(), JsonValue::Str("Evening".to_string()))],
        ),
        text_item("1. Go on\n2. Go back\n3. Rest"),
        StreamItem::Chunk(StreamChunk::Done),
    ];
    let events = agent.process_action("walk in", &mut state, 4, &items);
    let completes: Vec<usize> = events
        .iter()
        .enumerate()
        .filter(|(_, e)| matches!(e, AgentMessage::TurnComplete { .. }))
        .map(|(i, _)| i)
        .collect();
    assert_eq!(completes.len(), 1);
    assert_eq!(completes[0], events.len() - 1);
    match &events[events.len() - 1] {
        AgentMessage::TurnComplete { turn_number, story_text, choices, game_state } => {
            assert_eq!(*turn_number, 4);
            assert_eq!(story_text, "The hall opens up.\n1. Go on\n2. Go back\n3. Rest");
            assert_eq!(choices, &vec!["Go on", "Go back", "Rest"]);
            assert_eq!(game_state.time, "Evening");
        }
        _ => unreachable!(),
    }
    assert_eq!(state.time, "Evening");
}

#[test]
fn turn_events_arrive_in_stream_order() {
    let mut agent = Agent::new();
    let _ = agent.start_new_game();
    let mut state = fresh_state();
    let items = vec![
        tool_item(
            "set_location",
            vec![("location".to_string(), JsonValue::Str("Garden".to_string()))],
        ),
        text_item("Roses everywhere."),
    ];
    let events = agent.process_action("go outside", &mut state, 2, &items);
    assert_eq!(events.len(), 4);
    assert!(matches!(&events[0], AgentMessage::ToolCall { name, .. } if name == "set_location"));
    match &events[1] {
        AgentMessage::ToolResult { name, result } => {
            assert_eq!(name, "set_location");
            assert_eq!(result.location, "Garden");
        }
        other => panic!("expected a tool result, got {:?}", other),
    }
    assert!(matches!(&events[2], AgentMessage::TextChunk { content } if content == "Roses everywhere."));
    assert!(matches!(&events[3], AgentMessage::TurnComplete { .. }));
}

#[test]
fn items_after_done_change_nothing() {
    let mut agent = Agent::new();
    let _ = agent.start_new_game();
    let mut state = fresh_state();
    let items = vec![
        text_item("Before the end."),
        StreamItem::Chunk(StreamChunk::Done),
        text_item("After the end."),
        tool_item(
            "set_time",
            vec![("time".to_string(), JsonValue::Str("Night".to_string()))],
        ),
    ];
    let events = agent.process_action("wait", &mut state, 1, &items);
    assert_eq!(state.time, "Morning");
    match &events[events.len() - 1] {
        AgentMessage::TurnComplete { story_text, .. } => {
            assert_eq!(story_text, "Before the end.");
        }
        _ => panic!("last event must be the turn completion"),
    }
    assert_eq!(events.len(), 2);
}

#[test]
fn decode_error_is_reported_and_turn_still_completes() {
    let mut agent = Agent::new();
    let _ = agent.start_new_game();
    let mut state = fresh_state();
    let items = vec![
        text_item("A strange hiss."),
        StreamItem::DecodeError("Failed to parse JSON".to_string()),
        text_item("never seen"),
    ];
    let events = agent.process_action("listen", &mut state, 3, &items);
    assert_eq!(events.len(), 3);
    assert!(matches!(&events[0], AgentMessage::TextChunk { .. }));
    match &events[1] {
        AgentMessage::Error { message } => {
            assert_eq!(message, "Stream error: Failed to parse JSON");
        }
        other => panic!("expected an error notice, got {:?}", other),
    }
    assert!(matches!(&events[2], AgentMessage::TurnComplete { .. }));
}

#[test]
fn history_gains_user_and_assistant_messages() {
    let mut agent = Agent::new();
    let _ = agent.start_new_game();
    let mut state = fresh_state();
    let items = vec![text_item("Dust swirls."), StreamItem::Chunk(StreamChunk::Done)];
    let _ = agent.process_action("look around", &mut state, 1, &items);
    let history = agent.history();
    assert_eq!(history.len(), 3);
    assert_eq!(history[1].role, "user");
    assert!(history[1].content.contains("Player Action: look around"));
    assert!(history[1].content.contains("- Time: Morning"));
    assert_eq!(history[2].role, "assistant");
    assert_eq!(history[2].content, "Dust swirls.");
}

#[test]
fn empty_narrative_appends_no_assistant_message() {
    let mut agent = Agent::new();
    let _ = agent.start_new_game();
    let mut state = fresh_state();
    let items = vec![StreamItem::Chunk(StreamChunk::Done)];
    let _ = agent.process_action("wait silently", &mut state, 1, &items);
    assert_eq!(agent.history().len(), 2);
    assert_eq!(agent.history()[1].role, "user");
}

#[test]
fn user_message_embeds_the_current_state() {
    let agent = Agent::new();
    let state = GameState {
        time: "Night".to_string(),
        location: "Crypt".to_string(),
        outfit: "Shadow Garb".to_string(),
    };
    let message = agent.format_user_message("sneak", &state);
    assert_eq!(
        message,
        "Current State:\n- Time: Night\n- Location: Crypt\n- Outfit: Shadow Garb\n\nPlayer Action: sneak\n\nContinue the story based on this action. Remember to provide exactly 3 choices and use tools to update state if appropriate."
    );
}

#[test]
fn agent_urls_are_built_from_the_configured_address() {
    let agent = Agent::new();
    assert_eq!(agent.chat_endpoint(), "http://192.168.0.100:11434/api/chat");
    assert_eq!(agent.model_id(), "qwen3:8b");
    let custom = Agent::with_ollama_url("10.0.0.7:11434".to_string());
    assert_eq!(custom.chat_endpoint(), "http://10.0.0.7:11434/api/chat");
}
