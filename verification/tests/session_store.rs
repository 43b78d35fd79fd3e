use adventure_agent::agent::Agent;
use adventure_agent::json::JsonValue;
use adventure_agent::ollama::{create_game_tools, OllamaClient};
use adventure_agent::session::{list_saves, OllamaConfig, SessionStore, TurnData};

#[test]
fn starting_a_game_stores_the_opening_turn() {
    let mut store = SessionStore::new();
    let mut agent = Agent::new();
    let (session_id, state) = store.start_new_game(&mut agent);
    assert_eq!(session_id, "session_stub_001");
    assert_eq!(state.time, "Morning");
    assert_eq!(store.turn_count(), 1);
    let opening = store.get_turn(0).unwrap();
    assert_eq!(opening.turn_number, 0);
    assert!(opening.story_text.starts_with("You wake up in a dimly lit room."));
    assert_eq!(opening.choices.len(), 3);
    assert_eq!(opening.choices[0], "Open the door radiating blue light");
    assert_eq!(opening.game_state.outfit, "Traveler's Cloak");
}

#[test]
fn get_turn_reports_unknown_numbers() {
    let store = SessionStore::new();
    match store.get_turn(7) {
        Err(message) => assert_eq!(message, "Turn not found"),
        Ok(_) => panic!("an empty store has no turn"),
    }
}

#[test]
fn submit_action_serves_the_stubbed_continuation() {
    let mut store = SessionStore::new();
    let mut agent = Agent::new();
    let _ = store.start_new_game(&mut agent);
    let turn = store.submit_action("open the plain door");
    assert_eq!(turn.turn_number, 1);
    assert_eq!(
        turn.story_text,
        "You chose: 'open the plain door'. The path unfolds before you, revealing new mysteries and dangers. What will you do next?"
    );
    assert_eq!(turn.choices.len(), 3);
    assert_eq!(turn.game_state.location, "Enchanted Corridor");
    assert_eq!(store.turn_count(), 2);
    let stored = store.get_turn(1).unwrap();
    assert_eq!(stored.story_text, turn.story_text);
}

#[test]
fn recorded_turns_are_served_back() {
    let mut store = SessionStore::new();
    let turn = TurnData {
        turn_number: 0,
        story_text: "A quiet start.".to_string(),
        choices: vec!["A".to_string(), "B".to_string(), "C".to_string()],
        game_state: adventure_agent::agent::GameState {
            time: "Evening".to_string(),
            location: "Camp".to_string(),
            outfit: "Wool Cloak".to_string(),
        },
    };
    store.record_turn(turn);
    let served = store.get_turn(0).unwrap();
    assert_eq!(served.story_text, "A quiet start.");
    assert_eq!(served.game_state.time, "Evening");
}

#[test]
fn list_saves_serves_the_two_stubs() {
    let saves = list_saves();
    assert_eq!(saves.len(), 2);
    assert_eq!(saves[0].id, "save_001");
    assert_eq!(saves[0].name, "The Forest Adventure");
    assert_eq!(saves[0].last_played, "2025-10-15");
    assert_eq!(saves[0].turn_count, 23);
    assert_eq!(saves[1].id, "save_002");
    assert_eq!(saves[1].turn_count, 15);
}

#[test]
fn config_holds_the_address() {
    let mut config = OllamaConfig::new();
    assert_eq!(config.ip_address, "192.168.0.100:11434");
    config.set_ip("10.1.1.1:11434".to_string());
    assert_eq!(config.ip_address, "10.1.1.1:11434");
}

#[test]
fn client_urls_carry_the_scheme_and_path() {
    let client = OllamaClient::new();
    assert_eq!(client.base_url, "http://192.168.0.100:11434");
    assert_eq!(client.model, "qwen3:8b");
    assert_eq!(client.chat_endpoint(), "http://192.168.0.100:11434/api/chat");
    let custom = OllamaClient::with_url("example.test:11434".to_string());
    assert_eq!(custom.base_url, "http://example.test:11434");
}

#[test]
fn game_tools_declare_the_three_mutations() {
    let tools = create_game_tools();
    assert_eq!(tools.len(), 3);
    let names: Vec<&str> = tools.iter().map(|t| t.function.name.as_str()).collect();
    assert_eq!(names, vec!["set_time", "set_location", "set_outfit"]);
    for tool in &tools {
        assert_eq!(tool.tool_type, "function");
        assert_eq!(tool.function.parameters.param_type, "object");
        assert_eq!(tool.function.parameters.required.len(), 1);
        assert_eq!(tool.function.parameters.properties.len(), 1);
        assert_eq!(
            tool.function.parameters.required[0],
            tool.function.parameters.properties[0].0
        );
    }
    assert_eq!(tools[0].function.parameters.required[0], "time");
    match &tools[0].function.parameters.properties[0].1 {
        JsonValue::Object(fields) => {
            assert_eq!(fields[0].0, "type");
            assert!(matches!(&fields[0].1, JsonValue::Str(s) if s == "string"));
            assert_eq!(fields[2].0, "enum");
            match &fields[2].1 {
                JsonValue::Array(times) => assert_eq!(times.len(), 4),
                other => panic!("expected the time enumeration, got {:?}", other),
            }
        }
        other => panic!("expected a property descriptor, got {:?}", other),
    }
}

#[test]
fn json_value_accessors_read_the_tree() {
    let v = JsonValue::Object(vec![
        (
            "a".to_string(),
            JsonValue::Array(vec![
                JsonValue::Number("1".to_string()),
                JsonValue::Bool(true),
                JsonValue::Null,
                JsonValue::Str("x".to_string()),
            ]),
        ),
        ("b".to_string(), JsonValue::Bool(false)),
    ]);
    let a = v.get("a").unwrap();
    let items = a.as_array().unwrap();
    assert_eq!(items.len(), 4);
    assert!(matches!(&items[1], JsonValue::Bool(true)));
    assert_eq!(v.get("b").unwrap().as_bool(), Some(false));
    assert!(v.get("c").is_none());
    assert!(v.get("a").unwrap().as_str().is_none());
    let copy = v.duplicate();
    assert_eq!(format!("{:?}", copy), format!("{:?}", v));
}
