use adventure_agent::agent::{Agent, GameState};
use adventure_agent::json::{write_json, JsonValue};
use adventure_agent::ollama::OllamaClient;

#[test]
fn written_json_escapes_exactly() {
    let v = JsonValue::Str("a\"b\\c\nd\te\r\u{8}\u{c}\u{1f} é".to_string());
    assert_eq!(write_json(&v), "\"a\\\"b\\\\c\\nd\\te\\r\\b\\f\\u001f é\"");
    assert_eq!(write_json(&JsonValue::Null), "null");
    assert_eq!(write_json(&JsonValue::Bool(false)), "false");
    assert_eq!(write_json(&JsonValue::Number("3.5".to_string())), "3.5");
    assert_eq!(write_json(&JsonValue::Array(vec![])), "[]");
    assert_eq!(write_json(&JsonValue::Object(vec![])), "{}");
}

#[test]
fn written_json_round_trips_through_serde() {
    let v = JsonValue::Object(vec![
        (
            "a".to_string(),
            JsonValue::Str("line\nbreak \"quoted\" back\\slash \u{1} é".to_string()),
        ),
        (
            "b".to_string(),
            JsonValue::Array(vec![
                JsonValue::Null,
                JsonValue::Bool(true),
                JsonValue::Number("3.5".to_string()),
                JsonValue::Object(vec![("k".to_string(), JsonValue::Str("v".to_string()))]),
            ]),
        ),
    ]);
    let written = write_json(&v);
    let parsed: serde_json::Value = serde_json::from_str(&written).expect("the written text parses");
    assert_eq!(written, serde_json::to_string(&parsed).unwrap());
}

#[test]
fn chat_request_body_is_the_expected_json() {
    let client = OllamaClient::new();
    let body = client.chat_request_body(&Vec::new(), &Vec::new());
    assert_eq!(body, "{\"model\":\"qwen3:8b\",\"messages\":[],\"stream\":true}");
}

#[test]
fn turn_request_carries_history_action_and_tools() {
    let mut agent = Agent::new();
    let _ = agent.start_new_game();
    let state = GameState {
        time: "Morning".to_string(),
        location: "Mysterious Room".to_string(),
        outfit: "Traveler's Cloak".to_string(),
    };
    let body = agent.build_turn_request("look around", &state);
    let parsed: serde_json::Value = serde_json::from_str(&body).expect("the body is JSON");
    assert_eq!(parsed["model"], "qwen3:8b");
    assert_eq!(parsed["stream"], true);
    let messages = parsed["messages"].as_array().unwrap();
    assert_eq!(messages.len(), 2);
    assert_eq!(messages[0]["role"], "system");
    assert_eq!(messages[1]["role"], "user");
    let user = messages[1]["content"].as_str().unwrap();
    assert!(user.contains("Player Action: look around"));
    assert!(user.contains("- Time: Morning"));
    let tools = parsed["tools"].as_array().unwrap();
    assert_eq!(tools.len(), 3);
    assert_eq!(tools[0]["type"], "function");
    assert_eq!(tools[0]["function"]["name"], "set_time");
    assert_eq!(tools[1]["function"]["name"], "set_location");
    assert_eq!(tools[2]["function"]["name"], "set_outfit");
    assert_eq!(tools[0]["function"]["parameters"]["type"], "object");
    assert_eq!(tools[0]["function"]["parameters"]["required"][0], "time");
    let time_prop = &tools[0]["function"]["parameters"]["properties"]["time"];
    assert_eq!(time_prop["type"], "string");
    assert_eq!(time_prop["enum"].as_array().unwrap().len(), 4);
    // Requesting without a started session still names the model and sends
    // the one user message.
    let bare = Agent::new().build_turn_request("hi", &state);
    let parsed: serde_json::Value = serde_json::from_str(&bare).unwrap();
    assert_eq!(parsed["messages"].as_array().unwrap().len(), 1);
}
