//! The orchestration loop.
//!
//! The agent owns the conversation history and folds the decoded protocol
//! stream of one player turn into game-state mutations and an ordered
//! sequence of turn events: every text and reasoning fragment is forwarded,
//! every tool call is announced and executed, and one turn-complete event —
//! always the last, always with exactly three choices — closes the turn.

use vstd::prelude::*;
use vstd::string::StrSliceExecFns;
use vstd::string::StringExecFns;
use crate::json::{JsonValue, JVal, jv_get, jv_as_str};
use crate::ollama::{ChatMessage, ChatMessageV, OllamaClient, chat_request_text, create_game_tools,
    game_tools_v};
use crate::decode::{StreamChunk, StreamChunkV, StreamItem, StreamItemV};
use crate::text::{trim_spec, trim_str, split_lines, split_lines_exec, str_eq};

verus! {

broadcast use vstd::std_specs::vec::group_vec_axioms;

/// Game state the model's tools can modify.
#[derive(Debug, Clone)]
pub struct GameState {
    pub time: String,
    pub location: String,
    pub outfit: String,
}

/// Model of a [`GameState`].
#[verifier::ext_equal]
pub struct GameStateV {
    pub time: Seq<char>,
    pub location: Seq<char>,
    pub outfit: Seq<char>,
}

impl View for GameState {
    type V = GameStateV;

    open spec fn view(&self) -> GameStateV {
        GameStateV { time: self.time@, location: self.location@, outfit: self.outfit@ }
    }
}

impl GameState {
    /// A copy with the same model.
    pub fn snapshot(&self) -> (r: GameState)
        ensures
            r@ == self@,
    {
        GameState {
            time: self.time.clone(),
            location: self.location.clone(),
            outfit: self.outfit.clone(),
        }
    }
}

/// The game state a fresh session starts from.
pub open spec fn initial_game_state() -> GameStateV {
    GameStateV { time: "Morning"@, location: "Mysterious Room"@, outfit: "Traveler's Cloak"@ }
}

/// One event streamed to the consumer during a turn.
#[derive(Debug)]
pub enum AgentMessage {
    TextChunk { content: String },
    ReasoningChunk { content: String },
    ToolCall { name: String, args: JsonValue },
    ToolResult { name: String, result: GameState },
    Choices { choices: Vec<String> },
    TurnComplete { turn_number: u32, story_text: String, choices: Vec<String>, game_state: GameState },
    Error { message: String },
}

/// Model of an [`AgentMessage`].
#[verifier::ext_equal]
pub enum AgentMessageV {
    TextChunk { content: Seq<char> },
    ReasoningChunk { content: Seq<char> },
    ToolCall { name: Seq<char>, args: JVal },
    ToolResult { name: Seq<char>, result: GameStateV },
    Choices { choices: Seq<Seq<char>> },
    TurnComplete {
        turn_number: u32,
        story_text: Seq<char>,
        choices: Seq<Seq<char>>,
        game_state: GameStateV,
    },
    Error { message: Seq<char> },
}

impl View for AgentMessage {
    type V = AgentMessageV;

    open spec fn view(&self) -> AgentMessageV {
        match self {
            AgentMessage::TextChunk { content } => AgentMessageV::TextChunk { content: content@ },
            AgentMessage::ReasoningChunk { content } => AgentMessageV::ReasoningChunk {
                content: content@,
            },
            AgentMessage::ToolCall { name, args } => AgentMessageV::ToolCall {
                name: name@,
                args: args@,
            },
            AgentMessage::ToolResult { name, result } => AgentMessageV::ToolResult {
                name: name@,
                result: result@,
            },
            AgentMessage::Choices { choices } => AgentMessageV::Choices {
                choices: choices.deep_view(),
            },
            AgentMessage::TurnComplete { turn_number, story_text, choices, game_state } => {
                AgentMessageV::TurnComplete {
                    turn_number: *turn_number,
                    story_text: story_text@,
                    choices: choices.deep_view(),
                    game_state: game_state@,
                }
            },
            AgentMessage::Error { message } => AgentMessageV::Error { message: message@ },
        }
    }
}

impl DeepView for AgentMessage {
    type V = AgentMessageV;

    open spec fn deep_view(&self) -> AgentMessageV {
        self@
    }
}

/// Why a tool call failed.
#[derive(Debug)]
pub enum ToolError {
    MissingArgument { field: String },
    UnknownTool { name: String },
}

/// Model of a [`ToolError`].
#[verifier::ext_equal]
pub enum ToolErrorV {
    MissingArgument { field: Seq<char> },
    UnknownTool { name: Seq<char> },
}

impl View for ToolError {
    type V = ToolErrorV;

    open spec fn view(&self) -> ToolErrorV {
        match self {
            ToolError::MissingArgument { field } => ToolErrorV::MissingArgument { field: field@ },
            ToolError::UnknownTool { name } => ToolErrorV::UnknownTool { name: name@ },
        }
    }
}

/// The text a failed tool call reports.
pub open spec fn tool_error_text(e: ToolErrorV) -> Seq<char> {
    match e {
        ToolErrorV::MissingArgument { field } => "Missing '"@ + field + "' argument"@,
        ToolErrorV::UnknownTool { name } => "Unknown tool: "@ + name,
    }
}

impl ToolError {
    /// The error's text.
    pub fn message(&self) -> (r: String)
        ensures
            r@ == tool_error_text(self@),
    {
        match self {
            ToolError::MissingArgument { field } => {
                let mut m = ("Missing '").to_owned();
                m.append(field.as_str());
                m.append("' argument");
                m
            },
            ToolError::UnknownTool { name } => {
                let mut m = ("Unknown tool: ").to_owned();
                m.append(name.as_str());
                m
            },
        }
    }
}

/// The string argument under `key`, if the arguments are an object holding
/// a string there.
pub open spec fn string_arg(args: JVal, key: Seq<char>) -> Option<Seq<char>> {
    match jv_get(args, key) {
        Some(v) => jv_as_str(v),
        None => None,
    }
}

/// What a tool call does to the game state: each of the three tools demands
/// its one string argument and sets its field verbatim; a missing or
/// non-string argument and an unknown tool name fail and change nothing.
pub open spec fn tool_apply(name: Seq<char>, args: JVal, g: GameStateV) -> Result<
    GameStateV,
    ToolErrorV,
> {
    if name == "set_time"@ {
        match string_arg(args, "time"@) {
            Some(t) => Ok(GameStateV { time: t, ..g }),
            None => Err(ToolErrorV::MissingArgument { field: "time"@ }),
        }
    } else if name == "set_location"@ {
        match string_arg(args, "location"@) {
            Some(l) => Ok(GameStateV { location: l, ..g }),
            None => Err(ToolErrorV::MissingArgument { field: "location"@ }),
        }
    } else if name == "set_outfit"@ {
        match string_arg(args, "outfit"@) {
            Some(o) => Ok(GameStateV { outfit: o, ..g }),
            None => Err(ToolErrorV::MissingArgument { field: "outfit"@ }),
        }
    } else {
        Err(ToolErrorV::UnknownTool { name })
    }
}

/// What one line contributes as the choice for digit `d`: trimmed, it must
/// open with the digit followed by `.`, `)` or `:`; the remainder, trimmed,
/// is the choice text.
pub open spec fn choice_capture(line: Seq<char>, d: char) -> Option<Seq<char>> {
    let t = trim_spec(line);
    if t.len() >= 2 && t[0] == d && (t[1] == '.' || t[1] == ')' || t[1] == ':') {
        Some(trim_spec(t.skip(2)))
    } else {
        None
    }
}

/// Every capture for digit `d`, in the order the lines stand.
pub open spec fn captures_for(lines: Seq<Seq<char>>, d: char) -> Seq<Seq<char>>
    decreases lines.len(),
{
    if lines.len() == 0 {
        Seq::empty()
    } else {
        let rest = captures_for(lines.drop_first(), d);
        match choice_capture(lines[0], d) {
            Some(c) => seq![c] + rest,
            None => rest,
        }
    }
}

/// The fixed fallback offered when fewer than three choices are recovered.
pub open spec fn fallback_choices() -> Seq<Seq<char>> {
    seq![
        "Continue exploring"@,
        "Examine your surroundings carefully"@,
        "Take a different approach"@,
    ]
}

/// The exactly-three choices derived from narrative text: captures for the
/// digits one, two and three in numeric order, truncated to three; the
/// fixed fallback when fewer than three are recovered.
pub open spec fn choices_spec(text: Seq<char>) -> Seq<Seq<char>> {
    let lines = split_lines(text);
    let all = captures_for(lines, '1') + captures_for(lines, '2') + captures_for(lines, '3');
    if all.len() < 3 {
        fallback_choices()
    } else {
        all.take(3)
    }
}

/// Law: choice extraction always yields exactly three choices.
pub proof fn lemma_choices_are_three(text: Seq<char>)
    ensures
        choices_spec(text).len() == 3,
{
}

fn capture_line(line: &str, d: char) -> (r: Option<String>)
    ensures
        match r {
            Some(c) => choice_capture(line@, d) == Some(c@),
            None => choice_capture(line@, d) is None,
        },
{
    let t = trim_str(line);
    let n = t.unicode_len();
    if n >= 2 && t.get_char(0) == d {
        let c1 = t.get_char(1);
        if c1 == '.' || c1 == ')' || c1 == ':' {
            let rest = t.substring_char(2, n);
            proof {
                assert(rest@ =~= trim_spec(line@).skip(2));
            }
            return Some(trim_str(rest).to_owned());
        }
    }
    None
}

#[verifier::loop_isolation(false)]
fn captures_exec(lines: &Vec<String>, d: char) -> (r: Vec<String>)
    ensures
        r.deep_view() == captures_for(lines.deep_view(), d),
{
    let ghost all = lines.deep_view();
    let mut out: Vec<String> = Vec::new();
    let mut i: usize = 0;
    proof {
        assert(all.skip(0) =~= all);
        assert(out.deep_view() + captures_for(all, d) =~= captures_for(all, d));
    }
    while i < lines.len()
        invariant
            i <= lines@.len(),
            captures_for(all, d) == out.deep_view() + captures_for(all.skip(i as int), d),
        decreases lines@.len() - i,
    {
        let ghost pre = out.deep_view();
        proof {
            assert(all.skip(i as int)[0] == all[i as int]);
            assert(all.skip(i as int).drop_first() =~= all.skip(i + 1));
        }
        match capture_line(lines[i].as_str(), d) {
            Some(c) => {
                out.push(c);
                proof {
                    assert(out.deep_view() =~= pre.push(choice_capture(all[i as int], d)->0));
                    assert(pre + (seq![choice_capture(all[i as int], d)->0] + captures_for(
                        all.skip(i + 1),
                        d,
                    )) =~= out.deep_view() + captures_for(all.skip(i + 1), d));
                }
            },
            None => {
            },
        }
        i = i + 1;
    }
    proof {
        assert(all.skip(i as int) =~= Seq::<Seq<char>>::empty());
        assert(out.deep_view() + Seq::<Seq<char>>::empty() =~= out.deep_view());
    }
    out
}

/// Accumulated state of one turn: the narrative and reasoning text so far,
/// the game state, and whether a terminal item has been seen.
#[verifier::ext_equal]
pub struct TurnAccV {
    pub text: Seq<char>,
    pub reasoning: Seq<char>,
    pub game: GameStateV,
    pub halted: bool,
}

/// A turn's starting accumulation.
pub open spec fn init_acc(g: GameStateV) -> TurnAccV {
    TurnAccV { text: Seq::empty(), reasoning: Seq::empty(), game: g, halted: false }
}

/// How one stream item advances a turn. Text and reasoning are accumulated
/// and forwarded; a tool call is announced, then either applied — with the
/// new state forwarded — or reported as an error, the turn going on either
/// way; the done chunk halts the turn silently; a decode error is reported
/// and halts it. After a halt, items change nothing.
pub open spec fn turn_step(acc: TurnAccV, item: StreamItemV) -> (TurnAccV, Seq<AgentMessageV>) {
    if acc.halted {
        (acc, Seq::empty())
    } else {
        match item {
            StreamItemV::Chunk(StreamChunkV::TextChunk(c)) => (
                TurnAccV { text: acc.text + c, ..acc },
                seq![AgentMessageV::TextChunk { content: c }],
            ),
            StreamItemV::Chunk(StreamChunkV::ReasoningChunk(c)) => (
                TurnAccV { reasoning: acc.reasoning + c, ..acc },
                seq![AgentMessageV::ReasoningChunk { content: c }],
            ),
            StreamItemV::Chunk(StreamChunkV::ToolCall { name, arguments }) => match tool_apply(
                name,
                arguments,
                acc.game,
            ) {
                Ok(g2) => (
                    TurnAccV { game: g2, ..acc },
                    seq![
                        AgentMessageV::ToolCall { name, args: arguments },
                        AgentMessageV::ToolResult { name, result: g2 },
                    ],
                ),
                Err(e) => (
                    acc,
                    seq![
                        AgentMessageV::ToolCall { name, args: arguments },
                        AgentMessageV::Error {
                            message: "Tool execution failed: "@ + tool_error_text(e),
                        },
                    ],
                ),
            },
            StreamItemV::Chunk(StreamChunkV::Done) => (
                TurnAccV { halted: true, ..acc },
                Seq::empty(),
            ),
            StreamItemV::DecodeError(m) => (
                TurnAccV { halted: true, ..acc },
                seq![AgentMessageV::Error { message: "Stream error: "@ + m }],
            ),
        }
    }
}

/// The whole turn: every item folded in order.
pub open spec fn turn_fold(acc: TurnAccV, items: Seq<StreamItemV>) -> (TurnAccV, Seq<AgentMessageV>)
    decreases items.len(),
{
    if items.len() == 0 {
        (acc, Seq::empty())
    } else {
        let first = turn_step(acc, items[0]);
        let rest = turn_fold(first.0, items.drop_first());
        (rest.0, first.1 + rest.1)
    }
}

proof fn lemma_turn_fold_push(acc: TurnAccV, s: Seq<StreamItemV>, x: StreamItemV)
    ensures
        turn_fold(acc, s.push(x)).0 == turn_step(turn_fold(acc, s).0, x).0,
        turn_fold(acc, s.push(x)).1 == turn_fold(acc, s).1 + turn_step(turn_fold(acc, s).0, x).1,
    decreases s.len(),
{
    if s.len() == 0 {
        assert(s.push(x)[0] == x);
        assert(s.push(x).drop_first() =~= Seq::<StreamItemV>::empty());
        assert(turn_step(acc, x).1 + Seq::<AgentMessageV>::empty() =~= turn_step(acc, x).1);
        assert(Seq::<AgentMessageV>::empty() + turn_step(acc, x).1 =~= turn_step(acc, x).1);
        assert(turn_fold(turn_step(acc, x).0, Seq::<StreamItemV>::empty()).0 == turn_step(
            acc,
            x,
        ).0);
        assert(turn_fold(turn_step(acc, x).0, Seq::<StreamItemV>::empty()).1
            == Seq::<AgentMessageV>::empty());
        assert(turn_fold(acc, s.push(x)).0 =~= turn_step(turn_fold(acc, s).0, x).0);
        assert(turn_fold(acc, s.push(x)).1 =~= turn_fold(acc, s).1 + turn_step(
            turn_fold(acc, s).0,
            x,
        ).1);
    } else {
        assert(s.push(x)[0] == s[0]);
        assert(s.push(x).drop_first() =~= s.drop_first().push(x));
        let first = turn_step(acc, s[0]);
        lemma_turn_fold_push(first.0, s.drop_first(), x);
        assert(first.1 + (turn_fold(first.0, s.drop_first()).1 + turn_step(
            turn_fold(acc, s).0,
            x,
        ).1) =~= (first.1 + turn_fold(first.0, s.drop_first()).1) + turn_step(
            turn_fold(acc, s).0,
            x,
        ).1);
        assert(turn_fold(acc, s.push(x)).0 =~= turn_step(turn_fold(acc, s).0, x).0);
        assert(turn_fold(acc, s.push(x)).1 =~= turn_fold(acc, s).1 + turn_step(
            turn_fold(acc, s).0,
            x,
        ).1);
    }
}

/// Law: the fold over stream items never produces a turn-complete event;
/// the one turn-complete event of a turn is appended after the fold, so it
/// is unique and last.
pub proof fn lemma_fold_no_turn_complete(acc: TurnAccV, items: Seq<StreamItemV>)
    ensures
        forall|k: int|
            0 <= k < turn_fold(acc, items).1.len() ==> !(turn_fold(acc, items).1[k]
                is TurnComplete),
    decreases items.len(),
{
    if items.len() > 0 {
        let first = turn_step(acc, items[0]);
        lemma_fold_no_turn_complete(first.0, items.drop_first());
        assert(forall|k: int|
            0 <= k < first.1.len() ==> !(#[trigger] first.1[k] is TurnComplete));
        assert(forall|k: int|
            first.1.len() <= k < turn_fold(acc, items).1.len() ==> turn_fold(acc, items).1[k]
                == turn_fold(first.0, items.drop_first()).1[k - first.1.len()]);
    }
}

/// The fixed dungeon-master instructions a session opens with.
pub open spec fn system_prompt_text() -> Seq<char> {
    "You are a creative and immersive dungeon master for a text-based adventure game.\n\nYour role is to:\n1. Generate vivid, engaging narrative text that brings the story to life\n2. Always provide exactly 3 distinct choices for the player at the end of your response\n3. Use the available tools to naturally update game state (time, location, outfit) as the story progresses\n4. Maintain consistency with the current game state and previous events\n5. Be creative but responsive to player actions\n\nAvailable tools:\n- set_time: Update time of day (Morning, Afternoon, Evening, Night)\n- set_location: Change the player's location\n- set_outfit: Update the player's outfit or equipment\n\nFormat your responses as narrative text followed by three choices prefixed with numbers:\n1. [First choice]\n2. [Second choice]  \n3. [Third choice]\n\nUse tools when appropriate (e.g., call set_time when time passes, set_location when moving to a new place).\n\nRemember: You are telling an interactive story. Make it memorable!"@
}

/// The user message one turn appends: the current state and the raw action.
pub open spec fn user_message_text(action: Seq<char>, g: GameStateV) -> Seq<char> {
    "Current State:\n- Time: "@ + g.time + "\n- Location: "@ + g.location + "\n- Outfit: "@
        + g.outfit + "\n\nPlayer Action: "@ + action
        + "\n\nContinue the story based on this action. Remember to provide exactly 3 choices and use tools to update state if appropriate."@
}

/// Model of an [`Agent`].
#[verifier::ext_equal]
pub struct AgentV {
    pub base_url: Seq<char>,
    pub model: Seq<char>,
    pub history: Seq<ChatMessageV>,
}

/// The agentic system that manages the game loop: the client handle and the
/// append-only conversation history of one session.
#[derive(Clone)]
pub struct Agent {
    client: OllamaClient,
    conversation_history: Vec<ChatMessage>,
}

impl View for Agent {
    type V = AgentV;

    closed spec fn view(&self) -> AgentV {
        AgentV {
            base_url: self.client.base_url@,
            model: self.client.model@,
            history: self.conversation_history.deep_view(),
        }
    }
}

impl Agent {
    /// An agent against the fixed default endpoint, with empty history.
    pub fn new() -> (r: Self)
        ensures
            r@.history == Seq::<ChatMessageV>::empty(),
            r@.base_url == "http://192.168.0.100:11434"@,
            r@.model == "qwen3:8b"@,
    {
        let r = Agent { client: OllamaClient::new(), conversation_history: Vec::new() };
        proof {
            assert(r@.history =~= Seq::<ChatMessageV>::empty());
        }
        r
    }

    /// An agent against a caller-chosen address, with empty history.
    pub fn with_ollama_url(base_url: String) -> (r: Self)
        ensures
            r@.history == Seq::<ChatMessageV>::empty(),
            r@.base_url == "http://"@ + base_url@,
            r@.model == "qwen3:8b"@,
    {
        let r = Agent { client: OllamaClient::with_url(base_url), conversation_history: Vec::new() };
        proof {
            assert(r@.history =~= Seq::<ChatMessageV>::empty());
        }
        r
    }

    /// The endpoint one turn's chat request goes to.
    pub fn chat_endpoint(&self) -> (r: String)
        ensures
            r@ == self@.base_url + "/api/chat"@,
    {
        self.client.chat_endpoint()
    }

    /// The model id sent with every request.
    pub fn model_id(&self) -> (r: String)
        ensures
            r@ == self@.model,
    {
        self.client.model.clone()
    }

    /// The conversation history as it stands.
    pub fn history(&self) -> (r: &Vec<ChatMessage>)
        ensures
            r.deep_view() == self@.history,
    {
        &self.conversation_history
    }

    /// The JSON body of one turn's chat request: the stored history, the
    /// new user message for this action against this state, and the three
    /// game tools.
    #[verifier::loop_isolation(false)]
    pub fn build_turn_request(&self, action: &str, state: &GameState) -> (r: String)
        ensures
            r@ == chat_request_text(
                self@.model,
                self@.history + seq![
                    ChatMessageV { role: "user"@, content: user_message_text(action@, state@) },
                ],
                game_tools_v(),
            ),
    {
        let mut messages: Vec<ChatMessage> = Vec::new();
        let mut i: usize = 0;
        while i < self.conversation_history.len()
            invariant
                i <= self.conversation_history@.len(),
                messages@.len() == i,
                forall|k: int| 0 <= k < i ==> messages@[k]@ == self.conversation_history@[k]@,
            decreases self.conversation_history@.len() - i,
        {
            messages.push(self.conversation_history[i].snapshot());
            i = i + 1;
        }
        messages.push(
            ChatMessage {
                role: ("user").to_owned(),
                content: self.format_user_message(action, state),
            },
        );
        let tools = create_game_tools();
        let r = self.client.chat_request_body(&messages, &tools);
        proof {
            assert(messages.deep_view() =~= self@.history + seq![
                ChatMessageV { role: "user"@, content: user_message_text(action@, state@) },
            ]);
        }
        r
    }

    /// Initialize a new game session: the history is cleared down to the one
    /// system message, and the fixed starting state comes back.
    pub fn start_new_game(&mut self) -> (r: GameState)
        ensures
            final(self)@.history == seq![
                ChatMessageV { role: "system"@, content: system_prompt_text() },
            ],
            final(self)@.base_url == old(self)@.base_url,
            final(self)@.model == old(self)@.model,
            r@ == initial_game_state(),
    {
        self.conversation_history.clear();
        self.conversation_history.push(
            ChatMessage { role: ("system").to_owned(), content: Self::create_system_prompt() },
        );
        proof {
            assert(self@.history =~= seq![
                ChatMessageV { role: "system"@, content: system_prompt_text() },
            ]);
        }
        GameState {
            time: ("Morning").to_owned(),
            location: ("Mysterious Room").to_owned(),
            outfit: ("Traveler's Cloak").to_owned(),
        }
    }

    /// The fixed dungeon-master instructions.
    pub fn create_system_prompt() -> (r: String)
        ensures
            r@ == system_prompt_text(),
    {
        (
        "You are a creative and immersive dungeon master for a text-based adventure game.\n\nYour role is to:\n1. Generate vivid, engaging narrative text that brings the story to life\n2. Always provide exactly 3 distinct choices for the player at the end of your response\n3. Use the available tools to naturally update game state (time, location, outfit) as the story progresses\n4. Maintain consistency with the current game state and previous events\n5. Be creative but responsive to player actions\n\nAvailable tools:\n- set_time: Update time of day (Morning, Afternoon, Evening, Night)\n- set_location: Change the player's location\n- set_outfit: Update the player's outfit or equipment\n\nFormat your responses as narrative text followed by three choices prefixed with numbers:\n1. [First choice]\n2. [Second choice]  \n3. [Third choice]\n\nUse tools when appropriate (e.g., call set_time when time passes, set_location when moving to a new place).\n\nRemember: You are telling an interactive story. Make it memorable!"
        ).to_owned()
    }

    /// The user message for one action against the current state.
    pub fn format_user_message(&self, action: &str, state: &GameState) -> (r: String)
        ensures
            r@ == user_message_text(action@, state@),
    {
        let mut m = ("Current State:\n- Time: ").to_owned();
        m.append(state.time.as_str());
        m.append("\n- Location: ");
        m.append(state.location.as_str());
        m.append("\n- Outfit: ");
        m.append(state.outfit.as_str());
        m.append("\n\nPlayer Action: ");
        m.append(action);
        m.append(
            "\n\nContinue the story based on this action. Remember to provide exactly 3 choices and use tools to update state if appropriate.",
        );
        proof {
            assert(m@ =~= user_message_text(action@, state@));
        }
        m
    }

    /// Execute one tool call against the game state.
    pub fn execute_tool(
        &self,
        tool_name: &str,
        arguments: &JsonValue,
        state: &mut GameState,
    ) -> (r: Result<(), ToolError>)
        ensures
            ({
                let applied = tool_apply(tool_name@, arguments@, old(state)@);
                match r {
                    Ok(_) => applied matches Ok(g2) && final(state)@ == g2,
                    Err(e) => applied matches Err(ev) && e@ == ev && final(state)@ == old(state)@,
                }
            }),
    {
        if str_eq(tool_name, "set_time") {
            match arguments.get("time") {
                Some(v) => match v.as_str() {
                    Some(t) => {
                        state.time = t.to_owned();
                        proof {
                            assert(state@ =~= (GameStateV { time: t@, ..old(state)@ }));
                        }
                        Ok(())
                    },
                    None => Err(ToolError::MissingArgument { field: ("time").to_owned() }),
                },
                None => Err(ToolError::MissingArgument { field: ("time").to_owned() }),
            }
        } else if str_eq(tool_name, "set_location") {
            match arguments.get("location") {
                Some(v) => match v.as_str() {
                    Some(l) => {
                        state.location = l.to_owned();
                        proof {
                            assert(state@ =~= (GameStateV { location: l@, ..old(state)@ }));
                        }
                        Ok(())
                    },
                    None => Err(ToolError::MissingArgument { field: ("location").to_owned() }),
                },
                None => Err(ToolError::MissingArgument { field: ("location").to_owned() }),
            }
        } else if str_eq(tool_name, "set_outfit") {
            match arguments.get("outfit") {
                Some(v) => match v.as_str() {
                    Some(o) => {
                        state.outfit = o.to_owned();
                        proof {
                            assert(state@ =~= (GameStateV { outfit: o@, ..old(state)@ }));
                        }
                        Ok(())
                    },
                    None => Err(ToolError::MissingArgument { field: ("outfit").to_owned() }),
                },
                None => Err(ToolError::MissingArgument { field: ("outfit").to_owned() }),
            }
        } else {
            Err(ToolError::UnknownTool { name: tool_name.to_owned() })
        }
    }

    /// Derive exactly three choices from narrative text.
    pub fn extract_choices(&self, text: &str) -> (r: Vec<String>)
        ensures
            r.deep_view() == choices_spec(text@),
            r@.len() == 3,
    {
        let lines = split_lines_exec(text);
        let ones = captures_exec(&lines, '1');
        let mut twos = captures_exec(&lines, '2');
        let mut threes = captures_exec(&lines, '3');
        let ghost dv1 = ones.deep_view();
        let ghost dv2 = twos.deep_view();
        let ghost dv3 = threes.deep_view();
        let mut all = ones;
        all.append(&mut twos);
        all.append(&mut threes);
        proof {
            assert(all.deep_view() =~= (dv1 + dv2) + dv3);
            assert((dv1 + dv2) + dv3 =~= dv1 + dv2 + dv3);
        }
        if all.len() < 3 {
            let mut fb: Vec<String> = Vec::new();
            fb.push(("Continue exploring").to_owned());
            fb.push(("Examine your surroundings carefully").to_owned());
            fb.push(("Take a different approach").to_owned());
            proof {
                assert(fb.deep_view() =~= fallback_choices());
            }
            return fb;
        }
        all.truncate(3);
        proof {
            assert(all.deep_view() =~= choices_spec(text@));
        }
        all
    }

    /// Run one player turn over the decoded stream items, in the order the
    /// decoder produced them. The game state is mutated by each applied tool
    /// call; every forwarded event comes back in order, closed by exactly
    /// one turn-complete event — always last, always with three choices —
    /// and the history gains the user message and, when any narrative text
    /// arrived, the assistant's reply.
    #[verifier::loop_isolation(false)]
    pub fn process_action(
        &mut self,
        action: &str,
        current_state: &mut GameState,
        turn_number: u32,
        items: &Vec<StreamItem>,
    ) -> (events: Vec<AgentMessage>)
        ensures
            ({
                let folded = turn_fold(init_acc(old(current_state)@), items.deep_view());
                let story = folded.0.text;
                &&& events.deep_view() == folded.1 + seq![
                    AgentMessageV::TurnComplete {
                        turn_number,
                        story_text: story,
                        choices: choices_spec(story),
                        game_state: folded.0.game,
                    },
                ]
                &&& final(current_state)@ == folded.0.game
                &&& final(self)@.history == old(self)@.history + seq![
                    ChatMessageV {
                        role: "user"@,
                        content: user_message_text(action@, old(current_state)@),
                    },
                ] + (if story.len() > 0 {
                    seq![ChatMessageV { role: "assistant"@, content: story }]
                } else {
                    Seq::<ChatMessageV>::empty()
                })
                &&& final(self)@.base_url == old(self)@.base_url
                &&& final(self)@.model == old(self)@.model
                &&& events.deep_view().len() == folded.1.len() + 1
                &&& events.deep_view().last() is TurnComplete
                &&& forall|k: int|
                    0 <= k < events.deep_view().len() - 1 ==> !(events.deep_view()[k]
                        is TurnComplete)
                &&& choices_spec(story).len() == 3
            }),
    {
        let user_message = self.format_user_message(action, current_state);
        self.conversation_history.push(
            ChatMessage { role: ("user").to_owned(), content: user_message },
        );
        let ghost history_after_user = self.conversation_history.deep_view();
        proof {
            assert(history_after_user =~= old(self)@.history + seq![
                ChatMessageV {
                    role: "user"@,
                    content: user_message_text(action@, old(current_state)@),
                },
            ]);
        }
        let ghost items_v = items.deep_view();
        let ghost start_acc = init_acc(old(current_state)@);
        let mut accumulated_text = String::new();
        let mut accumulated_reasoning = String::new();
        let mut events: Vec<AgentMessage> = Vec::new();
        let mut halted = false;
        let mut i: usize = 0;
        proof {
            assert(items_v.take(0) =~= Seq::<StreamItemV>::empty());
            assert(events.deep_view() =~= Seq::<AgentMessageV>::empty());
        }
        while i < items.len()
            invariant
                i <= items_v.len(),
                turn_fold(start_acc, items_v.take(i as int)).0 == (TurnAccV {
                    text: accumulated_text@,
                    reasoning: accumulated_reasoning@,
                    game: current_state@,
                    halted: halted,
                }),
                turn_fold(start_acc, items_v.take(i as int)).1 == events.deep_view(),
                self.conversation_history.deep_view() == history_after_user,
            decreases items_v.len() - i,
        {
            let ghost acc_pre = turn_fold(start_acc, items_v.take(i as int)).0;
            let ghost events_pre = events.deep_view();
            if !halted {
                match &items[i] {
                    StreamItem::Chunk(StreamChunk::TextChunk(content)) => {
                        accumulated_text.append(content.as_str());
                        events.push(AgentMessage::TextChunk { content: content.clone() });
                        proof {
                            assert(events.deep_view() =~= events_pre.push(
                                AgentMessageV::TextChunk { content: content@ },
                            ));
                        }
                    },
                    StreamItem::Chunk(StreamChunk::ReasoningChunk(content)) => {
                        accumulated_reasoning.append(content.as_str());
                        events.push(AgentMessage::ReasoningChunk { content: content.clone() });
                        proof {
                            assert(events.deep_view() =~= events_pre.push(
                                AgentMessageV::ReasoningChunk { content: content@ },
                            ));
                        }
                    },
                    StreamItem::Chunk(StreamChunk::ToolCall { name, arguments }) => {
                        events.push(
                            AgentMessage::ToolCall {
                                name: name.clone(),
                                args: arguments.duplicate(),
                            },
                        );
                        let ghost events_mid = events.deep_view();
                        proof {
                            assert(events_mid =~= events_pre.push(
                                AgentMessageV::ToolCall { name: name@, args: arguments@ },
                            ));
                        }
                        match self.execute_tool(name.as_str(), arguments, current_state) {
                            Ok(_) => {
                                events.push(
                                    AgentMessage::ToolResult {
                                        name: name.clone(),
                                        result: current_state.snapshot(),
                                    },
                                );
                                proof {
                                    assert(events.deep_view() =~= events_mid.push(
                                        AgentMessageV::ToolResult {
                                            name: name@,
                                            result: current_state@,
                                        },
                                    ));
                                }
                            },
                            Err(e) => {
                                let mut msg = ("Tool execution failed: ").to_owned();
                                msg.append(e.message().as_str());
                                events.push(AgentMessage::Error { message: msg });
                                proof {
                                    assert(events.deep_view() =~= events_mid.push(
                                        AgentMessageV::Error {
                                            message: "Tool execution failed: "@ + tool_error_text(
                                                e@,
                                            ),
                                        },
                                    ));
                                }
                            },
                        }
                    },
                    StreamItem::Chunk(StreamChunk::Done) => {
                        halted = true;
                    },
                    StreamItem::DecodeError(m) => {
                        let mut msg = ("Stream error: ").to_owned();
                        msg.append(m.as_str());
                        events.push(AgentMessage::Error { message: msg });
                        halted = true;
                        proof {
                            assert(events.deep_view() =~= events_pre.push(
                                AgentMessageV::Error { message: "Stream error: "@ + m@ },
                            ));
                        }
                    },
                }
            }
            i = i + 1;
            proof {
                lemma_turn_fold_push(start_acc, items_v.take(i - 1), items_v[i - 1]);
                assert(items_v.take(i as int) =~= items_v.take(i - 1).push(items_v[i - 1]));
                assert(items_v[i - 1] == items@[i - 1]@);
                let stepped = turn_step(acc_pre, items_v[i - 1]);
                assert(turn_fold(start_acc, items_v.take(i as int)).0 =~= stepped.0);
                assert(events_pre + stepped.1 =~= events.deep_view());
                assert(turn_fold(start_acc, items_v.take(i as int)).0 == (TurnAccV {
                    text: accumulated_text@,
                    reasoning: accumulated_reasoning@,
                    game: current_state@,
                    halted: halted,
                }));
            }
        }
        proof {
            assert(items_v.take(items_v.len() as int) =~= items_v);
        }
        let ghost folded = turn_fold(start_acc, items_v);
        if !accumulated_text.as_str().is_empty() {
            self.conversation_history.push(
                ChatMessage { role: ("assistant").to_owned(), content: accumulated_text.clone() },
            );
            proof {
                assert(self.conversation_history.deep_view() =~= history_after_user + seq![
                    ChatMessageV { role: "assistant"@, content: folded.0.text },
                ]);
            }
        }
        let choices = self.extract_choices(accumulated_text.as_str());
        let ghost events_pre_final = events.deep_view();
        events.push(
            AgentMessage::TurnComplete {
                turn_number,
                story_text: accumulated_text,
                choices,
                game_state: current_state.snapshot(),
            },
        );
        proof {
            assert(events.deep_view() =~= events_pre_final.push(
                AgentMessageV::TurnComplete {
                    turn_number,
                    story_text: folded.0.text,
                    choices: choices_spec(folded.0.text),
                    game_state: folded.0.game,
                },
            ));
            assert(events.deep_view() =~= folded.1 + seq![
                AgentMessageV::TurnComplete {
                    turn_number,
                    story_text: folded.0.text,
                    choices: choices_spec(folded.0.text),
                    game_state: folded.0.game,
                },
            ]);
            lemma_fold_no_turn_complete(start_acc, items_v);
            lemma_choices_are_three(folded.0.text);
            if folded.0.text.len() == 0 {
                assert(history_after_user + Seq::<ChatMessageV>::empty() =~= history_after_user);
            }
        }
        events
    }
}

} // verus!
