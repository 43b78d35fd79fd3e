//! Session-level turn history, saved-game listing and endpoint
//! configuration.
//!
//! The interface around the library keeps one running session: an ordered
//! store of completed turns served back by number, a stubbed synchronous
//! turn, a stubbed save list, and the address the chat endpoint is reached
//! at. The locking and command plumbing around these stay outside; the
//! store itself and what it serves are verified here.

use vstd::prelude::*;
use vstd::string::StringExecFns;
use crate::agent::{Agent, GameState, GameStateV, initial_game_state, system_prompt_text};
use crate::ollama::ChatMessageV;

verus! {

broadcast use vstd::std_specs::vec::group_vec_axioms;

/// One completed turn as stored and served to the interface.
#[derive(Debug, Clone)]
pub struct TurnData {
    pub turn_number: u32,
    pub story_text: String,
    pub choices: Vec<String>,
    pub game_state: GameState,
}

/// Model of a [`TurnData`].
#[verifier::ext_equal]
pub struct TurnDataV {
    pub turn_number: u32,
    pub story_text: Seq<char>,
    pub choices: Seq<Seq<char>>,
    pub game_state: GameStateV,
}

impl View for TurnData {
    type V = TurnDataV;

    open spec fn view(&self) -> TurnDataV {
        TurnDataV {
            turn_number: self.turn_number,
            story_text: self.story_text@,
            choices: self.choices.deep_view(),
            game_state: self.game_state@,
        }
    }
}

impl DeepView for TurnData {
    type V = TurnDataV;

    open spec fn deep_view(&self) -> TurnDataV {
        self.view()
    }
}

impl TurnData {
    /// A copy with the same model.
    pub fn snapshot(&self) -> (r: TurnData)
        ensures
            r@ == self@,
    {
        let mut choices: Vec<String> = Vec::new();
        let mut i: usize = 0;
        while i < self.choices.len()
            invariant
                i <= self.choices@.len(),
                choices@.len() == i,
                forall|k: int| 0 <= k < i ==> choices@[k]@ == self.choices@[k]@,
            decreases self.choices@.len() - i,
        {
            choices.push(self.choices[i].clone());
            i = i + 1;
        }
        proof {
            assert(choices.deep_view() =~= self.choices.deep_view());
        }
        let r = TurnData {
            turn_number: self.turn_number,
            story_text: self.story_text.clone(),
            choices,
            game_state: self.game_state.snapshot(),
        };
        proof {
            assert(r@ =~= self@);
        }
        r
    }
}

/// A saved game as listed to the interface.
#[derive(Debug, Clone)]
pub struct SaveGame {
    pub id: String,
    pub name: String,
    pub last_played: String,
    pub turn_count: u32,
}

/// Model of a [`SaveGame`].
#[verifier::ext_equal]
pub struct SaveGameV {
    pub id: Seq<char>,
    pub name: Seq<char>,
    pub last_played: Seq<char>,
    pub turn_count: u32,
}

impl View for SaveGame {
    type V = SaveGameV;

    open spec fn view(&self) -> SaveGameV {
        SaveGameV {
            id: self.id@,
            name: self.name@,
            last_played: self.last_played@,
            turn_count: self.turn_count,
        }
    }
}

impl DeepView for SaveGame {
    type V = SaveGameV;

    open spec fn deep_view(&self) -> SaveGameV {
        self.view()
    }
}

/// Endpoint configuration: where the inference server is reached.
#[derive(Debug, Clone)]
pub struct OllamaConfig {
    pub ip_address: String,
}

impl OllamaConfig {
    /// The default address.
    pub fn new() -> (r: Self)
        ensures
            r.ip_address@ == "192.168.0.100:11434"@,
    {
        OllamaConfig { ip_address: ("192.168.0.100:11434").to_owned() }
    }

    /// Point the configuration at another address.
    pub fn set_ip(&mut self, ip_address: String)
        ensures
            final(self).ip_address@ == ip_address@,
    {
        self.ip_address = ip_address;
    }
}

/// The opening turn every new game starts with.
pub open spec fn opening_turn_v() -> TurnDataV {
    TurnDataV {
        turn_number: 0,
        story_text: "You wake up in a dimly lit room. The air smells of old parchment and something... magical. Three doors stand before you, each humming with a different energy."@,
        choices: seq![
            "Open the door radiating blue light"@,
            "Open the door with ancient runes carved into it"@,
            "Open the plain wooden door"@,
        ],
        game_state: initial_game_state(),
    }
}

/// The stubbed turn the synchronous endpoint serves for an action.
pub open spec fn stub_turn_v(turn_number: u32, action: Seq<char>) -> TurnDataV {
    TurnDataV {
        turn_number,
        story_text: "You chose: '"@ + action
            + "'. The path unfolds before you, revealing new mysteries and dangers. What will you do next?"@,
        choices: seq![
            "Investigate the strange sound"@,
            "Continue forward cautiously"@,
            "Rest and assess your surroundings"@,
        ],
        game_state: GameStateV {
            time: "Afternoon"@,
            location: "Enchanted Corridor"@,
            outfit: "Traveler's Cloak"@,
        },
    }
}

/// The turn history of one running game session.
pub struct SessionStore {
    pub turns: Vec<TurnData>,
}

impl View for SessionStore {
    type V = Seq<TurnDataV>;

    open spec fn view(&self) -> Seq<TurnDataV> {
        self.turns.deep_view()
    }
}

impl SessionStore {
    /// An empty store.
    pub fn new() -> (r: Self)
        ensures
            r@ == Seq::<TurnDataV>::empty(),
    {
        let r = SessionStore { turns: Vec::new() };
        proof {
            assert(r@ =~= Seq::<TurnDataV>::empty());
        }
        r
    }

    /// Start a new game: the history is cleared, the agent reseeded, the
    /// opening turn stored, and the session id and fresh state handed back.
    pub fn start_new_game(&mut self, agent: &mut Agent) -> (r: (String, GameState))
        ensures
            final(self)@ == seq![opening_turn_v()],
            r.0@ == "session_stub_001"@,
            r.1@ == initial_game_state(),
            final(agent)@.history == seq![
                ChatMessageV { role: "system"@, content: system_prompt_text() },
            ],
            final(agent)@.base_url == old(agent)@.base_url,
            final(agent)@.model == old(agent)@.model,
    {
        self.turns.clear();
        let state = agent.start_new_game();
        let mut choices: Vec<String> = Vec::new();
        choices.push(("Open the door radiating blue light").to_owned());
        choices.push(("Open the door with ancient runes carved into it").to_owned());
        choices.push(("Open the plain wooden door").to_owned());
        self.turns.push(
            TurnData {
                turn_number: 0,
                story_text: (
                "You wake up in a dimly lit room. The air smells of old parchment and something... magical. Three doors stand before you, each humming with a different energy."
                ).to_owned(),
                choices,
                game_state: state.snapshot(),
            },
        );
        proof {
            assert(self@.len() == 1);
            assert(self@[0].choices =~= opening_turn_v().choices);
            assert(self@[0] =~~= opening_turn_v());
            assert(self@ =~~= seq![opening_turn_v()]);
        }
        (("session_stub_001").to_owned(), state)
    }

    /// Serve a stored turn by its number; an unknown number is reported.
    pub fn get_turn(&self, turn_number: u32) -> (r: Result<TurnData, String>)
        ensures
            turn_number < self@.len() ==> (r matches Ok(t) && t@ == self@[turn_number as int]),
            turn_number >= self@.len() ==> (r matches Err(m) && m@ == "Turn not found"@),
    {
        if (turn_number as usize) < self.turns.len() {
            Ok(self.turns[turn_number as usize].snapshot())
        } else {
            Err(("Turn not found").to_owned())
        }
    }

    /// The stubbed synchronous turn: acknowledge the action, store and
    /// serve a fixed continuation numbered after the stored turns.
    pub fn submit_action(&mut self, action: &str) -> (r: TurnData)
        requires
            old(self)@.len() < u32::MAX,
        ensures
            final(self)@ == old(self)@ + seq![stub_turn_v(old(self)@.len() as u32, action@)],
            r@ == stub_turn_v(old(self)@.len() as u32, action@),
    {
        let current_turn = self.turns.len() as u32;
        let mut story = ("You chose: '").to_owned();
        story.append(action);
        story.append(
            "'. The path unfolds before you, revealing new mysteries and dangers. What will you do next?",
        );
        let mut choices: Vec<String> = Vec::new();
        choices.push(("Investigate the strange sound").to_owned());
        choices.push(("Continue forward cautiously").to_owned());
        choices.push(("Rest and assess your surroundings").to_owned());
        let turn = TurnData {
            turn_number: current_turn,
            story_text: story,
            choices,
            game_state: GameState {
                time: ("Afternoon").to_owned(),
                location: ("Enchanted Corridor").to_owned(),
                outfit: ("Traveler's Cloak").to_owned(),
            },
        };
        let r = turn.snapshot();
        self.turns.push(turn);
        proof {
            assert(r@ =~= stub_turn_v(old(self)@.len() as u32, action@));
            assert(self@ =~= old(self)@ + seq![stub_turn_v(old(self)@.len() as u32, action@)]);
        }
        r
    }

    /// Record one completed turn.
    pub fn record_turn(&mut self, turn: TurnData)
        ensures
            final(self)@ == old(self)@ + seq![turn@],
    {
        let ghost tv = turn@;
        self.turns.push(turn);
        proof {
            assert(self@ =~= old(self)@ + seq![tv]);
        }
    }

    /// How many turns are stored.
    pub fn turn_count(&self) -> (r: usize)
        ensures
            r == self@.len(),
    {
        self.turns.len()
    }
}

/// The two stubbed saved games.
pub open spec fn saves_v() -> Seq<SaveGameV> {
    seq![
        SaveGameV {
            id: "save_001"@,
            name: "The Forest Adventure"@,
            last_played: "2025-10-15"@,
            turn_count: 23,
        },
        SaveGameV {
            id: "save_002"@,
            name: "Castle Siege"@,
            last_played: "2025-10-14"@,
            turn_count: 15,
        },
    ]
}

/// The stubbed list of saved games.
pub fn list_saves() -> (r: Vec<SaveGame>)
    ensures
        r.deep_view() == saves_v(),
{
    let mut saves: Vec<SaveGame> = Vec::new();
    saves.push(
        SaveGame {
            id: ("save_001").to_owned(),
            name: ("The Forest Adventure").to_owned(),
            last_played: ("2025-10-15").to_owned(),
            turn_count: 23,
        },
    );
    saves.push(
        SaveGame {
            id: ("save_002").to_owned(),
            name: ("Castle Siege").to_owned(),
            last_played: ("2025-10-14").to_owned(),
            turn_count: 15,
        },
    );
    proof {
        assert(saves.deep_view() =~= saves_v());
    }
    saves
}

} // verus!
