//! Chat client state: endpoint configuration and conversation messages.
//!
//! The HTTP exchange itself is transport and lives outside the library; what
//! is here is everything the exchange is built from — the endpoint address,
//! the model id, and the message history — together with the tool
//! definitions the model is offered (see [`create_game_tools`]).

use vstd::prelude::*;
use vstd::string::StrSliceExecFns;
use vstd::string::StringExecFns;
use crate::json::{JsonValue, JVal, json_str_text, json_text, jv_fields, jv_seq, lemma_jv_fields,
    lemma_jv_seq, write_json_object, write_json_string};

verus! {

broadcast use vstd::std_specs::vec::group_vec_axioms;

/// One chat message of the conversation history.
#[derive(Debug, Clone)]
pub struct ChatMessage {
    pub role: String,
    pub content: String,
}

/// Model of a [`ChatMessage`].
#[verifier::ext_equal]
pub struct ChatMessageV {
    pub role: Seq<char>,
    pub content: Seq<char>,
}

impl View for ChatMessage {
    type V = ChatMessageV;

    open spec fn view(&self) -> ChatMessageV {
        ChatMessageV { role: self.role@, content: self.content@ }
    }
}

impl DeepView for ChatMessage {
    type V = ChatMessageV;

    open spec fn deep_view(&self) -> ChatMessageV {
        self.view()
    }
}

impl ChatMessage {
    /// A copy with the same model.
    pub fn snapshot(&self) -> (r: ChatMessage)
        ensures
            r@ == self@,
    {
        ChatMessage { role: self.role.clone(), content: self.content.clone() }
    }
}

/// Client handle for the chat endpoint: the address and the model id. The
/// transport that carries the request is outside the library; callers take
/// [`OllamaClient::chat_endpoint`] and the request parts and do the exchange.
#[derive(Debug, Clone)]
pub struct OllamaClient {
    pub base_url: String,
    pub model: String,
}

impl OllamaClient {
    /// A client against the fixed default endpoint.
    pub fn new() -> (r: Self)
        ensures
            r.base_url@ == "http://192.168.0.100:11434"@,
            r.model@ == "qwen3:8b"@,
    {
        OllamaClient {
            base_url: ("http://192.168.0.100:11434").to_owned(),
            model: ("qwen3:8b").to_owned(),
        }
    }

    /// A client against a caller-chosen address, given without the scheme.
    pub fn with_url(base_url: String) -> (r: Self)
        ensures
            r.base_url@ == "http://"@ + base_url@,
            r.model@ == "qwen3:8b"@,
    {
        let mut url = ("http://").to_owned();
        url.append(base_url.as_str());
        OllamaClient { base_url: url, model: ("qwen3:8b").to_owned() }
    }

    /// The chat endpoint the request goes to.
    pub fn chat_endpoint(&self) -> (r: String)
        ensures
            r@ == self.base_url@ + "/api/chat"@,
    {
        let mut url = self.base_url.clone();
        url.append("/api/chat");
        url
    }
}

/// A tool's parameter schema: the required field names and a descriptor for
/// each field, carried as a JSON value.
#[derive(Debug)]
pub struct ToolParameters {
    pub param_type: String,
    pub required: Vec<String>,
    pub properties: Vec<(String, JsonValue)>,
}

/// Model of a [`ToolParameters`].
#[verifier::ext_equal]
pub struct ToolParametersV {
    pub param_type: Seq<char>,
    pub required: Seq<Seq<char>>,
    pub properties: Seq<(Seq<char>, JVal)>,
}

impl View for ToolParameters {
    type V = ToolParametersV;

    open spec fn view(&self) -> ToolParametersV {
        ToolParametersV {
            param_type: self.param_type@,
            required: self.required.deep_view(),
            properties: jv_fields(self.properties@),
        }
    }
}

/// One tool's name, description and parameter schema.
#[derive(Debug)]
pub struct ToolFunction {
    pub name: String,
    pub description: String,
    pub parameters: ToolParameters,
}

/// Model of a [`ToolFunction`].
#[verifier::ext_equal]
pub struct ToolFunctionV {
    pub name: Seq<char>,
    pub description: Seq<char>,
    pub parameters: ToolParametersV,
}

impl View for ToolFunction {
    type V = ToolFunctionV;

    open spec fn view(&self) -> ToolFunctionV {
        ToolFunctionV {
            name: self.name@,
            description: self.description@,
            parameters: self.parameters@,
        }
    }
}

/// A tool definition as the chat endpoint takes it.
#[derive(Debug)]
pub struct Tool {
    pub tool_type: String,
    pub function: ToolFunction,
}

/// Model of a [`Tool`].
#[verifier::ext_equal]
pub struct ToolV {
    pub tool_type: Seq<char>,
    pub function: ToolFunctionV,
}

impl View for Tool {
    type V = ToolV;

    open spec fn view(&self) -> ToolV {
        ToolV { tool_type: self.tool_type@, function: self.function@ }
    }
}

impl DeepView for Tool {
    type V = ToolV;

    open spec fn deep_view(&self) -> ToolV {
        self.view()
    }
}

/// The descriptor of a plain string parameter.
pub open spec fn string_prop_v(description: Seq<char>) -> JVal {
    JVal::Object(
        seq![("type"@, JVal::Str("string"@)), ("description"@, JVal::Str(description))],
    )
}

/// The descriptor of the time parameter, with its intended enumeration.
pub open spec fn time_prop_v() -> JVal {
    JVal::Object(
        seq![
            ("type"@, JVal::Str("string"@)),
            ("description"@, JVal::Str("The time of day"@)),
            (
                "enum"@,
                JVal::Array(
                    seq![
                        JVal::Str("Morning"@),
                        JVal::Str("Afternoon"@),
                        JVal::Str("Evening"@),
                        JVal::Str("Night"@),
                    ],
                ),
            ),
        ],
    )
}

/// The model of one game tool: type `function`, one required string field.
pub open spec fn game_tool_v(
    name: Seq<char>,
    description: Seq<char>,
    field: Seq<char>,
    prop: JVal,
) -> ToolV {
    ToolV {
        tool_type: "function"@,
        function: ToolFunctionV {
            name,
            description,
            parameters: ToolParametersV {
                param_type: "object"@,
                required: seq![field],
                properties: seq![(field, prop)],
            },
        },
    }
}

/// The three game tools, in order: set_time, set_location, set_outfit.
pub open spec fn game_tools_v() -> Seq<ToolV> {
    seq![
        game_tool_v(
            "set_time"@,
            "Update the time of day in the game world"@,
            "time"@,
            time_prop_v(),
        ),
        game_tool_v(
            "set_location"@,
            "Change the player's current location"@,
            "location"@,
            string_prop_v("The name of the new location"@),
        ),
        game_tool_v(
            "set_outfit"@,
            "Change the player's outfit or equipment"@,
            "outfit"@,
            string_prop_v("Description of the outfit or equipment"@),
        ),
    ]
}

fn string_prop(description: &str) -> (r: JsonValue)
    ensures
        r@ == string_prop_v(description@),
{
    let mut fields: Vec<(String, JsonValue)> = Vec::new();
    fields.push((("type").to_owned(), JsonValue::Str(("string").to_owned())));
    fields.push((("description").to_owned(), JsonValue::Str(description.to_owned())));
    let ghost fseq = fields@;
    let r = JsonValue::Object(fields);
    proof {
        lemma_jv_fields(fseq);
        assert(jv_fields(fseq) =~= seq![
            ("type"@, JVal::Str("string"@)),
            ("description"@, JVal::Str(description@)),
        ]);
    }
    r
}

fn time_prop() -> (r: JsonValue)
    ensures
        r@ == time_prop_v(),
{
    let mut times: Vec<JsonValue> = Vec::new();
    times.push(JsonValue::Str(("Morning").to_owned()));
    times.push(JsonValue::Str(("Afternoon").to_owned()));
    times.push(JsonValue::Str(("Evening").to_owned()));
    times.push(JsonValue::Str(("Night").to_owned()));
    let ghost tseq = times@;
    let mut fields: Vec<(String, JsonValue)> = Vec::new();
    fields.push((("type").to_owned(), JsonValue::Str(("string").to_owned())));
    fields.push(
        (("description").to_owned(), JsonValue::Str(("The time of day").to_owned())),
    );
    fields.push((("enum").to_owned(), JsonValue::Array(times)));
    let ghost fseq = fields@;
    let r = JsonValue::Object(fields);
    proof {
        lemma_jv_seq(tseq);
        assert(jv_seq(tseq) =~= seq![
            JVal::Str("Morning"@),
            JVal::Str("Afternoon"@),
            JVal::Str("Evening"@),
            JVal::Str("Night"@),
        ]);
        lemma_jv_fields(fseq);
        assert(jv_fields(fseq) =~= seq![
            ("type"@, JVal::Str("string"@)),
            ("description"@, JVal::Str("The time of day"@)),
            ("enum"@, JVal::Array(jv_seq(tseq))),
        ]);
    }
    r
}

fn make_game_tool(name: &str, description: &str, field: &str, prop: JsonValue) -> (r: Tool)
    ensures
        r@ == game_tool_v(name@, description@, field@, prop@),
{
    let ghost prop_v = prop@;
    let mut required: Vec<String> = Vec::new();
    required.push(field.to_owned());
    let ghost req = required.deep_view();
    let mut properties: Vec<(String, JsonValue)> = Vec::new();
    properties.push((field.to_owned(), prop));
    let ghost pseq = properties@;
    let r = Tool {
        tool_type: ("function").to_owned(),
        function: ToolFunction {
            name: name.to_owned(),
            description: description.to_owned(),
            parameters: ToolParameters {
                param_type: ("object").to_owned(),
                required,
                properties,
            },
        },
    };
    proof {
        assert(req =~= seq![field@]);
        lemma_jv_fields(pseq);
        assert(jv_fields(pseq) =~= seq![(field@, prop_v)]);
    }
    r
}

/// Comma-separated texts after the first.
pub open spec fn more_texts(parts: Seq<Seq<char>>) -> Seq<char>
    decreases parts.len(),
{
    if parts.len() == 0 {
        Seq::empty()
    } else {
        ","@ + parts[0] + more_texts(parts.drop_first())
    }
}

/// Texts joined with commas.
pub open spec fn joined_texts(parts: Seq<Seq<char>>) -> Seq<char> {
    if parts.len() == 0 {
        Seq::empty()
    } else {
        parts[0] + more_texts(parts.drop_first())
    }
}

proof fn lemma_more_texts_push(parts: Seq<Seq<char>>, x: Seq<char>)
    ensures
        more_texts(parts.push(x)) == more_texts(parts) + ","@ + x,
    decreases parts.len(),
{
    if parts.len() == 0 {
        assert(parts.push(x)[0] == x);
        assert(parts.push(x).drop_first() =~= Seq::<Seq<char>>::empty());
        assert(","@ + x + more_texts(Seq::<Seq<char>>::empty()) =~= ","@ + x);
        assert(more_texts(parts) + ","@ + x =~= ","@ + x);
    } else {
        assert(parts.push(x)[0] == parts[0]);
        assert(parts.push(x).drop_first() =~= parts.drop_first().push(x));
        lemma_more_texts_push(parts.drop_first(), x);
        assert(","@ + parts[0] + (more_texts(parts.drop_first()) + ","@ + x) =~= (","@ + parts[0]
            + more_texts(parts.drop_first())) + ","@ + x);
    }
}

proof fn lemma_joined_take_next(parts: Seq<Seq<char>>, k: int)
    requires
        0 <= k < parts.len(),
    ensures
        joined_texts(parts.take(k + 1)) == if k == 0 {
            parts[0]
        } else {
            joined_texts(parts.take(k)) + ","@ + parts[k]
        },
{
    assert(parts.take(k + 1) =~= parts.take(k).push(parts[k]));
    let t = parts.take(k);
    if k == 0 {
        assert(t.push(parts[0])[0] == parts[0]);
        assert(t.push(parts[0]).drop_first() =~= Seq::<Seq<char>>::empty());
        assert(parts[0] + more_texts(Seq::<Seq<char>>::empty()) =~= parts[0]);
    } else {
        assert(t.push(parts[k])[0] == t[0]);
        assert(t.push(parts[k]).drop_first() =~= t.drop_first().push(parts[k]));
        lemma_more_texts_push(t.drop_first(), parts[k]);
        assert(t[0] + (more_texts(t.drop_first()) + ","@ + parts[k]) =~= (t[0] + more_texts(
            t.drop_first(),
        )) + ","@ + parts[k]);
    }
}

/// The wire text of an array of strings.
pub open spec fn strings_text(items: Seq<Seq<char>>) -> Seq<char> {
    "["@ + joined_texts(items.map_values(|s: Seq<char>| json_str_text(s))) + "]"@
}

/// The wire text of one chat message, fields in order.
pub open spec fn message_text(m: ChatMessageV) -> Seq<char> {
    "{\"role\":"@ + json_str_text(m.role) + ",\"content\":"@ + json_str_text(m.content) + "}"@
}

/// The wire text of one tool definition, fields in order.
pub open spec fn tool_text(t: ToolV) -> Seq<char> {
    "{\"type\":"@ + json_str_text(t.tool_type) + ",\"function\":{\"name\":"@ + json_str_text(
        t.function.name,
    ) + ",\"description\":"@ + json_str_text(t.function.description)
        + ",\"parameters\":{\"type\":"@ + json_str_text(t.function.parameters.param_type)
        + ",\"required\":"@ + strings_text(t.function.parameters.required) + ",\"properties\":"@
        + json_text(JVal::Object(t.function.parameters.properties)) + "}}}"@
}

/// The JSON body of one streaming chat request: the model id, the messages
/// in order, the stream flag, and the tools — the tools field omitted when
/// there are none.
pub open spec fn chat_request_text(
    model: Seq<char>,
    ms: Seq<ChatMessageV>,
    ts: Seq<ToolV>,
) -> Seq<char> {
    "{\"model\":"@ + json_str_text(model) + ",\"messages\":["@ + joined_texts(
        ms.map_values(|m: ChatMessageV| message_text(m)),
    ) + "],\"stream\":true"@ + (if ts.len() == 0 {
        Seq::<char>::empty()
    } else {
        ",\"tools\":["@ + joined_texts(ts.map_values(|t: ToolV| tool_text(t))) + "]"@
    }) + "}"@
}

/// Append the wire text of an array of strings.
#[verifier::loop_isolation(false)]
fn write_strings(items: &Vec<String>, out: &mut String)
    ensures
        final(out)@ == old(out)@ + strings_text(items.deep_view()),
{
    out.append("[");
    let ghost base = out@;
    let ghost parts = items.deep_view().map_values(|s: Seq<char>| json_str_text(s));
    proof {
        assert(parts.take(0) =~= Seq::<Seq<char>>::empty());
        assert(base + joined_texts(parts.take(0)) =~= base);
    }
    let mut k: usize = 0;
    while k < items.len()
        invariant
            k <= items@.len(),
            out@ == base + joined_texts(parts.take(k as int)),
        decreases items@.len() - k,
    {
        if k > 0 {
            out.append(",");
        }
        write_json_string(items[k].as_str(), out);
        k = k + 1;
        proof {
            lemma_joined_take_next(parts, k - 1);
            assert(parts[k - 1] == json_str_text(items@[k - 1]@));
            assert(out@ =~= base + joined_texts(parts.take(k as int)));
        }
    }
    proof {
        assert(parts.take(items@.len() as int) =~= parts);
    }
    out.append("]");
    proof {
        assert(out@ =~= old(out)@ + strings_text(items.deep_view()));
    }
}

/// Append the wire text of one chat message.
fn write_message(m: &ChatMessage, out: &mut String)
    ensures
        final(out)@ == old(out)@ + message_text(m@),
{
    out.append("{\"role\":");
    write_json_string(m.role.as_str(), out);
    out.append(",\"content\":");
    write_json_string(m.content.as_str(), out);
    out.append("}");
    proof {
        assert(out@ =~= old(out)@ + message_text(m@));
    }
}

/// Append the wire text of one tool definition.
fn write_tool(t: &Tool, out: &mut String)
    ensures
        final(out)@ == old(out)@ + tool_text(t@),
{
    out.append("{\"type\":");
    write_json_string(t.tool_type.as_str(), out);
    out.append(",\"function\":{\"name\":");
    write_json_string(t.function.name.as_str(), out);
    out.append(",\"description\":");
    write_json_string(t.function.description.as_str(), out);
    out.append(",\"parameters\":{\"type\":");
    write_json_string(t.function.parameters.param_type.as_str(), out);
    out.append(",\"required\":");
    write_strings(&t.function.parameters.required, out);
    out.append(",\"properties\":");
    write_json_object(&t.function.parameters.properties, out);
    out.append("}}}");
    proof {
        assert(out@ =~= old(out)@ + tool_text(t@));
    }
}

/// Append the comma-joined wire texts of the messages.
#[verifier::loop_isolation(false)]
fn write_joined_messages(messages: &Vec<ChatMessage>, out: &mut String)
    ensures
        final(out)@ == old(out)@ + joined_texts(
            messages.deep_view().map_values(|m: ChatMessageV| message_text(m)),
        ),
{
    let ghost base = out@;
    let ghost parts = messages.deep_view().map_values(|m: ChatMessageV| message_text(m));
    proof {
        assert(parts.take(0) =~= Seq::<Seq<char>>::empty());
        assert(base + joined_texts(parts.take(0)) =~= base);
    }
    let mut k: usize = 0;
    while k < messages.len()
        invariant
            k <= messages@.len(),
            out@ == base + joined_texts(parts.take(k as int)),
        decreases messages@.len() - k,
    {
        if k > 0 {
            out.append(",");
        }
        write_message(&messages[k], out);
        k = k + 1;
        proof {
            lemma_joined_take_next(parts, k - 1);
            assert(parts[k - 1] == message_text(messages@[k - 1]@));
            assert(out@ =~= base + joined_texts(parts.take(k as int)));
        }
    }
    proof {
        assert(parts.take(messages@.len() as int) =~= parts);
    }
}

/// Append the comma-joined wire texts of the tools.
#[verifier::loop_isolation(false)]
#[verifier::rlimit(80)]
fn write_joined_tools(tools: &Vec<Tool>, out: &mut String)
    ensures
        final(out)@ == old(out)@ + joined_texts(
            tools.deep_view().map_values(|t: ToolV| tool_text(t)),
        ),
{
    let ghost base = out@;
    let ghost parts = tools.deep_view().map_values(|t: ToolV| tool_text(t));
    proof {
        assert(parts.take(0) =~= Seq::<Seq<char>>::empty());
        assert(base + joined_texts(parts.take(0)) =~= base);
    }
    let mut j: usize = 0;
    while j < tools.len()
        invariant
            j <= tools@.len(),
            out@ == base + joined_texts(parts.take(j as int)),
        decreases tools@.len() - j,
    {
        if j > 0 {
            out.append(",");
        }
        write_tool(&tools[j], out);
        j = j + 1;
        proof {
            lemma_joined_take_next(parts, j - 1);
            assert(parts[j - 1] == tool_text(tools@[j - 1]@));
            assert(out@ =~= base + joined_texts(parts.take(j as int)));
        }
    }
    proof {
        assert(parts.take(tools@.len() as int) =~= parts);
    }
}

impl OllamaClient {
    /// The JSON body of one streaming chat request against this client's
    /// model, carrying the given messages and tools.
    #[verifier::rlimit(60)]
    pub fn chat_request_body(&self, messages: &Vec<ChatMessage>, tools: &Vec<Tool>) -> (r: String)
        ensures
            r@ == chat_request_text(self.model@, messages.deep_view(), tools.deep_view()),
    {
        let mut out = ("{\"model\":").to_owned();
        write_json_string(self.model.as_str(), &mut out);
        out.append(",\"messages\":[");
        write_joined_messages(messages, &mut out);
        out.append("],\"stream\":true");
        if tools.len() > 0 {
            out.append(",\"tools\":[");
            write_joined_tools(tools, &mut out);
            out.append("]");
        }
        out.append("}");
        proof {
            assert(out@ =~= chat_request_text(
                self.model@,
                messages.deep_view(),
                tools.deep_view(),
            ));
        }
        out
    }
}

/// The fixed tool set offered with every chat request: set_time,
/// set_location and set_outfit, each demanding its one string argument.
pub fn create_game_tools() -> (r: Vec<Tool>)
    ensures
        r.deep_view() == game_tools_v(),
{
    let mut tools: Vec<Tool> = Vec::new();
    tools.push(
        make_game_tool(
            "set_time",
            "Update the time of day in the game world",
            "time",
            time_prop(),
        ),
    );
    tools.push(
        make_game_tool(
            "set_location",
            "Change the player's current location",
            "location",
            string_prop("The name of the new location"),
        ),
    );
    tools.push(
        make_game_tool(
            "set_outfit",
            "Change the player's outfit or equipment",
            "outfit",
            string_prop("Description of the outfit or equipment"),
        ),
    );
    proof {
        assert(tools.deep_view() =~= game_tools_v());
    }
    tools
}

} // verus!
