//! NDJSON stream decoder.
//!
//! The chat endpoint streams one JSON envelope per line, but the transport
//! hands bytes over at arbitrary boundaries, so the decoder buffers until a
//! newline, decodes the completed line, and classifies what the envelope
//! carries: prose, reasoning text, a tool call, or the end of the stream. A
//! malformed line ends the stream with a decode error; there is no
//! resynchronization.

use vstd::prelude::*;
use vstd::string::StrSliceExecFns;
use crate::json::{JsonValue, JVal, json_of, jv_get, jv_as_array, jv_seq, lemma_jv_seq, parse_json};
use crate::ollama::{ChatMessage, ChatMessageV};
use crate::text::{has_prefix, contains_sub, str_starts_with, str_contains};

verus! {

broadcast use vstd::std_specs::vec::group_vec_axioms;

/// One streamed envelope, shaped as the chat endpoint sends it.
#[derive(Debug)]
pub struct OllamaStreamChunk {
    pub model: String,
    pub created_at: String,
    pub message: Option<ChatMessage>,
    pub done: bool,
    pub done_reason: Option<String>,
}

/// Model of an [`OllamaStreamChunk`].
#[verifier::ext_equal]
pub struct OllamaStreamChunkV {
    pub model: Seq<char>,
    pub created_at: Seq<char>,
    pub message: Option<ChatMessageV>,
    pub done: bool,
    pub done_reason: Option<Seq<char>>,
}

impl View for OllamaStreamChunk {
    type V = OllamaStreamChunkV;

    open spec fn view(&self) -> OllamaStreamChunkV {
        OllamaStreamChunkV {
            model: self.model@,
            created_at: self.created_at@,
            message: match self.message {
                Some(m) => Some(m@),
                None => None,
            },
            done: self.done,
            done_reason: match self.done_reason {
                Some(r) => Some(r@),
                None => None,
            },
        }
    }
}

/// One decoded protocol chunk.
#[derive(Debug)]
pub enum StreamChunk {
    TextChunk(String),
    ReasoningChunk(String),
    ToolCall { name: String, arguments: JsonValue },
    Done,
}

/// Model of a [`StreamChunk`].
#[verifier::ext_equal]
pub enum StreamChunkV {
    TextChunk(Seq<char>),
    ReasoningChunk(Seq<char>),
    ToolCall { name: Seq<char>, arguments: JVal },
    Done,
}

impl View for StreamChunk {
    type V = StreamChunkV;

    open spec fn view(&self) -> StreamChunkV {
        match self {
            StreamChunk::TextChunk(s) => StreamChunkV::TextChunk(s@),
            StreamChunk::ReasoningChunk(s) => StreamChunkV::ReasoningChunk(s@),
            StreamChunk::ToolCall { name, arguments } => StreamChunkV::ToolCall {
                name: name@,
                arguments: arguments@,
            },
            StreamChunk::Done => StreamChunkV::Done,
        }
    }
}

/// One item the decoder hands its consumer: a protocol chunk, or a terminal
/// decode failure.
#[derive(Debug)]
pub enum StreamItem {
    Chunk(StreamChunk),
    DecodeError(String),
}

/// Model of a [`StreamItem`].
#[verifier::ext_equal]
pub enum StreamItemV {
    Chunk(StreamChunkV),
    DecodeError(Seq<char>),
}

impl View for StreamItem {
    type V = StreamItemV;

    open spec fn view(&self) -> StreamItemV {
        match self {
            StreamItem::Chunk(c) => StreamItemV::Chunk(c@),
            StreamItem::DecodeError(m) => StreamItemV::DecodeError(m@),
        }
    }
}

impl DeepView for StreamItem {
    type V = StreamItemV;

    open spec fn deep_view(&self) -> StreamItemV {
        self@
    }
}

/// What the decoder does with one completed line: emit a chunk, emit
/// nothing, or fail.
pub enum LineStepV {
    Emit(StreamChunkV),
    Quiet,
    Broken,
}

/// An optional string field as the envelope's reader has it: `Some(None)`
/// for a missing or null field, `Some(Some(s))` for a string, `None` for a
/// value of any other kind, which makes the whole envelope malformed.
pub open spec fn opt_str_field(v: JVal, key: Seq<char>) -> Option<Option<Seq<char>>> {
    match jv_get(v, key) {
        None => Some(None),
        Some(f) => match f {
            JVal::Null => Some(None),
            JVal::Str(s) => Some(Some(s)),
            _ => None,
        },
    }
}

/// The optional `message` field: missing or null is no message; anything
/// else must carry string `role` and `content` fields.
pub open spec fn message_field(v: JVal) -> Option<Option<ChatMessageV>> {
    match jv_get(v, "message"@) {
        None => Some(None),
        Some(m) => match m {
            JVal::Null => Some(None),
            _ => match (jv_get(m, "role"@), jv_get(m, "content"@)) {
                (Some(JVal::Str(role)), Some(JVal::Str(content))) => Some(
                    Some(ChatMessageV { role, content }),
                ),
                _ => None,
            },
        },
    }
}

/// The envelope a parsed line must carry: an object with string `model` and
/// `created_at`, boolean `done`, an optional `message` and an optional
/// `done_reason`. Anything else is a malformed line.
pub open spec fn envelope_of(v: JVal) -> Option<OllamaStreamChunkV> {
    match (jv_get(v, "model"@), jv_get(v, "created_at"@), jv_get(v, "done"@)) {
        (Some(JVal::Str(model)), Some(JVal::Str(created_at)), Some(JVal::Bool(done))) => match (
            message_field(v),
            opt_str_field(v, "done_reason"@),
        ) {
            (Some(message), Some(done_reason)) => Some(
                OllamaStreamChunkV { model, created_at, message, done, done_reason },
            ),
            _ => None,
        },
        _ => None,
    }
}

/// The tool call carried by a message content, if the content parses as JSON
/// and holds a `tool_calls` array whose first element names a function:
/// that function's name and its arguments, passed through unvalidated.
pub open spec fn tool_call_of(content: Seq<char>) -> Option<(Seq<char>, JVal)> {
    match json_of(content) {
        None => None,
        Some(cv) => match jv_get(cv, "tool_calls"@) {
            None => None,
            Some(tc) => match jv_as_array(tc) {
                None => None,
                Some(arr) => if arr.len() == 0 {
                    None
                } else {
                    match jv_get(arr[0], "function"@) {
                        None => None,
                        Some(f) => match (jv_get(f, "name"@), jv_get(f, "arguments"@)) {
                            (Some(JVal::Str(name)), Some(args)) => Some((name, args)),
                            _ => None,
                        },
                    }
                },
            },
        },
    }
}

/// How one message content is classified, in order: a tool call if one can
/// be extracted; nothing if the content is empty; reasoning text if it opens
/// with the think marker or mentions the reasoning marker; prose otherwise.
pub open spec fn classify_content(content: Seq<char>) -> Option<StreamChunkV> {
    match tool_call_of(content) {
        Some((name, args)) => Some(StreamChunkV::ToolCall { name, arguments: args }),
        None => if content.len() == 0 {
            None
        } else if has_prefix(content, "<think>"@) || contains_sub(content, "reasoning:"@) {
            Some(StreamChunkV::ReasoningChunk(content))
        } else {
            Some(StreamChunkV::TextChunk(content))
        },
    }
}

/// What one completed line makes the decoder do.
pub open spec fn line_step(line: Seq<char>) -> LineStepV {
    match json_of(line) {
        None => LineStepV::Broken,
        Some(v) => match envelope_of(v) {
            None => LineStepV::Broken,
            Some(env) => if env.done {
                LineStepV::Emit(StreamChunkV::Done)
            } else {
                match env.message {
                    None => LineStepV::Quiet,
                    Some(m) => match classify_content(m.content) {
                        Some(c) => LineStepV::Emit(c),
                        None => LineStepV::Quiet,
                    },
                }
            },
        },
    }
}

/// Outcome of decoding one line.
pub enum LineOutcome {
    Emit(StreamChunk),
    Quiet,
    Broken,
}

impl View for LineOutcome {
    type V = LineStepV;

    open spec fn view(&self) -> LineStepV {
        match self {
            LineOutcome::Emit(c) => LineStepV::Emit(c@),
            LineOutcome::Quiet => LineStepV::Quiet,
            LineOutcome::Broken => LineStepV::Broken,
        }
    }
}

/// Read the envelope out of a parsed line.
pub fn parse_envelope(v: &JsonValue) -> (r: Option<OllamaStreamChunk>)
    ensures
        match r {
            Some(c) => envelope_of(v@) == Some(c@),
            None => envelope_of(v@) is None,
        },
{
    let model = match v.get("model") {
        Some(f) => match f.as_str() {
            Some(s) => s.to_owned(),
            None => {
                return None;
            },
        },
        None => {
            return None;
        },
    };
    let created_at = match v.get("created_at") {
        Some(f) => match f.as_str() {
            Some(s) => s.to_owned(),
            None => {
                return None;
            },
        },
        None => {
            return None;
        },
    };
    let done = match v.get("done") {
        Some(f) => match f.as_bool() {
            Some(b) => b,
            None => {
                return None;
            },
        },
        None => {
            return None;
        },
    };
    let message = match v.get("message") {
        None => None,
        Some(m) => match m {
            JsonValue::Null => None,
            _ => {
                let role = match m.get("role") {
                    Some(f) => match f.as_str() {
                        Some(s) => s.to_owned(),
                        None => {
                            return None;
                        },
                    },
                    None => {
                        return None;
                    },
                };
                let content = match m.get("content") {
                    Some(f) => match f.as_str() {
                        Some(s) => s.to_owned(),
                        None => {
                            return None;
                        },
                    },
                    None => {
                        return None;
                    },
                };
                Some(ChatMessage { role, content })
            },
        },
    };
    let done_reason = match v.get("done_reason") {
        None => None,
        Some(f) => match f {
            JsonValue::Null => None,
            _ => match f.as_str() {
                Some(s) => Some(s.to_owned()),
                None => {
                    return None;
                },
            },
        },
    };
    Some(OllamaStreamChunk { model, created_at, message, done, done_reason })
}

/// Try to read a tool call out of a message content.
pub fn extract_tool_call(content: &str) -> (r: Option<(String, JsonValue)>)
    ensures
        match r {
            Some(c) => tool_call_of(content@) == Some((c.0@, c.1@)),
            None => tool_call_of(content@) is None,
        },
{
    let parsed = match parse_json(content) {
        Some(v) => v,
        None => {
            return None;
        },
    };
    let tc = match parsed.get("tool_calls") {
        Some(f) => f,
        None => {
            return None;
        },
    };
    let arr = match tc.as_array() {
        Some(a) => a,
        None => {
            return None;
        },
    };
    if arr.len() == 0 {
        return None;
    }
    let first = &arr[0];
    proof {
        lemma_jv_seq(arr@);
    }
    let f = match first.get("function") {
        Some(f) => f,
        None => {
            return None;
        },
    };
    let name = match f.get("name") {
        Some(nv) => match nv.as_str() {
            Some(n) => n.to_owned(),
            None => {
                return None;
            },
        },
        None => {
            return None;
        },
    };
    let args = match f.get("arguments") {
        Some(a) => a.duplicate(),
        None => {
            return None;
        },
    };
    Some((name, args))
}

/// Classify one non-done message content.
fn classify_message(content: &str) -> (r: LineOutcome)
    ensures
        r@ == match classify_content(content@) {
            Some(c) => LineStepV::Emit(c),
            None => LineStepV::Quiet,
        },
{
    match extract_tool_call(content) {
        Some(call) => LineOutcome::Emit(StreamChunk::ToolCall { name: call.0, arguments: call.1 }),
        None => {
            if content.unicode_len() == 0 {
                LineOutcome::Quiet
            } else if str_starts_with(content, "<think>") || str_contains(content, "reasoning:") {
                LineOutcome::Emit(StreamChunk::ReasoningChunk(content.to_owned()))
            } else {
                LineOutcome::Emit(StreamChunk::TextChunk(content.to_owned()))
            }
        },
    }
}

/// What lossy UTF-8 decoding makes of a byte sequence.
pub uninterp spec fn lossy_decode(bytes: Seq<u8>) -> Seq<char>;

/// Relies on String::from_utf8_lossy: the decoded text is a function of the
/// bytes alone, named here by [`lossy_decode`].
#[verifier::external_body]
pub(crate) fn bytes_to_text(bytes: &[u8]) -> (r: String)
    ensures
        r@ == lossy_decode(bytes@),
{
    String::from_utf8_lossy(bytes).into_owned()
}

/// Decode one completed line.
pub fn decode_line(line: &str) -> (r: LineOutcome)
    ensures
        r@ == line_step(line@),
{
    let parsed = match parse_json(line) {
        Some(v) => v,
        None => {
            return LineOutcome::Broken;
        },
    };
    let env = match parse_envelope(&parsed) {
        Some(e) => e,
        None => {
            return LineOutcome::Broken;
        },
    };
    if env.done {
        return LineOutcome::Emit(StreamChunk::Done);
    }
    match env.message {
        None => LineOutcome::Quiet,
        Some(msg) => classify_message(msg.content.as_str()),
    }
}

/// What one completed line of raw bytes makes the decoder do.
pub open spec fn byte_line_step(lb: Seq<u8>) -> LineStepV {
    line_step(lossy_decode(lb))
}

/// The fixed text of a decode failure.
pub open spec fn decode_error_text() -> Seq<char> {
    "Failed to parse JSON"@
}

/// Index of the first newline byte in `s`, or `s.len()` if there is none.
pub open spec fn first_nl_byte(s: Seq<u8>) -> nat
    decreases s.len(),
{
    if s.len() == 0 {
        0
    } else if s[0] == 10u8 {
        0
    } else {
        1 + first_nl_byte(s.drop_first())
    }
}

proof fn lemma_first_nl_byte_at(s: Seq<u8>, i: int)
    requires
        0 <= i <= s.len(),
        forall|k: int| 0 <= k < i ==> s[k] != 10u8,
        i < s.len() ==> s[i] == 10u8,
    ensures
        first_nl_byte(s) == i,
    decreases s.len(),
{
    if s.len() == 0 {
    } else if i == 0 {
    } else {
        assert(s[0] != 10u8);
        assert(forall|k: int| 0 <= k < i - 1 ==> s.drop_first()[k] == s[k + 1]);
        lemma_first_nl_byte_at(s.drop_first(), i - 1);
    }
}

proof fn lemma_first_nl_byte_shape(s: Seq<u8>)
    ensures
        first_nl_byte(s) <= s.len(),
        forall|k: int| 0 <= k < first_nl_byte(s) ==> s[k] != 10u8,
        first_nl_byte(s) < s.len() ==> s[first_nl_byte(s) as int] == 10u8,
    decreases s.len(),
{
    if s.len() > 0 && s[0] != 10u8 {
        lemma_first_nl_byte_shape(s.drop_first());
        assert(forall|k: int| 1 <= k < first_nl_byte(s) ==> s[k] == s.drop_first()[k - 1]);
    }
}

/// What draining every complete line out of a buffer produces: the decoded
/// items, the bytes left over, and whether the stream has ended.
#[verifier::ext_equal]
pub struct DrainOut {
    pub events: Seq<StreamItemV>,
    pub rest: Seq<u8>,
    pub closed: bool,
}

/// Decode every complete line of `buf` in order, stopping at a done
/// envelope or a malformed line; bytes after the first newline-less tail
/// stay in the buffer.
pub open spec fn drain_spec(buf: Seq<u8>) -> DrainOut
    decreases buf.len(),
{
    let i = first_nl_byte(buf);
    if i >= buf.len() {
        DrainOut { events: Seq::empty(), rest: buf, closed: false }
    } else {
        let rest = buf.skip(i + 1 as int);
        match byte_line_step(buf.take(i as int)) {
            LineStepV::Broken => DrainOut {
                events: seq![StreamItemV::DecodeError(decode_error_text())],
                rest,
                closed: true,
            },
            LineStepV::Emit(StreamChunkV::Done) => DrainOut {
                events: seq![StreamItemV::Chunk(StreamChunkV::Done)],
                rest,
                closed: true,
            },
            LineStepV::Emit(c) => {
                let d = drain_spec(rest);
                DrainOut { events: seq![StreamItemV::Chunk(c)] + d.events, rest: d.rest, closed: d.closed }
            },
            LineStepV::Quiet => drain_spec(rest),
        }
    }
}

/// Decoder state: bytes that do not yet form a complete line, and whether
/// the stream has ended.
#[verifier::ext_equal]
pub struct DecoderV {
    pub buffer: Seq<u8>,
    pub closed: bool,
}

/// What one batch of incoming bytes does to the decoder: nothing once the
/// stream has ended; otherwise the batch joins the buffer and every
/// complete line is drained.
pub open spec fn decoder_step(st: DecoderV, chunk: Seq<u8>) -> (DecoderV, Seq<StreamItemV>) {
    if st.closed {
        (st, Seq::empty())
    } else {
        let d = drain_spec(st.buffer + chunk);
        (
            DecoderV {
                buffer: if d.closed {
                    Seq::empty()
                } else {
                    d.rest
                },
                closed: d.closed,
            },
            d.events,
        )
    }
}

/// A fresh decoder's state.
pub open spec fn decoder_init() -> DecoderV {
    DecoderV { buffer: Seq::empty(), closed: false }
}

/// Incremental NDJSON decoder: feed it byte batches as the transport
/// delivers them, take typed items back.
pub struct StreamDecoder {
    buffer: Vec<u8>,
    closed: bool,
}

impl View for StreamDecoder {
    type V = DecoderV;

    closed spec fn view(&self) -> DecoderV {
        DecoderV { buffer: self.buffer@, closed: self.closed }
    }
}

fn find_nl(buf: &Vec<u8>) -> (r: Option<usize>)
    ensures
        match r {
            Some(j) => j == first_nl_byte(buf@) && j < buf@.len(),
            None => first_nl_byte(buf@) >= buf@.len(),
        },
{
    let n = buf.len();
    let mut j: usize = 0;
    while j < n
        invariant
            n == buf@.len(),
            j <= n,
            forall|k: int| 0 <= k < j ==> buf@[k] != 10u8,
        decreases n - j,
    {
        if buf[j] == 10u8 {
            proof {
                lemma_first_nl_byte_at(buf@, j as int);
            }
            return Some(j);
        }
        j = j + 1;
    }
    proof {
        lemma_first_nl_byte_at(buf@, n as int);
    }
    None
}

impl StreamDecoder {
    /// A fresh decoder.
    pub fn new() -> (r: Self)
        ensures
            r@ == decoder_init(),
    {
        StreamDecoder { buffer: Vec::new(), closed: false }
    }

    /// Whether the stream has ended, by a done envelope or a decode error.
    pub fn is_closed(&self) -> (r: bool)
        ensures
            r == self@.closed,
    {
        self.closed
    }

    /// Feed one batch of bytes; every item the completed lines yield comes
    /// back, in order.
    #[verifier::loop_isolation(false)]
    pub fn push_bytes(&mut self, chunk: &[u8]) -> (items: Vec<StreamItem>)
        ensures
            final(self)@ == decoder_step(old(self)@, chunk@).0,
            items.deep_view() == decoder_step(old(self)@, chunk@).1,
    {
        let mut items: Vec<StreamItem> = Vec::new();
        if self.closed {
            proof {
                assert(items.deep_view() =~= Seq::<StreamItemV>::empty());
            }
            return items;
        }
        let mut k: usize = 0;
        proof {
            assert(self.buffer@ =~= old(self).buffer@ + chunk@.take(0));
        }
        while k < chunk.len()
            invariant
                !self.closed,
                k <= chunk@.len(),
                self.buffer@ == old(self).buffer@ + chunk@.take(k as int),
            decreases chunk@.len() - k,
        {
            self.buffer.push(chunk[k]);
            k = k + 1;
            proof {
                assert(self.buffer@ =~= old(self).buffer@ + chunk@.take(k as int));
            }
        }
        let ghost b0 = old(self).buffer@ + chunk@;
        proof {
            assert(chunk@.take(chunk@.len() as int) =~= chunk@);
            assert(self.buffer@ == b0);
        }
        let ghost target = drain_spec(b0);
        proof {
            assert(items.deep_view() =~= Seq::<StreamItemV>::empty());
            assert(items.deep_view() + drain_spec(self.buffer@).events =~= drain_spec(
                self.buffer@,
            ).events);
        }
        let mut found = find_nl(&self.buffer);
        while found.is_some()
            invariant
                match found {
                    Some(j) => !self.closed && j < self.buffer@.len() && j == first_nl_byte(
                        self.buffer@,
                    ),
                    None => self.closed || first_nl_byte(self.buffer@) >= self.buffer@.len(),
                },
                if self.closed {
                    target.events == items.deep_view() && target.closed && self.buffer@
                        =~= Seq::<u8>::empty()
                } else {
                    target.events == items.deep_view() + drain_spec(self.buffer@).events
                        && target.rest == drain_spec(self.buffer@).rest && target.closed
                        == drain_spec(self.buffer@).closed
                },
            decreases self.buffer@.len(),
        {
            let j = match found {
                Some(j) => j,
                None => {
                    proof {
                        assert(false);
                    }
                    0
                },
            };
            let ghost bufcur = self.buffer@;
            let ghost dcur = drain_spec(bufcur);
            let ghost pre_items = items.deep_view();
            let buffer_len = self.buffer.len();
            proof {
                assert(j < buffer_len);
            }
            let rest = self.buffer.split_off(j + 1);
            self.buffer.truncate(j);
            proof {
                assert(self.buffer@ =~= bufcur.take(j as int));
                assert(rest@ =~= bufcur.skip(j + 1));
            }
            let line = bytes_to_text(self.buffer.as_slice());
            let verdict = decode_line(line.as_str());
            proof {
                assert(verdict@ == byte_line_step(bufcur.take(j as int)));
            }
            self.buffer = rest;
            match verdict {
                LineOutcome::Broken => {
                    items.push(StreamItem::DecodeError(("Failed to parse JSON").to_owned()));
                    self.closed = true;
                    self.buffer = Vec::new();
                    proof {
                        assert(items.deep_view() =~= pre_items.push(
                            StreamItemV::DecodeError(decode_error_text()),
                        ));
                        assert(dcur.events =~= seq![
                            StreamItemV::DecodeError(decode_error_text()),
                        ]);
                        assert(pre_items + dcur.events =~= items.deep_view());
                    }
                },
                LineOutcome::Emit(c) => {
                    match c {
                        StreamChunk::Done => {
                            items.push(StreamItem::Chunk(StreamChunk::Done));
                            self.closed = true;
                            self.buffer = Vec::new();
                            proof {
                                assert(items.deep_view() =~= pre_items.push(
                                    StreamItemV::Chunk(StreamChunkV::Done),
                                ));
                                assert(dcur.events =~= seq![
                                    StreamItemV::Chunk(StreamChunkV::Done),
                                ]);
                                assert(pre_items + dcur.events =~= items.deep_view());
                            }
                        },
                        other => {
                            let ghost cv = other@;
                            items.push(StreamItem::Chunk(other));
                            proof {
                                assert(!(cv is Done));
                                assert(dcur.events == seq![StreamItemV::Chunk(cv)] + drain_spec(
                                    self.buffer@,
                                ).events);
                                assert(items.deep_view() =~= pre_items.push(
                                    StreamItemV::Chunk(cv),
                                ));
                                assert(pre_items + (seq![StreamItemV::Chunk(cv)] + drain_spec(
                                    self.buffer@,
                                ).events) =~= items.deep_view() + drain_spec(self.buffer@).events);
                            }
                        },
                    }
                },
                LineOutcome::Quiet => {
                    proof {
                        assert(dcur == drain_spec(self.buffer@));
                    }
                },
            }
            found = if self.closed {
                None
            } else {
                find_nl(&self.buffer)
            };
        }
        if self.closed {
            proof {
                assert(self@ =~= decoder_step(old(self)@, chunk@).0);
            }
        } else {
            proof {
                assert(target.events =~= items.deep_view());
                assert(self@ =~= decoder_step(old(self)@, chunk@).0);
            }
        }
        items
    }
}

proof fn lemma_first_nl_byte_prefix(b1: Seq<u8>, b2: Seq<u8>)
    requires
        first_nl_byte(b1) < b1.len(),
    ensures
        first_nl_byte(b1 + b2) == first_nl_byte(b1),
{
    lemma_first_nl_byte_shape(b1);
    assert(forall|k: int| 0 <= k < b1.len() ==> (b1 + b2)[k] == b1[k]);
    lemma_first_nl_byte_at(b1 + b2, first_nl_byte(b1) as int);
}

/// Law: draining is stable under appending bytes. Items already drained out
/// of a buffer stay the same when more bytes arrive after it, and once the
/// stream has ended — by a done envelope or a malformed line — later bytes
/// add no item at all.
pub proof fn lemma_drain_extend(b1: Seq<u8>, b2: Seq<u8>)
    ensures
        ({
            let d1 = drain_spec(b1);
            let d = drain_spec(b1 + b2);
            if d1.closed {
                d.events == d1.events && d.closed && d.rest == d1.rest + b2
            } else {
                let d2 = drain_spec(d1.rest + b2);
                d.events == d1.events + d2.events && d.rest == d2.rest && d.closed == d2.closed
            }
        }),
    decreases b1.len(),
{
    lemma_first_nl_byte_shape(b1);
    let i = first_nl_byte(b1);
    if i >= b1.len() {
        assert(drain_spec(b1).rest + b2 =~= b1 + b2);
        assert(Seq::<StreamItemV>::empty() + drain_spec(b1 + b2).events =~= drain_spec(
            b1 + b2,
        ).events);
    } else {
        lemma_first_nl_byte_prefix(b1, b2);
        let j = i as int;
        assert((b1 + b2).take(j) =~= b1.take(j));
        assert((b1 + b2).skip(j + 1) =~= b1.skip(j + 1) + b2);
        match byte_line_step(b1.take(j)) {
            LineStepV::Broken => {
            },
            LineStepV::Emit(StreamChunkV::Done) => {
            },
            LineStepV::Emit(c) => {
                lemma_drain_extend(b1.skip(j + 1), b2);
                let sub = drain_spec(b1.skip(j + 1));
                if sub.closed {
                } else {
                    let d2 = drain_spec(sub.rest + b2);
                    assert(seq![StreamItemV::Chunk(c)] + (sub.events + d2.events) =~= (seq![
                        StreamItemV::Chunk(c),
                    ] + sub.events) + d2.events);
                }
            },
            LineStepV::Quiet => {
                lemma_drain_extend(b1.skip(j + 1), b2);
            },
        }
    }
}

/// Whether an item ends the stream: the end-of-stream chunk or a decode
/// failure.
pub open spec fn is_terminal_item(e: StreamItemV) -> bool {
    e is DecodeError || e == StreamItemV::Chunk(StreamChunkV::Done)
}

/// Law: at most one terminal item is ever drained out of a buffer; when one
/// is, it closes the stream and stands last, with no item after it.
pub proof fn lemma_terminal_is_last(buf: Seq<u8>)
    ensures
        ({
            let d = drain_spec(buf);
            &&& d.closed <==> (d.events.len() > 0 && is_terminal_item(d.events.last()))
            &&& forall|k: int| 0 <= k < d.events.len() - 1 ==> !is_terminal_item(d.events[k])
        }),
    decreases buf.len(),
{
    lemma_first_nl_byte_shape(buf);
    let i = first_nl_byte(buf);
    if i < buf.len() {
        let j = i as int;
        match byte_line_step(buf.take(j)) {
            LineStepV::Broken => {
            },
            LineStepV::Emit(StreamChunkV::Done) => {
            },
            LineStepV::Emit(c) => {
                lemma_terminal_is_last(buf.skip(j + 1));
                let sub = drain_spec(buf.skip(j + 1));
                assert(forall|k: int|
                    1 <= k < drain_spec(buf).events.len() ==> drain_spec(buf).events[k]
                        == sub.events[k - 1]);
            },
            LineStepV::Quiet => {
                lemma_terminal_is_last(buf.skip(j + 1));
            },
        }
    }
}

proof fn lemma_drain_rest_open(buf: Seq<u8>)
    ensures
        !drain_spec(buf).closed ==> first_nl_byte(drain_spec(buf).rest) >= drain_spec(
            buf,
        ).rest.len(),
    decreases buf.len(),
{
    lemma_first_nl_byte_shape(buf);
    let i = first_nl_byte(buf);
    if i < buf.len() {
        let j = i as int;
        match byte_line_step(buf.take(j)) {
            LineStepV::Broken => {
            },
            LineStepV::Emit(StreamChunkV::Done) => {
            },
            LineStepV::Emit(c) => {
                lemma_drain_rest_open(buf.skip(j + 1));
            },
            LineStepV::Quiet => {
                lemma_drain_rest_open(buf.skip(j + 1));
            },
        }
    }
}

/// The decoder's state after a sequence of byte batches, with every item
/// produced along the way, in order.
pub open spec fn decoder_run(st: DecoderV, chunks: Seq<Seq<u8>>) -> (DecoderV, Seq<StreamItemV>)
    decreases chunks.len(),
{
    if chunks.len() == 0 {
        (st, Seq::empty())
    } else {
        let first = decoder_step(st, chunks[0]);
        let rest = decoder_run(first.0, chunks.drop_first());
        (rest.0, first.1 + rest.1)
    }
}

proof fn lemma_run_closed(st: DecoderV, chunks: Seq<Seq<u8>>)
    requires
        st.closed,
    ensures
        decoder_run(st, chunks).1 == Seq::<StreamItemV>::empty(),
        decoder_run(st, chunks).0 == st,
    decreases chunks.len(),
{
    if chunks.len() > 0 {
        lemma_run_closed(st, chunks.drop_first());
        assert(Seq::<StreamItemV>::empty() + Seq::<StreamItemV>::empty()
            =~= Seq::<StreamItemV>::empty());
    }
}

proof fn lemma_run_events(st: DecoderV, chunks: Seq<Seq<u8>>)
    requires
        !st.closed,
        first_nl_byte(st.buffer) >= st.buffer.len(),
    ensures
        decoder_run(st, chunks).1 == drain_spec(st.buffer + chunks.flatten()).events,
    decreases chunks.len(),
{
    if chunks.len() == 0 {
        assert(st.buffer + chunks.flatten() =~= st.buffer);
    } else {
        let b1 = st.buffer + chunks[0];
        let d1 = drain_spec(b1);
        let tail = chunks.drop_first().flatten();
        lemma_drain_extend(b1, tail);
        assert(st.buffer + chunks.flatten() =~= b1 + tail);
        if d1.closed {
            let st1 = DecoderV { buffer: Seq::empty(), closed: true };
            lemma_run_closed(st1, chunks.drop_first());
            assert(d1.events + Seq::<StreamItemV>::empty() =~= d1.events);
        } else {
            let st1 = DecoderV { buffer: d1.rest, closed: false };
            lemma_drain_rest_open(b1);
            lemma_run_events(st1, chunks.drop_first());
        }
    }
}

/// Law: however a byte stream is cut into batches — at line boundaries, in
/// the middle of a line, in the middle of a multi-byte character — the
/// decoder yields exactly the items it yields when the whole stream arrives
/// as one batch.
pub proof fn lemma_chunking_invariance(chunks: Seq<Seq<u8>>)
    ensures
        decoder_run(decoder_init(), chunks).1 == decoder_run(
            decoder_init(),
            seq![chunks.flatten()],
        ).1,
{
    lemma_run_events(decoder_init(), chunks);
    lemma_run_events(decoder_init(), seq![chunks.flatten()]);
    seq![chunks.flatten()].lemma_flatten_singleton();
    assert(seq![chunks.flatten()].flatten() =~= chunks.flatten());
    assert(decoder_init().buffer + chunks.flatten() =~= decoder_init().buffer + seq![
        chunks.flatten(),
    ].flatten());
}

} // verus!
