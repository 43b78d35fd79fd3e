//! A schema-less JSON value type.
//!
//! Tool-call arguments arrive from the model as untyped structured values and
//! are validated only inside each tool's executor, so the decode boundary
//! needs a value type with no schema attached. Parsing itself is done by
//! serde_json behind a trusted wrapper; everything that reads a parsed value
//! works on [`JsonValue`] and is verified.

use vstd::prelude::*;

verus! {

broadcast use vstd::std_specs::vec::group_vec_axioms;

/// A JSON value. A number keeps the decimal text serde_json prints for it;
/// this crate never interprets numbers, it only carries them through.
#[derive(Debug)]
pub enum JsonValue {
    Null,
    Bool(bool),
    Number(String),
    Str(String),
    Array(Vec<JsonValue>),
    Object(Vec<(String, JsonValue)>),
}

/// The mathematical model of a [`JsonValue`]: the same tree over sequences.
pub enum JVal {
    Null,
    Bool(bool),
    Number(Seq<char>),
    Str(Seq<char>),
    Array(Seq<JVal>),
    Object(Seq<(Seq<char>, JVal)>),
}

/// Model of one value.
pub open spec fn jv(v: JsonValue) -> JVal
    decreases v,
{
    match v {
        JsonValue::Null => JVal::Null,
        JsonValue::Bool(b) => JVal::Bool(b),
        JsonValue::Number(s) => JVal::Number(s@),
        JsonValue::Str(s) => JVal::Str(s@),
        JsonValue::Array(items) => JVal::Array(jv_seq(items@)),
        JsonValue::Object(fields) => JVal::Object(jv_fields(fields@)),
    }
}

/// Model of a sequence of values.
pub open spec fn jv_seq(items: Seq<JsonValue>) -> Seq<JVal>
    decreases items,
{
    if items.len() == 0 {
        Seq::empty()
    } else {
        seq![jv(items[0])] + jv_seq(items.drop_first())
    }
}

/// Model of an object's fields.
pub open spec fn jv_fields(fields: Seq<(String, JsonValue)>) -> Seq<(Seq<char>, JVal)>
    decreases fields,
{
    if fields.len() == 0 {
        Seq::empty()
    } else {
        seq![(fields[0].0@, jv(fields[0].1))] + jv_fields(fields.drop_first())
    }
}

/// The model of a sequence of values, element by element.
pub broadcast proof fn lemma_jv_seq(items: Seq<JsonValue>)
    ensures
        (#[trigger] jv_seq(items)).len() == items.len(),
        forall|i: int| 0 <= i < items.len() ==> jv_seq(items)[i] == jv(items[i]),
    decreases items.len(),
{
    if items.len() > 0 {
        lemma_jv_seq(items.drop_first());
        assert(forall|i: int|
            1 <= i < items.len() ==> jv_seq(items)[i] == jv_seq(items.drop_first())[i - 1]);
    }
}

/// The model of an object's fields, element by element.
pub broadcast proof fn lemma_jv_fields(fields: Seq<(String, JsonValue)>)
    ensures
        (#[trigger] jv_fields(fields)).len() == fields.len(),
        forall|i: int|
            0 <= i < fields.len() ==> jv_fields(fields)[i] == (fields[i].0@, jv(fields[i].1)),
    decreases fields.len(),
{
    if fields.len() > 0 {
        lemma_jv_fields(fields.drop_first());
        assert(forall|i: int|
            1 <= i < fields.len() ==> jv_fields(fields)[i] == jv_fields(fields.drop_first())[i
                - 1]);
    }
}

impl View for JsonValue {
    type V = JVal;

    open spec fn view(&self) -> JVal {
        jv(*self)
    }
}

/// First field of an object with the given key, if any.
pub open spec fn fields_get(fields: Seq<(Seq<char>, JVal)>, key: Seq<char>) -> Option<JVal>
    decreases fields.len(),
{
    if fields.len() == 0 {
        None
    } else if fields[0].0 == key {
        Some(fields[0].1)
    } else {
        fields_get(fields.drop_first(), key)
    }
}

/// Member lookup as serde_json's `Value::get` does it: a field of an
/// object, `None` on any other kind of value.
pub open spec fn jv_get(v: JVal, key: Seq<char>) -> Option<JVal> {
    match v {
        JVal::Object(fields) => fields_get(fields, key),
        _ => None,
    }
}

/// The characters of a string value, `None` on any other kind of value.
pub open spec fn jv_as_str(v: JVal) -> Option<Seq<char>> {
    match v {
        JVal::Str(s) => Some(s),
        _ => None,
    }
}

/// The elements of an array value, `None` on any other kind of value.
pub open spec fn jv_as_array(v: JVal) -> Option<Seq<JVal>> {
    match v {
        JVal::Array(items) => Some(items),
        _ => None,
    }
}

/// The boolean of a bool value, `None` on any other kind of value.
pub open spec fn jv_as_bool(v: JVal) -> Option<bool> {
    match v {
        JVal::Bool(b) => Some(b),
        _ => None,
    }
}

impl JsonValue {
    /// Member lookup: field of an object, `None` otherwise.
    #[verifier::loop_isolation(false)]
    pub fn get<'a>(&'a self, key: &str) -> (r: Option<&'a JsonValue>)
        ensures
            match r {
                Some(w) => jv_get(self@, key@) == Some(w@),
                None => jv_get(self@, key@) is None,
            },
    {
        match self {
            JsonValue::Object(fields) => {
                let ghost model = jv_fields(fields@);
                proof {
                    lemma_jv_fields(fields@);
                    assert(model.skip(0) =~= model);
                }
                let mut i: usize = 0;
                while i < fields.len()
                    invariant
                        i <= fields.len(),
                        fields_get(model, key@) == fields_get(model.skip(i as int), key@),
                    decreases fields.len() - i,
                {
                    proof {
                        assert(model.skip(i as int)[0] == model[i as int]);
                    }
                    if crate::text::str_eq(fields[i].0.as_str(), key) {
                        proof {
                            assert(fields_get(model.skip(i as int), key@) == Some(model[i as int].1));
                        }
                        return Some(&fields[i].1);
                    }
                    proof {
                        assert(model.skip(i as int).drop_first() =~= model.skip(i + 1));
                    }
                    i = i + 1;
                }
                proof {
                    assert(model.skip(fields.len() as int) =~= Seq::<(Seq<char>, JVal)>::empty());
                }
                None
            },
            _ => None,
        }
    }

    /// The string slice inside a string value, `None` otherwise.
    pub fn as_str<'a>(&'a self) -> (r: Option<&'a str>)
        ensures
            match r {
                Some(s) => jv_as_str(self@) == Some(s@),
                None => jv_as_str(self@) is None,
            },
    {
        match self {
            JsonValue::Str(s) => Some(s.as_str()),
            _ => None,
        }
    }

    /// The elements of an array value, `None` otherwise.
    pub fn as_array<'a>(&'a self) -> (r: Option<&'a Vec<JsonValue>>)
        ensures
            match r {
                Some(items) => jv_as_array(self@) == Some(jv_seq(items@)),
                None => jv_as_array(self@) is None,
            },
    {
        match self {
            JsonValue::Array(items) => Some(items),
            _ => None,
        }
    }

    /// The boolean inside a bool value, `None` otherwise.
    pub fn as_bool(&self) -> (r: Option<bool>)
        ensures
            match r {
                Some(b) => jv_as_bool(self@) == Some(b),
                None => jv_as_bool(self@) is None,
            },
    {
        match self {
            JsonValue::Bool(b) => Some(*b),
            _ => None,
        }
    }

    /// A deep copy whose model is the model of `self`.
    #[verifier::loop_isolation(false)]
    pub fn duplicate(&self) -> (r: JsonValue)
        ensures
            r@ == self@,
        decreases self,
    {
        match self {
            JsonValue::Null => JsonValue::Null,
            JsonValue::Bool(b) => JsonValue::Bool(*b),
            JsonValue::Number(s) => JsonValue::Number(s.clone()),
            JsonValue::Str(s) => JsonValue::Str(s.clone()),
            JsonValue::Array(items) => {
                let mut out: Vec<JsonValue> = Vec::new();
                let mut i: usize = 0;
                while i < items.len()
                    invariant
                        i <= items.len(),
                        out@.len() == i,
                        forall|k: int| 0 <= k < i ==> out@[k]@ == jv_seq(items@)[k],
                    decreases items.len() - i,
                {
                    out.push(items[i].duplicate());
                    i = i + 1;
                    proof {
                        lemma_jv_seq(items@);
                    }
                }
                proof {
                    lemma_jv_seq(items@);
                    lemma_jv_seq(out@);
                    assert(jv_seq(out@) =~= jv_seq(items@));
                }
                JsonValue::Array(out)
            },
            JsonValue::Object(fields) => {
                let mut out: Vec<(String, JsonValue)> = Vec::new();
                let mut i: usize = 0;
                while i < fields.len()
                    invariant
                        i <= fields.len(),
                        out@.len() == i,
                        forall|k: int| 0 <= k < i ==> (#[trigger] out@[k]).0@ == fields@[k].0@
                            && out@[k].1@ == fields@[k].1@,
                    decreases fields.len() - i,
                {
                    out.push((fields[i].0.clone(), fields[i].1.duplicate()));
                    i = i + 1;
                    proof {
                        lemma_jv_fields(fields@);
                    }
                }
                proof {
                    lemma_jv_fields(fields@);
                    lemma_jv_fields(out@);
                    assert(jv_fields(out@) =~= jv_fields(fields@));
                }
                JsonValue::Object(out)
            },
        }
    }
}

/// The JSON text of one character inside a string literal: quote,
/// backslash and the control characters are escaped as serde_json writes
/// them, every other character stands as itself.
pub open spec fn esc_char(c: char) -> Seq<char> {
    if c == '"' {
        seq!['\\', '"']
    } else if c == '\\' {
        seq!['\\', '\\']
    } else if c == '\u{8}' {
        seq!['\\', 'b']
    } else if c == '\t' {
        seq!['\\', 't']
    } else if c == '\n' {
        seq!['\\', 'n']
    } else if c == '\u{c}' {
        seq!['\\', 'f']
    } else if c == '\r' {
        seq!['\\', 'r']
    } else if (c as u32) < 32 {
        seq!['\\', 'u', '0', '0', hex_digit((c as u32) as int / 16), hex_digit((c as u32) as int % 16)]
    } else {
        seq![c]
    }
}

/// The lowercase hexadecimal digit for a value below sixteen.
pub open spec fn hex_digit(n: int) -> char {
    if n == 0 {
        '0'
    } else if n == 1 {
        '1'
    } else if n == 2 {
        '2'
    } else if n == 3 {
        '3'
    } else if n == 4 {
        '4'
    } else if n == 5 {
        '5'
    } else if n == 6 {
        '6'
    } else if n == 7 {
        '7'
    } else if n == 8 {
        '8'
    } else if n == 9 {
        '9'
    } else if n == 10 {
        'a'
    } else if n == 11 {
        'b'
    } else if n == 12 {
        'c'
    } else if n == 13 {
        'd'
    } else if n == 14 {
        'e'
    } else {
        'f'
    }
}

/// A string's characters, escaped.
pub open spec fn esc_str(s: Seq<char>) -> Seq<char>
    decreases s.len(),
{
    if s.len() == 0 {
        Seq::empty()
    } else {
        esc_char(s[0]) + esc_str(s.drop_first())
    }
}

/// A JSON string literal: the escaped characters between quotes.
pub open spec fn json_str_text(s: Seq<char>) -> Seq<char> {
    seq!['"'] + esc_str(s) + seq!['"']
}

/// The JSON text of a value: fields and elements in order, strings escaped,
/// a number as its carried decimal text.
pub open spec fn json_text(v: JVal) -> Seq<char>
    decreases v, 2int,
{
    match v {
        JVal::Null => "null"@,
        JVal::Bool(b) => if b {
            "true"@
        } else {
            "false"@
        },
        JVal::Number(n) => n,
        JVal::Str(s) => json_str_text(s),
        JVal::Array(items) => seq!['['] + json_list_text(items) + seq![']'],
        JVal::Object(fields) => seq!['{'] + json_fields_text(fields) + seq!['}'],
    }
}

/// The comma-separated elements of an array.
pub open spec fn json_list_text(items: Seq<JVal>) -> Seq<char>
    decreases items, 1int,
{
    if items.len() == 0 {
        Seq::empty()
    } else {
        json_text(items[0]) + json_more_text(items.drop_first())
    }
}

/// The remaining elements of an array, each preceded by a comma.
pub open spec fn json_more_text(items: Seq<JVal>) -> Seq<char>
    decreases items, 0int,
{
    if items.len() == 0 {
        Seq::empty()
    } else {
        seq![','] + json_text(items[0]) + json_more_text(items.drop_first())
    }
}

/// One object field: the quoted key, a colon, the value.
pub open spec fn json_field_text(field: (Seq<char>, JVal)) -> Seq<char>
    decreases field, 2int,
{
    json_str_text(field.0) + seq![':'] + json_text(field.1)
}

/// The comma-separated fields of an object.
pub open spec fn json_fields_text(fields: Seq<(Seq<char>, JVal)>) -> Seq<char>
    decreases fields, 1int,
{
    if fields.len() == 0 {
        Seq::empty()
    } else {
        json_field_text(fields[0]) + json_more_fields_text(fields.drop_first())
    }
}

/// The remaining fields of an object, each preceded by a comma.
pub open spec fn json_more_fields_text(fields: Seq<(Seq<char>, JVal)>) -> Seq<char>
    decreases fields, 0int,
{
    if fields.len() == 0 {
        Seq::empty()
    } else {
        seq![','] + json_field_text(fields[0]) + json_more_fields_text(fields.drop_first())
    }
}

proof fn lemma_esc_str_push(s: Seq<char>, c: char)
    ensures
        esc_str(s.push(c)) == esc_str(s) + esc_char(c),
    decreases s.len(),
{
    if s.len() == 0 {
        assert(s.push(c)[0] == c);
        assert(s.push(c).drop_first() =~= Seq::<char>::empty());
        assert(esc_char(c) + esc_str(Seq::<char>::empty()) =~= esc_char(c));
        assert(esc_str(s) + esc_char(c) =~= esc_char(c));
    } else {
        assert(s.push(c)[0] == s[0]);
        assert(s.push(c).drop_first() =~= s.drop_first().push(c));
        lemma_esc_str_push(s.drop_first(), c);
        assert(esc_char(s[0]) + (esc_str(s.drop_first()) + esc_char(c)) =~= (esc_char(s[0])
            + esc_str(s.drop_first())) + esc_char(c));
    }
}

fn hex_char_str(n: u32) -> (r: &'static str)
    requires
        n < 16,
    ensures
        r@ == seq![hex_digit(n as int)],
{
    let r: &'static str = if n == 0 {
        "0"
    } else if n == 1 {
        "1"
    } else if n == 2 {
        "2"
    } else if n == 3 {
        "3"
    } else if n == 4 {
        "4"
    } else if n == 5 {
        "5"
    } else if n == 6 {
        "6"
    } else if n == 7 {
        "7"
    } else if n == 8 {
        "8"
    } else if n == 9 {
        "9"
    } else if n == 10 {
        "a"
    } else if n == 11 {
        "b"
    } else if n == 12 {
        "c"
    } else if n == 13 {
        "d"
    } else if n == 14 {
        "e"
    } else {
        "f"
    };
    proof {
        reveal_strlit("0");
        reveal_strlit("1");
        reveal_strlit("2");
        reveal_strlit("3");
        reveal_strlit("4");
        reveal_strlit("5");
        reveal_strlit("6");
        reveal_strlit("7");
        reveal_strlit("8");
        reveal_strlit("9");
        reveal_strlit("a");
        reveal_strlit("b");
        reveal_strlit("c");
        reveal_strlit("d");
        reveal_strlit("e");
        reveal_strlit("f");
        assert(r@ =~= seq![hex_digit(n as int)]);
    }
    r
}

/// Append one string as a JSON string literal.
#[verifier::loop_isolation(false)]
pub fn write_json_string(s: &str, out: &mut String)
    ensures
        final(out)@ == old(out)@ + json_str_text(s@),
{
    out.append("\"");
    let ghost base = out@;
    proof {
        reveal_strlit("\"");
        assert(base =~= old(out)@ + seq!['"']);
        assert(s@.take(0) =~= Seq::<char>::empty());
        assert(base + esc_str(s@.take(0)) =~= base);
    }
    let n = s.unicode_len();
    let mut i: usize = 0;
    while i < n
        invariant
            n == s@.len(),
            i <= n,
            out@ == base + esc_str(s@.take(i as int)),
        decreases n - i,
    {
        let c = s.get_char(i);
        let code = c as u32;
        if c == '"' {
            out.append("\\\"");
            proof {
                reveal_strlit("\\\"");
            }
        } else if c == '\\' {
            out.append("\\\\");
            proof {
                reveal_strlit("\\\\");
            }
        } else if code == 8 {
            out.append("\\b");
            proof {
                reveal_strlit("\\b");
            }
        } else if c == '\t' {
            out.append("\\t");
            proof {
                reveal_strlit("\\t");
            }
        } else if c == '\n' {
            out.append("\\n");
            proof {
                reveal_strlit("\\n");
            }
        } else if code == 12 {
            out.append("\\f");
            proof {
                reveal_strlit("\\f");
            }
        } else if c == '\r' {
            out.append("\\r");
            proof {
                reveal_strlit("\\r");
            }
        } else if code < 32 {
            out.append("\\u00");
            out.append(hex_char_str(code / 16));
            out.append(hex_char_str(code % 16));
            proof {
                reveal_strlit("\\u00");
            }
        } else {
            out.append(s.substring_char(i, i + 1));
        }
        i = i + 1;
        proof {
            lemma_esc_str_push(s@.take(i - 1), s@[i - 1]);
            assert(s@.take(i as int) =~= s@.take(i - 1).push(s@[i - 1]));
            assert(out@ =~= base + esc_str(s@.take(i as int)));
        }
    }
    proof {
        assert(s@.take(n as int) =~= s@);
    }
    out.append("\"");
    proof {
        reveal_strlit("\"");
        assert(out@ =~= old(out)@ + json_str_text(s@));
    }
}

proof fn lemma_more_text_push(items: Seq<JVal>, x: JVal)
    ensures
        json_more_text(items.push(x)) == json_more_text(items) + seq![','] + json_text(x),
    decreases items.len(),
{
    if items.len() == 0 {
        assert(items.push(x)[0] == x);
        assert(items.push(x).drop_first() =~= Seq::<JVal>::empty());
        assert(seq![','] + json_text(x) + json_more_text(Seq::<JVal>::empty()) =~= seq![',']
            + json_text(x));
        assert(json_more_text(items) + seq![','] + json_text(x) =~= seq![','] + json_text(x));
    } else {
        assert(items.push(x)[0] == items[0]);
        assert(items.push(x).drop_first() =~= items.drop_first().push(x));
        lemma_more_text_push(items.drop_first(), x);
        assert(seq![','] + json_text(items[0]) + (json_more_text(items.drop_first()) + seq![',']
            + json_text(x)) =~= (seq![','] + json_text(items[0]) + json_more_text(
            items.drop_first(),
        )) + seq![','] + json_text(x));
    }
}

proof fn lemma_list_take_next(items: Seq<JVal>, k: int)
    requires
        0 <= k < items.len(),
    ensures
        json_list_text(items.take(k + 1)) == if k == 0 {
            json_text(items[0])
        } else {
            json_list_text(items.take(k)) + seq![','] + json_text(items[k])
        },
{
    assert(items.take(k + 1) =~= items.take(k).push(items[k]));
    let t = items.take(k);
    if k == 0 {
        assert(t.push(items[0])[0] == items[0]);
        assert(t.push(items[0]).drop_first() =~= Seq::<JVal>::empty());
        assert(json_text(items[0]) + json_more_text(Seq::<JVal>::empty()) =~= json_text(
            items[0],
        ));
    } else {
        assert(t.push(items[k])[0] == t[0]);
        assert(t.push(items[k]).drop_first() =~= t.drop_first().push(items[k]));
        lemma_more_text_push(t.drop_first(), items[k]);
        assert(json_text(t[0]) + (json_more_text(t.drop_first()) + seq![','] + json_text(
            items[k],
        )) =~= (json_text(t[0]) + json_more_text(t.drop_first())) + seq![','] + json_text(
            items[k],
        ));
    }
}

proof fn lemma_more_fields_push(fields: Seq<(Seq<char>, JVal)>, x: (Seq<char>, JVal))
    ensures
        json_more_fields_text(fields.push(x)) == json_more_fields_text(fields) + seq![',']
            + json_field_text(x),
    decreases fields.len(),
{
    if fields.len() == 0 {
        assert(fields.push(x)[0] == x);
        assert(fields.push(x).drop_first() =~= Seq::<(Seq<char>, JVal)>::empty());
        assert(seq![','] + json_field_text(x) + json_more_fields_text(
            Seq::<(Seq<char>, JVal)>::empty(),
        ) =~= seq![','] + json_field_text(x));
        assert(json_more_fields_text(fields) + seq![','] + json_field_text(x) =~= seq![',']
            + json_field_text(x));
    } else {
        assert(fields.push(x)[0] == fields[0]);
        assert(fields.push(x).drop_first() =~= fields.drop_first().push(x));
        lemma_more_fields_push(fields.drop_first(), x);
        assert(seq![','] + json_field_text(fields[0]) + (json_more_fields_text(
            fields.drop_first(),
        ) + seq![','] + json_field_text(x)) =~= (seq![','] + json_field_text(fields[0])
            + json_more_fields_text(fields.drop_first())) + seq![','] + json_field_text(x));
    }
}

proof fn lemma_fields_take_next(fields: Seq<(Seq<char>, JVal)>, k: int)
    requires
        0 <= k < fields.len(),
    ensures
        json_fields_text(fields.take(k + 1)) == if k == 0 {
            json_field_text(fields[0])
        } else {
            json_fields_text(fields.take(k)) + seq![','] + json_field_text(fields[k])
        },
{
    assert(fields.take(k + 1) =~= fields.take(k).push(fields[k]));
    let t = fields.take(k);
    if k == 0 {
        assert(t.push(fields[0])[0] == fields[0]);
        assert(t.push(fields[0]).drop_first() =~= Seq::<(Seq<char>, JVal)>::empty());
        assert(json_field_text(fields[0]) + json_more_fields_text(
            Seq::<(Seq<char>, JVal)>::empty(),
        ) =~= json_field_text(fields[0]));
    } else {
        assert(t.push(fields[k])[0] == t[0]);
        assert(t.push(fields[k]).drop_first() =~= t.drop_first().push(fields[k]));
        lemma_more_fields_push(t.drop_first(), fields[k]);
        assert(json_field_text(t[0]) + (json_more_fields_text(t.drop_first()) + seq![',']
            + json_field_text(fields[k])) =~= (json_field_text(t[0]) + json_more_fields_text(
            t.drop_first(),
        )) + seq![','] + json_field_text(fields[k]));
    }
}

/// Append the JSON text of an object with the given fields.
#[verifier::loop_isolation(false)]
pub fn write_json_object(fields: &Vec<(String, JsonValue)>, out: &mut String)
    ensures
        final(out)@ == old(out)@ + json_text(JVal::Object(jv_fields(fields@))),
    decreases fields,
{
    out.append("{");
    let ghost base = out@;
    let ghost model = jv_fields(fields@);
    proof {
        reveal_strlit("{");
        lemma_jv_fields(fields@);
        assert(base =~= old(out)@ + seq!['{']);
        assert(model.take(0) =~= Seq::<(Seq<char>, JVal)>::empty());
        assert(base + json_fields_text(model.take(0)) =~= base);
    }
    let mut k: usize = 0;
    while k < fields.len()
        invariant
            k <= fields@.len(),
            out@ == base + json_fields_text(model.take(k as int)),
        decreases fields@.len() - k,
    {
        if k > 0 {
            out.append(",");
            proof {
                reveal_strlit(",");
            }
        }
        write_json_string(fields[k].0.as_str(), out);
        out.append(":");
        proof {
            reveal_strlit(":");
        }
        write_json_value(&fields[k].1, out);
        k = k + 1;
        proof {
            lemma_fields_take_next(model, k - 1);
            assert(out@ =~= base + json_fields_text(model.take(k as int)));
        }
    }
    proof {
        assert(model.take(fields@.len() as int) =~= model);
    }
    out.append("}");
    proof {
        reveal_strlit("}");
        assert(out@ =~= old(out)@ + json_text(JVal::Object(model)));
    }
}

/// Append the JSON text of a value.
#[verifier::loop_isolation(false)]
pub fn write_json_value(v: &JsonValue, out: &mut String)
    ensures
        final(out)@ == old(out)@ + json_text(v@),
    decreases v,
{
    match v {
        JsonValue::Null => {
            out.append("null");
        },
        JsonValue::Bool(b) => {
            if *b {
                out.append("true");
            } else {
                out.append("false");
            }
        },
        JsonValue::Number(n) => {
            out.append(n.as_str());
        },
        JsonValue::Str(s) => {
            write_json_string(s.as_str(), out);
        },
        JsonValue::Array(items) => {
            out.append("[");
            let ghost base = out@;
            let ghost model = jv_seq(items@);
            proof {
                reveal_strlit("[");
                lemma_jv_seq(items@);
                assert(base =~= old(out)@ + seq!['[']);
                assert(model.take(0) =~= Seq::<JVal>::empty());
                assert(base + json_list_text(model.take(0)) =~= base);
            }
            let mut k: usize = 0;
            while k < items.len()
                invariant
                    k <= items@.len(),
                    out@ == base + json_list_text(model.take(k as int)),
                decreases items@.len() - k,
            {
                if k > 0 {
                    out.append(",");
                    proof {
                        reveal_strlit(",");
                    }
                }
                write_json_value(&items[k], out);
                k = k + 1;
                proof {
                    lemma_list_take_next(model, k - 1);
                    assert(out@ =~= base + json_list_text(model.take(k as int)));
                }
            }
            proof {
                assert(model.take(items@.len() as int) =~= model);
            }
            out.append("]");
            proof {
                reveal_strlit("]");
                assert(out@ =~= old(out)@ + json_text(jv(*v)));
            }
        },
        JsonValue::Object(fields) => {
            write_json_object(fields, out);
        },
    }
}

/// The JSON text of a value, as serde_json would print it for values this
/// crate builds: fields in order, strings escaped, numbers verbatim.
pub fn write_json(v: &JsonValue) -> (r: String)
    ensures
        r@ == json_text(v@),
{
    let mut out = String::new();
    write_json_value(v, &mut out);
    proof {
        assert(Seq::<char>::empty() + json_text(jv(*v)) =~= json_text(jv(*v)));
    }
    out
}

#[verifier::external_type_specification]
#[verifier::external_body]
pub struct ExSerdeValue(serde_json::Value);

/// What serde_json makes of a text: `None` stands for a parse error, `Some`
/// for the model of the parsed value. One text parses to one result.
pub uninterp spec fn json_of(s: Seq<char>) -> Option<JVal>;

/// Relies on serde_json::Value: one arm per variant, each moved over into
/// this crate's own value type; a number keeps serde_json's decimal text.
/// This is the conversion half of [`parse_json`] and is called only there.
#[verifier::external_body]
fn value_to_json(v: serde_json::Value) -> JsonValue {
    match v {
        serde_json::Value::Null => JsonValue::Null,
        serde_json::Value::Bool(b) => JsonValue::Bool(b),
        serde_json::Value::Number(n) => JsonValue::Number(n.to_string()),
        serde_json::Value::String(s) => JsonValue::Str(s),
        serde_json::Value::Array(a) => JsonValue::Array(a.into_iter().map(value_to_json).collect()),
        serde_json::Value::Object(m) => JsonValue::Object(
            m.into_iter().map(|p| (p.0, value_to_json(p.1))).collect(),
        ),
    }
}

/// Relies on serde_json::from_str: whether a text parses, and to what value,
/// is a function of the text alone, named here by [`json_of`].
#[verifier::external_body]
pub(crate) fn parse_json(s: &str) -> (r: Option<JsonValue>)
    ensures
        match r {
            Some(v) => json_of(s@) == Some(v@),
            None => json_of(s@) is None,
        },
{
    match serde_json::from_str::<serde_json::Value>(s) {
        Ok(v) => Some(value_to_json(v)),
        Err(_) => None,
    }
}

} // verus!
