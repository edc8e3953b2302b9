//! Structured values that tasks register into the context, and their JSON
//! encoding.
use vstd::prelude::*;

use crate::text::{decimal, push_decimal, string_of};

verus! {

broadcast use vstd::std_specs::vec::axiom_vec_index_decreases;

/// A JSON-shaped value: what a task registers under its `register:` name
/// and what `{{ name.field }}` templates address.
#[derive(Debug, PartialEq)]
pub enum Value {
    Null,
    Bool(bool),
    Int(i64),
    Str(String),
    Array(Vec<Value>),
    Object(Vec<(String, Value)>),
}

/// The mathematical content of a [`Value`].
pub enum ValueView {
    Null,
    Bool(bool),
    Int(int),
    Str(Seq<char>),
    Array(Seq<ValueView>),
    Object(Seq<(Seq<char>, ValueView)>),
}

pub open spec fn value_view(v: Value) -> ValueView
    decreases v,
{
    match v {
        Value::Null => ValueView::Null,
        Value::Bool(b) => ValueView::Bool(b),
        Value::Int(i) => ValueView::Int(i as int),
        Value::Str(s) => ValueView::Str(s@),
        Value::Array(items) => ValueView::Array(items_view(items@)),
        Value::Object(fields) => ValueView::Object(fields_view(fields@)),
    }
}

pub open spec fn items_view(s: Seq<Value>) -> Seq<ValueView>
    decreases s,
{
    if s.len() == 0 {
        Seq::empty()
    } else {
        items_view(s.drop_last()).push(value_view(s.last()))
    }
}

pub open spec fn fields_view(s: Seq<(String, Value)>) -> Seq<(Seq<char>, ValueView)>
    decreases s,
{
    if s.len() == 0 {
        Seq::empty()
    } else {
        fields_view(s.drop_last()).push((s.last().0@, value_view(s.last().1)))
    }
}

impl View for Value {
    type V = ValueView;

    open spec fn view(&self) -> ValueView {
        value_view(*self)
    }
}

/// The four characters of `true`/`false`/`null` and friends.
pub open spec fn chars4(a: char, b: char, c: char, d: char) -> Seq<char> {
    seq![a, b, c, d]
}

pub open spec fn hex_char(d: nat) -> char {
    if d < 10 {
        crate::text::digit_char(d)
    } else if d == 10 {
        'a'
    } else if d == 11 {
        'b'
    } else if d == 12 {
        'c'
    } else if d == 13 {
        'd'
    } else if d == 14 {
        'e'
    } else {
        'f'
    }
}

/// How one character is written inside a JSON string literal.
pub open spec fn escape_char(c: char) -> Seq<char> {
    let u = c as u32;
    if c == '"' {
        seq!['\\', '"']
    } else if c == '\\' {
        seq!['\\', '\\']
    } else if c == '\n' {
        seq!['\\', 'n']
    } else if c == '\r' {
        seq!['\\', 'r']
    } else if c == '\t' {
        seq!['\\', 't']
    } else if u < 0x20 {
        seq!['\\', 'u', '0', '0', hex_char((u / 16) as nat), hex_char((u % 16) as nat)]
    } else {
        seq![c]
    }
}

pub open spec fn escape(s: Seq<char>) -> Seq<char>
    decreases s.len(),
{
    if s.len() == 0 {
        Seq::empty()
    } else {
        escape(s.drop_last()) + escape_char(s.last())
    }
}

/// A JSON string literal holding `s`.
pub open spec fn json_string(s: Seq<char>) -> Seq<char> {
    seq!['"'] + escape(s) + seq!['"']
}

/// The JSON text of a value (compact, no whitespace).
pub open spec fn json_text(v: ValueView) -> Seq<char>
    decreases v,
{
    match v {
        ValueView::Null => chars4('n', 'u', 'l', 'l'),
        ValueView::Bool(b) => if b {
            chars4('t', 'r', 'u', 'e')
        } else {
            seq!['f'] + chars4('a', 'l', 's', 'e')
        },
        ValueView::Int(i) => decimal(i),
        ValueView::Str(s) => json_string(s),
        ValueView::Array(items) => seq!['['] + json_items(items) + seq![']'],
        ValueView::Object(fields) => seq!['{'] + json_fields(fields) + seq!['}'],
    }
}

/// Comma-separated JSON texts of `items`.
pub open spec fn json_items(items: Seq<ValueView>) -> Seq<char>
    decreases items,
{
    if items.len() == 0 {
        Seq::empty()
    } else if items.len() == 1 {
        json_text(items[0])
    } else {
        json_items(items.drop_last()) + seq![','] + json_text(items.last())
    }
}

/// Comma-separated `"key":value` members.
pub open spec fn json_fields(fields: Seq<(Seq<char>, ValueView)>) -> Seq<char>
    decreases fields,
{
    if fields.len() == 0 {
        Seq::empty()
    } else if fields.len() == 1 {
        json_string(fields[0].0) + seq![':'] + json_text(fields[0].1)
    } else {
        json_fields(fields.drop_last()) + seq![','] + json_string(fields.last().0) + seq![':']
            + json_text(fields.last().1)
    }
}

/// One `"key":value` member.
pub open spec fn json_member(key: Seq<char>, v: ValueView) -> Seq<char> {
    json_string(key) + seq![':'] + json_text(v)
}

fn hex_of(d: u32) -> (c: char)
    requires
        d < 16,
    ensures
        c == hex_char(d as nat),
{
    if d < 10 {
        if d == 0 {
            '0'
        } else if d == 1 {
            '1'
        } else if d == 2 {
            '2'
        } else if d == 3 {
            '3'
        } else if d == 4 {
            '4'
        } else if d == 5 {
            '5'
        } else if d == 6 {
            '6'
        } else if d == 7 {
            '7'
        } else if d == 8 {
            '8'
        } else {
            '9'
        }
    } else if d == 10 {
        'a'
    } else if d == 11 {
        'b'
    } else if d == 12 {
        'c'
    } else if d == 13 {
        'd'
    } else if d == 14 {
        'e'
    } else {
        'f'
    }
}

fn push_escaped_char(c: char, out: &mut Vec<char>)
    ensures
        final(out)@ == old(out)@ + escape_char(c),
{
    let u = c as u32;
    if c == '"' {
        out.push('\\');
        out.push('"');
    } else if c == '\\' {
        out.push('\\');
        out.push('\\');
    } else if c == '\n' {
        out.push('\\');
        out.push('n');
    } else if c == '\r' {
        out.push('\\');
        out.push('r');
    } else if c == '\t' {
        out.push('\\');
        out.push('t');
    } else if u < 0x20 {
        out.push('\\');
        out.push('u');
        out.push('0');
        out.push('0');
        out.push(hex_of(u / 16));
        out.push(hex_of(u % 16));
    } else {
        out.push(c);
    }
    assert(final(out)@ =~= old(out)@ + escape_char(c));
}

/// Appends the JSON string literal for `s`.
pub fn push_json_string(s: &str, out: &mut Vec<char>)
    ensures
        final(out)@ == old(out)@ + json_string(s@),
{
    let cs = crate::text::chars_of(s);
    out.push('"');
    let n = cs.len();
    for i in 0..n
        invariant
            n == cs@.len(),
            cs@ == s@,
            out@ == old(out)@ + seq!['"'] + escape(cs@.take(i as int)),
    {
        push_escaped_char(cs[i], out);
        assert(cs@.take(i + 1).drop_last() == cs@.take(i as int));
    }
    assert(cs@.take(n as int) == cs@);
    out.push('"');
    assert(out@ =~= old(out)@ + json_string(s@));
}

fn push_chars4(a: char, b: char, c: char, d: char, out: &mut Vec<char>)
    ensures
        final(out)@ == old(out)@ + chars4(a, b, c, d),
{
    out.push(a);
    out.push(b);
    out.push(c);
    out.push(d);
    assert(out@ =~= old(out)@ + chars4(a, b, c, d));
}

/// Appends the JSON text of `v`.
pub fn push_json(v: &Value, out: &mut Vec<char>)
    ensures
        final(out)@ == old(out)@ + json_text(v@),
    decreases v,
{
    match v {
        Value::Null => push_chars4('n', 'u', 'l', 'l', out),
        Value::Bool(b) => {
            if *b {
                push_chars4('t', 'r', 'u', 'e', out);
            } else {
                out.push('f');
                push_chars4('a', 'l', 's', 'e', out);
                assert(out@ =~= old(out)@ + (seq!['f'] + chars4('a', 'l', 's', 'e')));
            }
        },
        Value::Int(i) => push_decimal(*i, out),
        Value::Str(s) => push_json_string(s.as_str(), out),
        Value::Array(items) => {
            out.push('[');
            let n = items.len();
            for i in 0..n
                invariant
                    n == items@.len(),
                    *v == Value::Array(*items),
                    out@ == old(out)@ + seq!['['] + json_items(items_view(items@.take(i as int))),
            {
                let ghost before = out@;
                let ghost prev = items_view(items@.take(i as int));
                assert(items@.take(i + 1).drop_last() == items@.take(i as int));
                if i > 0 {
                    out.push(',');
                }
                let item = &items[i];
                proof {
                    assert(decreases_to!(*v => v->Array_0[i as int]));
                }
                push_json(item, out);
                proof {
                    let cur = items_view(items@.take(i + 1));
                    assert(cur == prev.push(value_view(items@[i as int])));
                    assert(cur.drop_last() == prev);
                    if i == 0 {
                        assert(prev.len() == 0);
                        assert(out@ == before + json_items(cur));
                    } else {
                        assert(out@ == before + seq![','] + json_text(items@[i as int]@));
                    }
                }
            }
            assert(items@.take(n as int) == items@);
            out.push(']');
        },
        Value::Object(fields) => {
            out.push('{');
            let n = fields.len();
            for i in 0..n
                invariant
                    n == fields@.len(),
                    *v == Value::Object(*fields),
                    out@ == old(out)@ + seq!['{'] + json_fields(
                        fields_view(fields@.take(i as int)),
                    ),
            {
                let ghost before = out@;
                let ghost prev = fields_view(fields@.take(i as int));
                assert(fields@.take(i + 1).drop_last() == fields@.take(i as int));
                if i > 0 {
                    out.push(',');
                }
                push_json_string(fields[i].0.as_str(), out);
                out.push(':');
                let member = &fields[i].1;
                proof {
                    assert(decreases_to!(*v => v->Object_0[i as int].1));
                }
                push_json(member, out);
                proof {
                    let cur = fields_view(fields@.take(i + 1));
                    let kv = fields@[i as int];
                    assert(cur == prev.push((kv.0@, value_view(kv.1))));
                    assert(cur.drop_last() == prev);
                    if i == 0 {
                        assert(out@ == before + json_member(kv.0@, kv.1@));
                    } else {
                        assert(out@ == before + seq![','] + json_member(kv.0@, kv.1@));
                    }
                }
            }
            assert(fields@.take(n as int) == fields@);
            out.push('}');
        },
    }
}

impl Clone for Value {
    /// A deep copy with the same content.
    fn clone(&self) -> (r: Value)
        ensures
            r@ == self@,
    {
        self.duplicate()
    }
}

impl Value {
    /// The JSON text of the value.
    pub fn to_json(&self) -> (r: String)
        ensures
            r@ == json_text(self@),
    {
        let mut out: Vec<char> = Vec::new();
        push_json(self, &mut out);
        assert(out@ =~= json_text(self@));
        string_of(&out)
    }

    /// A deep copy with the same content.
    pub fn duplicate(&self) -> (r: Value)
        ensures
            r@ == self@,
        decreases self,
    {
        match self {
            Value::Null => Value::Null,
            Value::Bool(b) => Value::Bool(*b),
            Value::Int(i) => Value::Int(*i),
            Value::Str(s) => Value::Str(s.clone()),
            Value::Array(items) => {
                let mut out: Vec<Value> = Vec::new();
                let n = items.len();
                for i in 0..n
                    invariant
                        n == items@.len(),
                        *self == Value::Array(*items),
                        items_view(out@) == items_view(items@.take(i as int)),
                        out@.len() == i,
                {
                    proof {
                        assert(decreases_to!(*self => self->Array_0[i as int]));
                    }
                    let c = items[i].duplicate();
                    let ghost prev = out@;
                    out.push(c);
                    assert(out@.drop_last() == prev);
                    assert(items@.take(i + 1).drop_last() == items@.take(i as int));
                }
                assert(items@.take(n as int) == items@);
                Value::Array(out)
            },
            Value::Object(fields) => {
                let mut out: Vec<(String, Value)> = Vec::new();
                let n = fields.len();
                for i in 0..n
                    invariant
                        n == fields@.len(),
                        *self == Value::Object(*fields),
                        fields_view(out@) == fields_view(fields@.take(i as int)),
                        out@.len() == i,
                {
                    proof {
                        assert(decreases_to!(*self => self->Object_0[i as int].1));
                    }
                    let c = fields[i].1.duplicate();
                    let k = fields[i].0.clone();
                    let ghost prev = out@;
                    out.push((k, c));
                    assert(out@.drop_last() == prev);
                    assert(fields@.take(i + 1).drop_last() == fields@.take(i as int));
                }
                assert(fields@.take(n as int) == fields@);
                Value::Object(out)
            },
        }
    }
}

} // verus!
