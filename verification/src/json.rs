//! A plain JSON value: the library's own model of the documents that cross
//! the wire. The library writes documents with its own verified serializer,
//! whose output is pinned down character by character; reading the remote
//! side's replies is delegated to an outside parser behind a trusted wrapper.

use vstd::prelude::*;
use vstd::string::*;
use serde_json::Value;
use crate::text::{dec_digits, int_digits, push_char, u64_to_string, i64_to_string, join_with, lemma_join_with_push};

verus! {

/// A JSON document as plain data.
pub enum JsonValue {
    Null,
    Bool(bool),
    /// A non-negative integer.
    UInt(u64),
    /// A negative integer.
    Int(i64),
    /// A number that is neither, kept in its textual form.
    NumText(String),
    Str(String),
    Arr(Vec<JsonValue>),
    Obj(Vec<(String, JsonValue)>),
}

// ---------------------------------------------------------------------------
// Serialization: the exact characters this library puts on the wire.
// ---------------------------------------------------------------------------

/// The character for a hexadecimal digit below 16.
pub open spec fn hex_char(d: nat) -> char {
    if d == 0 {
        '0'
    } else if d == 1 {
        '1'
    } else if d == 2 {
        '2'
    } else if d == 3 {
        '3'
    } else if d == 4 {
        '4'
    } else if d == 5 {
        '5'
    } else if d == 6 {
        '6'
    } else if d == 7 {
        '7'
    } else if d == 8 {
        '8'
    } else if d == 9 {
        '9'
    } else if d == 10 {
        'a'
    } else if d == 11 {
        'b'
    } else if d == 12 {
        'c'
    } else if d == 13 {
        'd'
    } else if d == 14 {
        'e'
    } else {
        'f'
    }
}

/// How one character reads inside a JSON string literal: quote and backslash
/// are escaped, the common control characters get their short escapes, any
/// other control character a `\u00..` escape, and everything else stands as
/// itself.
pub open spec fn escaped_char(c: char) -> Seq<char> {
    if c == '"' {
        seq!['\\', '"']
    } else if c == '\\' {
        seq!['\\', '\\']
    } else if c == '\n' {
        seq!['\\', 'n']
    } else if c == '\r' {
        seq!['\\', 'r']
    } else if c == '\t' {
        seq!['\\', 't']
    } else if (c as u32) < 32 {
        seq!['\\', 'u', '0', '0', hex_char((c as u32 / 16) as nat), hex_char(
            (c as u32 % 16) as nat,
        )]
    } else {
        seq![c]
    }
}

pub open spec fn escape_string(s: Seq<char>) -> Seq<char>
    decreases s.len(),
{
    if s.len() == 0 {
        Seq::empty()
    } else {
        escaped_char(s[0]) + escape_string(s.drop_first())
    }
}

/// A JSON string literal: the escaped characters between double quotes.
pub open spec fn quoted(s: Seq<char>) -> Seq<char> {
    seq!['"'] + escape_string(s) + seq!['"']
}

/// The pieces joined by commas, as array elements and object members are.
pub open spec fn comma_join(parts: Seq<Seq<char>>) -> Seq<char>
    decreases parts.len(),
{
    if parts.len() == 0 {
        Seq::empty()
    } else if parts.len() == 1 {
        parts[0]
    } else {
        parts[0] + seq![','] + comma_join(parts.drop_first())
    }
}

/// The exact characters this library writes for a JSON value: compact (no
/// added whitespace), object members in the order the value holds them.
pub open spec fn json_chars(v: JsonValue) -> Seq<char>
    decreases v,
{
    match v {
        JsonValue::Null => "null"@,
        JsonValue::Bool(b) => if b {
            "true"@
        } else {
            "false"@
        },
        JsonValue::UInt(n) => dec_digits(n as nat),
        JsonValue::Int(n) => int_digits(n as int),
        JsonValue::NumText(s) => s@,
        JsonValue::Str(s) => quoted(s@),
        JsonValue::Arr(items) => seq!['['] + comma_join(arr_parts(items@)) + seq![']'],
        JsonValue::Obj(fields) => seq!['{'] + comma_join(obj_parts(fields@)) + seq!['}'],
    }
}

/// The rendered elements of an array.
pub open spec fn arr_parts(items: Seq<JsonValue>) -> Seq<Seq<char>>
    decreases items,
{
    Seq::new(
        items.len(),
        |i: int|
            if 0 <= i < items.len() {
                json_chars(items[i])
            } else {
                Seq::empty()
            },
    )
}

/// The rendered members of an object, each a quoted key, a colon, a value.
pub open spec fn obj_parts(fields: Seq<(String, JsonValue)>) -> Seq<Seq<char>>
    decreases fields,
{
    Seq::new(
        fields.len(),
        |i: int|
            if 0 <= i < fields.len() {
                quoted(fields[i].0@) + seq![':'] + json_chars(fields[i].1)
            } else {
                Seq::empty()
            },
    )
}

proof fn lemma_escape_push(t: Seq<char>, c: char)
    ensures
        escape_string(t.push(c)) == escape_string(t) + escaped_char(c),
    decreases t.len(),
{
    if t.len() == 0 {
        assert(t.push(c)[0] == c);
        assert(t.push(c).drop_first() =~= Seq::<char>::empty());
        assert(escape_string(t.push(c)) =~= escaped_char(c) + escape_string(Seq::<char>::empty()));
        assert(escaped_char(c) + Seq::<char>::empty() =~= escaped_char(c));
        assert(escape_string(t) =~= Seq::<char>::empty());
        assert(Seq::<char>::empty() + escaped_char(c) =~= escaped_char(c));
    } else {
        assert(t.push(c).drop_first() =~= t.drop_first().push(c));
        lemma_escape_push(t.drop_first(), c);
        assert(escape_string(t.push(c)) =~= escape_string(t) + escaped_char(c));
    }
}

pub proof fn lemma_comma_join_push(parts: Seq<Seq<char>>, x: Seq<char>)
    ensures
        parts.len() == 0 ==> comma_join(parts.push(x)) == x,
        parts.len() > 0 ==> comma_join(parts.push(x)) == comma_join(parts) + seq![','] + x,
    decreases parts.len(),
{
    if parts.len() == 0 {
        assert(comma_join(parts.push(x)) == parts.push(x)[0]);
        assert(parts.push(x)[0] == x);
    } else if parts.len() == 1 {
        assert(parts.push(x).drop_first() =~= parts.drop_first().push(x));
        assert(parts.push(x)[0] == parts[0]);
        assert(comma_join(parts.drop_first().push(x)) == x) by {
            lemma_comma_join_push(parts.drop_first(), x);
        }
        assert(comma_join(parts) + seq![','] + x =~= parts[0] + seq![','] + x);
    } else {
        assert(parts.push(x).drop_first() =~= parts.drop_first().push(x));
        assert(parts.push(x)[0] == parts[0]);
        lemma_comma_join_push(parts.drop_first(), x);
        assert(comma_join(parts.push(x)) =~= comma_join(parts) + seq![','] + x);
    }
}

fn hex_digit(d: u32) -> (c: char)
    requires
        d < 16,
    ensures
        c == hex_char(d as nat),
{
    if d == 0 {
        '0'
    } else if d == 1 {
        '1'
    } else if d == 2 {
        '2'
    } else if d == 3 {
        '3'
    } else if d == 4 {
        '4'
    } else if d == 5 {
        '5'
    } else if d == 6 {
        '6'
    } else if d == 7 {
        '7'
    } else if d == 8 {
        '8'
    } else if d == 9 {
        '9'
    } else if d == 10 {
        'a'
    } else if d == 11 {
        'b'
    } else if d == 12 {
        'c'
    } else if d == 13 {
        'd'
    } else if d == 14 {
        'e'
    } else {
        'f'
    }
}

fn push_escaped(out: &mut String, c: char)
    ensures
        final(out)@ == old(out)@ + escaped_char(c),
{
    if c == '"' {
        push_char(out, '\\');
        push_char(out, '"');
    } else if c == '\\' {
        push_char(out, '\\');
        push_char(out, '\\');
    } else if c == '\n' {
        push_char(out, '\\');
        push_char(out, 'n');
    } else if c == '\r' {
        push_char(out, '\\');
        push_char(out, 'r');
    } else if c == '\t' {
        push_char(out, '\\');
        push_char(out, 't');
    } else if (c as u32) < 32 {
        let v = c as u32;
        push_char(out, '\\');
        push_char(out, 'u');
        push_char(out, '0');
        push_char(out, '0');
        push_char(out, hex_digit(v / 16));
        push_char(out, hex_digit(v % 16));
        proof {
            assert(final(out)@ =~= old(out)@ + escaped_char(c));
        }
    } else {
        push_char(out, c);
        proof {
            assert(final(out)@ =~= old(out)@ + escaped_char(c));
        }
    }
    proof {
        assert(final(out)@ =~= old(out)@ + escaped_char(c));
    }
}

#[verifier::loop_isolation(false)]
pub fn push_quoted(out: &mut String, s: &str)
    ensures
        final(out)@ == old(out)@ + quoted(s@),
{
    push_char(out, '"');
    let n = s.unicode_len();
    let mut i: usize = 0;
    while i < n
        invariant
            0 <= i <= n == s@.len(),
            out@ == old(out)@ + seq!['"'] + escape_string(s@.take(i as int)),
        decreases n - i,
    {
        let c = s.get_char(i);
        push_escaped(out, c);
        proof {
            assert(s@.take(i + 1).drop_last() =~= s@.take(i as int));
            assert(s@.take(i + 1) =~= s@.take(i as int).push(c));
            lemma_escape_push(s@.take(i as int), c);
        }
        i = i + 1;
    }
    push_char(out, '"');
    proof {
        assert(s@.take(n as int) =~= s@);
        assert(final(out)@ =~= old(out)@ + quoted(s@));
    }
}

#[verifier::loop_isolation(false)]
pub fn push_json(out: &mut String, v: &JsonValue)
    ensures
        final(out)@ == old(out)@ + json_chars(*v),
    decreases v,
{
    match v {
        JsonValue::Null => {
            out.append("null");
        },
        JsonValue::Bool(b) => {
            if *b {
                out.append("true");
            } else {
                out.append("false");
            }
        },
        JsonValue::UInt(n) => {
            let digits = u64_to_string(*n);
            out.append(digits.as_str());
        },
        JsonValue::Int(n) => {
            let digits = i64_to_string(*n);
            out.append(digits.as_str());
        },
        JsonValue::NumText(s) => {
            out.append(s.as_str());
        },
        JsonValue::Str(s) => {
            push_quoted(out, s.as_str());
        },
        JsonValue::Arr(items) => {
            let ghost parts = arr_parts(items@);
            push_char(out, '[');
            let mut j: usize = 0;
            while j < items.len()
                invariant
                    0 <= j <= items.len(),
                    out@ == old(out)@ + seq!['['] + comma_join(parts.take(j as int)),
                decreases items.len() - j,
            {
                if j > 0 {
                    push_char(out, ',');
                }
                push_json(out, &items[j]);
                proof {
                    lemma_comma_join_push(parts.take(j as int), parts[j as int]);
                    assert(parts.take(j + 1) =~= parts.take(j as int).push(parts[j as int]));
                    assert(out@ =~= old(out)@ + seq!['['] + comma_join(parts.take(j + 1)));
                }
                j = j + 1;
            }
            push_char(out, ']');
            proof {
                assert(parts.take(items@.len() as int) =~= parts);
                assert(out@ =~= old(out)@ + (seq!['['] + comma_join(parts) + seq![']']));
            }
        },
        JsonValue::Obj(fields) => {
            let ghost parts = obj_parts(fields@);
            push_char(out, '{');
            let mut j: usize = 0;
            while j < fields.len()
                invariant
                    0 <= j <= fields.len(),
                    out@ == old(out)@ + seq!['{'] + comma_join(parts.take(j as int)),
                decreases fields.len() - j,
            {
                if j > 0 {
                    push_char(out, ',');
                }
                push_quoted(out, fields[j].0.as_str());
                push_char(out, ':');
                push_json(out, &fields[j].1);
                proof {
                    lemma_comma_join_push(parts.take(j as int), parts[j as int]);
                    assert(parts.take(j + 1) =~= parts.take(j as int).push(parts[j as int]));
                    assert(out@ =~= old(out)@ + seq!['{'] + comma_join(parts.take(j + 1)));
                }
                j = j + 1;
            }
            push_char(out, '}');
            proof {
                assert(parts.take(fields@.len() as int) =~= parts);
                assert(json_chars(*v) == seq!['{'] + comma_join(parts) + seq!['}']);
                assert(out@ =~= old(out)@ + (seq!['{'] + comma_join(parts) + seq!['}']));
            }
        },
    }
}

/// Serializes a JSON value to its exact textual form, `json_chars`.
pub fn json_text(v: &JsonValue) -> (r: String)
    ensures
        r@ == json_chars(*v),
{
    let mut out = String::new();
    push_json(&mut out, v);
    proof {
        assert(out@ =~= json_chars(*v));
    }
    out
}

// ---------------------------------------------------------------------------
// Pretty serialization: the same values, with two-space indentation, for
// reader-facing dumps of a whole document.
// ---------------------------------------------------------------------------

/// What separates pretty-printed neighbours: a comma, a line break, and the
/// indentation of the nesting level.
pub open spec fn pretty_sep(ind: Seq<char>) -> Seq<char> {
    seq![',', '\n'] + ind
}

/// The pretty form of a value at a nesting level whose indentation prefix is
/// `ind`: scalars as in the compact form; a non-empty array or object opens,
/// puts each element on its own deeper-indented line, and closes on a line
/// of its own.
pub open spec fn json_pretty(v: JsonValue, ind: Seq<char>) -> Seq<char>
    decreases v,
{
    match v {
        JsonValue::Arr(items) => if items@.len() == 0 {
            "[]"@
        } else {
            seq!['['] + seq!['\n'] + (ind + "  "@) + join_with(
                arr_pretty_parts(items@, ind + "  "@),
                pretty_sep(ind + "  "@),
            ) + seq!['\n'] + ind + seq![']']
        },
        JsonValue::Obj(fields) => if fields@.len() == 0 {
            "{}"@
        } else {
            seq!['{'] + seq!['\n'] + (ind + "  "@) + join_with(
                obj_pretty_parts(fields@, ind + "  "@),
                pretty_sep(ind + "  "@),
            ) + seq!['\n'] + ind + seq!['}']
        },
        _ => json_chars(v),
    }
}

/// The pretty-rendered elements of an array.
pub open spec fn arr_pretty_parts(items: Seq<JsonValue>, ind: Seq<char>) -> Seq<Seq<char>>
    decreases items,
{
    Seq::new(
        items.len(),
        |i: int|
            if 0 <= i < items.len() {
                json_pretty(items[i], ind)
            } else {
                Seq::empty()
            },
    )
}

/// The pretty-rendered members of an object: a quoted key, a colon and a
/// space, the value.
pub open spec fn obj_pretty_parts(fields: Seq<(String, JsonValue)>, ind: Seq<char>) -> Seq<
    Seq<char>,
>
    decreases fields,
{
    Seq::new(
        fields.len(),
        |i: int|
            if 0 <= i < fields.len() {
                quoted(fields[i].0@) + ": "@ + json_pretty(fields[i].1, ind)
            } else {
                Seq::empty()
            },
    )
}

/// The pretty form of a whole document, starting unindented.
pub open spec fn json_pretty_chars(v: JsonValue) -> Seq<char> {
    json_pretty(v, Seq::empty())
}

#[verifier::rlimit(60)]
#[verifier::loop_isolation(false)]
fn push_json_pretty(out: &mut String, v: &JsonValue, ind: &String)
    ensures
        final(out)@ == old(out)@ + json_pretty(*v, ind@),
    decreases v,
{
    match v {
        JsonValue::Null => {
            out.append("null");
        },
        JsonValue::Bool(b) => {
            if *b {
                out.append("true");
            } else {
                out.append("false");
            }
        },
        JsonValue::UInt(n) => {
            let digits = u64_to_string(*n);
            out.append(digits.as_str());
        },
        JsonValue::Int(n) => {
            let digits = i64_to_string(*n);
            out.append(digits.as_str());
        },
        JsonValue::NumText(s) => {
            out.append(s.as_str());
        },
        JsonValue::Str(s) => {
            push_quoted(out, s.as_str());
        },
        JsonValue::Arr(items) => {
            if items.len() == 0 {
                out.append("[]");
            } else {
                let mut deeper = ind.clone();
                deeper.append("  ");
                proof {
                    assert(deeper@ =~= ind@ + "  "@);
                }
                let ghost parts = arr_pretty_parts(items@, deeper@);
                let ghost sep = pretty_sep(deeper@);
                push_char(out, '[');
                push_char(out, '\n');
                out.append(deeper.as_str());
                let mut j: usize = 0;
                while j < items.len()
                    invariant
                        0 <= j <= items@.len(),
                        out@ == old(out)@ + seq!['['] + seq!['\n'] + deeper@ + join_with(
                            parts.take(j as int),
                            sep,
                        ),
                    decreases items@.len() - j,
                {
                    if j > 0 {
                        push_char(out, ',');
                        push_char(out, '\n');
                        out.append(deeper.as_str());
                    }
                    push_json_pretty(out, &items[j], &deeper);
                    proof {
                        lemma_join_with_push(parts.take(j as int), sep, parts[j as int]);
                        assert(parts.take(j + 1) =~= parts.take(j as int).push(parts[j as int]));
                        assert(out@ =~= old(out)@ + seq!['['] + seq!['\n'] + deeper@ + join_with(
                            parts.take(j + 1),
                            sep,
                        ));
                    }
                    j = j + 1;
                }
                push_char(out, '\n');
                out.append(ind.as_str());
                push_char(out, ']');
                proof {
                    assert(parts.take(items@.len() as int) =~= parts);
                    assert(out@ =~= old(out)@ + (seq!['['] + seq!['\n'] + (ind@ + "  "@)
                        + join_with(
                        arr_pretty_parts(items@, ind@ + "  "@),
                        pretty_sep(ind@ + "  "@),
                    ) + seq!['\n'] + ind@ + seq![']']));
                }
            }
        },
        JsonValue::Obj(fields) => {
            if fields.len() == 0 {
                out.append("{}");
            } else {
                let mut deeper = ind.clone();
                deeper.append("  ");
                proof {
                    assert(deeper@ =~= ind@ + "  "@);
                }
                let ghost parts = obj_pretty_parts(fields@, deeper@);
                let ghost sep = pretty_sep(deeper@);
                push_char(out, '{');
                push_char(out, '\n');
                out.append(deeper.as_str());
                let mut j: usize = 0;
                while j < fields.len()
                    invariant
                        0 <= j <= fields@.len(),
                        out@ == old(out)@ + seq!['{'] + seq!['\n'] + deeper@ + join_with(
                            parts.take(j as int),
                            sep,
                        ),
                    decreases fields@.len() - j,
                {
                    if j > 0 {
                        push_char(out, ',');
                        push_char(out, '\n');
                        out.append(deeper.as_str());
                    }
                    push_quoted(out, fields[j].0.as_str());
                    out.append(": ");
                    push_json_pretty(out, &fields[j].1, &deeper);
                    proof {
                        lemma_join_with_push(parts.take(j as int), sep, parts[j as int]);
                        assert(parts.take(j + 1) =~= parts.take(j as int).push(parts[j as int]));
                        assert(out@ =~= old(out)@ + seq!['{'] + seq!['\n'] + deeper@ + join_with(
                            parts.take(j + 1),
                            sep,
                        ));
                    }
                    j = j + 1;
                }
                push_char(out, '\n');
                out.append(ind.as_str());
                push_char(out, '}');
                proof {
                    assert(parts.take(fields@.len() as int) =~= parts);
                    assert(out@ =~= old(out)@ + (seq!['{'] + seq!['\n'] + (ind@ + "  "@)
                        + join_with(
                        obj_pretty_parts(fields@, ind@ + "  "@),
                        pretty_sep(ind@ + "  "@),
                    ) + seq!['\n'] + ind@ + seq!['}']));
                }
            }
        },
    }
}

/// Serializes a JSON value pretty-printed, `json_pretty_chars`.
pub fn json_text_pretty(v: &JsonValue) -> (r: String)
    ensures
        r@ == json_pretty_chars(*v),
{
    let mut out = String::new();
    let ind = String::new();
    push_json_pretty(&mut out, v, &ind);
    proof {
        assert(out@ =~= json_pretty(*v, Seq::<char>::empty()));
    }
    out
}

// ---------------------------------------------------------------------------
// Reading values.
// ---------------------------------------------------------------------------

/// The value under a key among an object's members, first occurrence first
/// (an outside parser hands this library objects with unique keys).
pub open spec fn obj_get(fields: Seq<(String, JsonValue)>, key: Seq<char>) -> Option<JsonValue>
    decreases fields.len(),
{
    if fields.len() == 0 {
        None
    } else if fields[0].0@ == key {
        Some(fields[0].1)
    } else {
        obj_get(fields.drop_first(), key)
    }
}

/// The value under `key` if this value is an object that has it.
pub open spec fn spec_lookup(v: JsonValue, key: Seq<char>) -> Option<JsonValue> {
    match v {
        JsonValue::Obj(fields) => obj_get(fields@, key),
        _ => None,
    }
}

impl JsonValue {
    /// Looks a key up, as object member access; None on any non-object.
    #[verifier::loop_isolation(false)]
    pub fn lookup<'a>(&'a self, key: &str) -> (r: Option<&'a JsonValue>)
        ensures
            match r {
                Some(found) => spec_lookup(*self, key@) == Some(*found),
                None => spec_lookup(*self, key@) is None,
            },
    {
        match self {
            JsonValue::Obj(fields) => {
                let wanted = String::from_str(key);
                proof {
                    assert(fields@.skip(0) =~= fields@);
                }
                let mut j: usize = 0;
                while j < fields.len()
                    invariant
                        0 <= j <= fields@.len(),
                        wanted@ == key@,
                        forall|k: int| 0 <= k < j ==> #[trigger] fields@[k].0@ != key@,
                        obj_get(fields@, key@) == obj_get(fields@.skip(j as int), key@),
                    decreases fields@.len() - j,
                {
                    if fields[j].0.eq(&wanted) {
                        proof {
                            assert(fields@.skip(j as int)[0] == fields@[j as int]);
                        }
                        return Some(&fields[j].1);
                    }
                    proof {
                        assert(fields@.skip(j as int)[0] == fields@[j as int]);
                        assert(fields@.skip(j as int).drop_first() =~= fields@.skip(j + 1));
                    }
                    j = j + 1;
                }
                proof {
                    assert(fields@.skip(j as int).len() == 0);
                }
                None
            },
            _ => None,
        }
    }

    /// The characters of this value if it is a string.
    pub fn as_str<'a>(&'a self) -> (r: Option<&'a String>)
        ensures
            match r {
                Some(s) => *self == JsonValue::Str(*s),
                None => !(self is Str),
            },
    {
        match self {
            JsonValue::Str(s) => Some(s),
            _ => None,
        }
    }

    /// The elements of this value if it is an array.
    pub fn as_array<'a>(&'a self) -> (r: Option<&'a Vec<JsonValue>>)
        ensures
            match r {
                Some(items) => *self == JsonValue::Arr(*items),
                None => !(self is Arr),
            },
    {
        match self {
            JsonValue::Arr(items) => Some(items),
            _ => None,
        }
    }

    /// This value as a non-negative integer, if it is one.
    pub fn as_u64(&self) -> (r: Option<u64>)
        ensures
            match r {
                Some(n) => *self == JsonValue::UInt(n),
                None => !(self is UInt),
            },
    {
        match self {
            JsonValue::UInt(n) => Some(*n),
            _ => None,
        }
    }

    /// This value as a signed integer: negative numbers, and non-negative
    /// ones that fit.
    pub fn as_i64(&self) -> (r: Option<i64>)
        ensures
            match r {
                Some(n) => (*self == JsonValue::Int(n)) || (*self == JsonValue::UInt(n as u64)
                    && n >= 0),
                None => match *self {
                    JsonValue::Int(_) => false,
                    JsonValue::UInt(m) => m > i64::MAX,
                    _ => true,
                },
            },
    {
        match self {
            JsonValue::Int(n) => Some(*n),
            JsonValue::UInt(n) => {
                if *n <= 9223372036854775807u64 {
                    Some(*n as i64)
                } else {
                    None
                }
            },
            _ => None,
        }
    }

    pub fn is_null(&self) -> (r: bool)
        ensures
            r == (self is Null),
    {
        match self {
            JsonValue::Null => true,
            _ => false,
        }
    }
}

// ---------------------------------------------------------------------------
// Parsing, through the outside parser.
// ---------------------------------------------------------------------------

#[verifier::external_type_specification]
#[verifier::external_body]
pub struct ExSerdeValue(serde_json::Value);

/// The document that standard JSON text denotes, as this library's own value
/// (integers as integers, other numbers textual, object members in parser
/// order); None where the text is not valid JSON. This is the behaviour of
/// the outside parser, named rather than restated.
pub uninterp spec fn json_document_of(s: Seq<char>) -> Option<JsonValue>;

/// Relies on serde_json::from_str, which accepts exactly the standard JSON
/// grammar; `value_to_plain` then carries the parsed document over into the
/// library's own value. The error case carries the parser's message.
#[verifier::external_body]
pub fn parse_json(s: &str) -> (r: Result<JsonValue, String>)
    ensures
        (r is Ok) == (json_document_of(s@) is Some),
        r matches Ok(v) ==> json_document_of(s@) == Some(v),
{
    match serde_json::from_str::<Value>(s) {
        Ok(v) => Ok(value_to_plain(&v)),
        Err(e) => Err(e.to_string()),
    }
}

/// Relies on serde_json::Value's own shape: carries each variant into the
/// library's value, one arm each; integral numbers become integers, other
/// numbers keep their textual form.
#[verifier::external_body]
fn value_to_plain(v: &Value) -> JsonValue {
    match v {
        Value::Null => JsonValue::Null,
        Value::Bool(b) => JsonValue::Bool(*b),
        Value::Number(n) => match (n.as_u64(), n.as_i64()) {
            (Some(u), _) => JsonValue::UInt(u),
            (None, Some(i)) => JsonValue::Int(i),
            (None, None) => JsonValue::NumText(n.to_string()),
        },
        Value::String(s) => JsonValue::Str(s.clone()),
        Value::Array(a) => JsonValue::Arr(a.iter().map(value_to_plain).collect()),
        Value::Object(m) => JsonValue::Obj(
            m.iter().map(|(k, x)| (k.clone(), value_to_plain(x))).collect(),
        ),
    }
}

} // verus!

