//! The JSON text of a value: how the library writes a schema or a set of
//! call arguments down for a validator that reads JSON.
use vstd::prelude::*;

use crate::json::{JsonNumber, JsonObject, JsonValue};
use crate::text::{chars_of, decimal, digit_char, joined, signed_decimal, string_of};

verus! {

/// The lower-case hexadecimal digit for `d < 16`.
pub open spec fn hex_char(d: nat) -> char {
    if d < 10 {
        digit_char(d)
    } else {
        (87 + d) as char
    }
}

/// How one character of a string is written inside quotes: quote and
/// backslash behind a backslash, newline, carriage return and tab by their
/// short escapes, other control characters as `\u00XX`.
pub open spec fn escaped_char(c: char) -> Seq<char> {
    if c == '"' {
        seq!['\\', '"']
    } else if c == '\\' {
        seq!['\\', '\\']
    } else if c == '\n' {
        seq!['\\', 'n']
    } else if c == '\r' {
        seq!['\\', 'r']
    } else if c == '\t' {
        seq!['\\', 't']
    } else if (c as nat) < 32 {
        seq!['\\', 'u', '0', '0', hex_char((c as nat) / 16), hex_char((c as nat) % 16)]
    } else {
        seq![c]
    }
}

/// The characters of `s`, each escaped.
pub open spec fn escaped(s: Seq<char>) -> Seq<char>
    decreases s.len(),
{
    if s.len() == 0 {
        Seq::empty()
    } else {
        escaped(s.drop_last()) + escaped_char(s.last())
    }
}

/// A JSON string literal for `s`.
pub open spec fn quoted(s: Seq<char>) -> Seq<char> {
    seq!['"'] + escaped(s) + seq!['"']
}

/// The text of a number.
pub open spec fn number_text(n: JsonNumber) -> Seq<char> {
    match n {
        JsonNumber::PosInt(u) => decimal(u as nat),
        JsonNumber::NegInt(i) => signed_decimal(i as int),
        JsonNumber::Float(f) => f.json_text@,
    }
}

/// The texts of the items of an array.
pub open spec fn item_texts(items: Seq<JsonValue>) -> Seq<Seq<char>>
    decreases items,
{
    Seq::new(
        items.len(),
        |i: int|
            if 0 <= i < items.len() {
                json_text_of(items[i])
            } else {
                Seq::empty()
            },
    )
}

/// The texts of the entries of an object: the quoted key, a colon, the
/// value.
pub open spec fn entry_texts(entries: Seq<(String, JsonValue)>) -> Seq<Seq<char>>
    decreases entries,
{
    Seq::new(
        entries.len(),
        |i: int|
            if 0 <= i < entries.len() {
                quoted(entries[i].0@) + seq![':'] + json_text_of(entries[i].1)
            } else {
                Seq::empty()
            },
    )
}

/// The compact JSON text of a value: no whitespace, array items and
/// object entries in their order, separated by commas.
pub open spec fn json_text_of(v: JsonValue) -> Seq<char>
    decreases v,
{
    match v {
        JsonValue::Null => seq!['n', 'u', 'l', 'l'],
        JsonValue::Bool(b) => if b {
            seq!['t', 'r', 'u', 'e']
        } else {
            seq!['f', 'a', 'l', 's', 'e']
        },
        JsonValue::Number(n) => number_text(n),
        JsonValue::String(s) => quoted(s@),
        JsonValue::Array(items) => seq!['['] + joined(item_texts(items@), seq![',']) + seq![']'],
        JsonValue::Object(o) => seq!['{'] + joined(entry_texts(o.entries@), seq![',']) + seq!['}'],
    }
}

/// Appending the text of one more part to a joined list.
proof fn lemma_joined_push(parts: Seq<Seq<char>>, i: int)
    requires
        0 <= i < parts.len(),
    ensures
        joined(parts.subrange(0, i + 1), seq![',']) == if i == 0 {
            parts[0]
        } else {
            joined(parts.subrange(0, i), seq![',']) + seq![','] + parts[i]
        },
{
    let now = parts.subrange(0, i + 1);
    assert(now.drop_last() =~= parts.subrange(0, i));
    assert(now.last() == parts[i]);
}

fn hex_digit(d: u32) -> (r: char)
    requires
        d < 16,
    ensures
        r == hex_char(d as nat),
{
    let b: u8 = d as u8;
    if b < 10 {
        (b + 48) as char
    } else {
        (b + 87) as char
    }
}

fn append_chars(out: &mut Vec<char>, cs: &[char])
    ensures
        final(out)@ == old(out)@ + cs@,
{
    let ghost start = out@;
    let mut i: usize = 0;
    while i < cs.len()
        invariant
            i <= cs@.len(),
            out@ == start + cs@.subrange(0, i as int),
        decreases cs@.len() - i,
    {
        out.push(cs[i]);
        i = i + 1;
        assert(out@ =~= start + cs@.subrange(0, i as int));
    }
    assert(cs@.subrange(0, cs@.len() as int) =~= cs@);
}

fn write_escaped_char(out: &mut Vec<char>, c: char)
    ensures
        final(out)@ == old(out)@ + escaped_char(c),
{
    let ghost start = out@;
    if c == '"' {
        out.push('\\');
        out.push('"');
    } else if c == '\\' {
        out.push('\\');
        out.push('\\');
    } else if c == '\n' {
        out.push('\\');
        out.push('n');
    } else if c == '\r' {
        out.push('\\');
        out.push('r');
    } else if c == '\t' {
        out.push('\\');
        out.push('t');
    } else if (c as u32) < 32 {
        let n: u32 = c as u32;
        out.push('\\');
        out.push('u');
        out.push('0');
        out.push('0');
        out.push(hex_digit(n / 16));
        out.push(hex_digit(n % 16));
    } else {
        out.push(c);
    }
    assert(out@ =~= start + escaped_char(c));
}

fn write_quoted(out: &mut Vec<char>, s: &str)
    ensures
        final(out)@ == old(out)@ + quoted(s@),
{
    let ghost start = out@;
    let cs = chars_of(s);
    out.push('"');
    let mut i: usize = 0;
    while i < cs.len()
        invariant
            i <= cs@.len(),
            out@ == start + seq!['"'] + escaped(cs@.subrange(0, i as int)),
        decreases cs@.len() - i,
    {
        let ghost before = cs@.subrange(0, i as int);
        write_escaped_char(out, cs[i]);
        i = i + 1;
        proof {
            let now = cs@.subrange(0, i as int);
            assert(now.drop_last() =~= before);
            assert(now.last() == cs@[i - 1]);
            assert(escaped(now) == escaped(before) + escaped_char(cs@[i - 1]));
            assert(out@ =~= start + seq!['"'] + escaped(now));
        }
    }
    out.push('"');
    assert(cs@.subrange(0, cs@.len() as int) =~= s@);
    assert(out@ =~= start + quoted(s@));
}

fn write_number(out: &mut Vec<char>, n: &JsonNumber)
    ensures
        final(out)@ == old(out)@ + number_text(*n),
{
    match n {
        JsonNumber::PosInt(u) => {
            let cs = crate::text::decimal_chars(*u);
            append_chars(out, cs.as_slice());
        },
        JsonNumber::NegInt(i) => {
            let t = crate::text::i64_text(*i);
            let cs = chars_of(t.as_str());
            append_chars(out, cs.as_slice());
        },
        JsonNumber::Float(f) => {
            let cs = chars_of(f.json_text.as_str());
            append_chars(out, cs.as_slice());
        },
    }
}

fn write_object(out: &mut Vec<char>, whole: &JsonValue, o: &JsonObject)
    requires
        *whole == JsonValue::Object(*o),
    ensures
        final(out)@ == old(out)@ + json_text_of(*whole),
    decreases *whole, 0nat,
{
    let ghost start = out@;
    let ghost parts = entry_texts(o.entries@);
    out.push('{');
    let mut i: usize = 0;
    while i < o.entries.len()
        invariant
            *whole == JsonValue::Object(*o),
            parts == entry_texts(o.entries@),
            i <= o.entries@.len(),
            out@ == start + seq!['{'] + joined(parts.subrange(0, i as int), seq![',']),
        decreases o.entries@.len() - i,
    {
        proof {
            broadcast use vstd::std_specs::vec::axiom_vec_index_decreases;
            assert(decreases_to!(*whole => (*whole)->Object_0));
            assert((*whole)->Object_0 == *o);
            assert(decreases_to!(*o => o.entries));
            assert(decreases_to!(o.entries => o.entries[i as int]));
            assert(decreases_to!(o.entries[i as int] => o.entries[i as int].1));
            assert(decreases_to!(*whole => o.entries[i as int].1));
        }
        let ghost mid = out@;
        if i > 0 {
            out.push(',');
        }
        write_quoted(out, o.entries[i].0.as_str());
        out.push(':');
        write_json(out, &o.entries[i].1);
        proof {
            lemma_joined_push(parts, i as int);
            assert(parts[i as int] == quoted(o.entries@[i as int].0@) + seq![':'] + json_text_of(
                o.entries@[i as int].1,
            ));
            if i == 0 {
                assert(out@ =~= start + seq!['{'] + parts[0]);
            } else {
                assert(out@ =~= mid + seq![','] + parts[i as int]);
            }
        }
        i = i + 1;
    }
    out.push('}');
    assert(parts.subrange(0, o.entries@.len() as int) =~= parts);
    assert(out@ =~= start + json_text_of(*whole));
}

/// Appends the JSON text of `v`.
fn write_json(out: &mut Vec<char>, v: &JsonValue)
    ensures
        final(out)@ == old(out)@ + json_text_of(*v),
    decreases *v, 1nat,
{
    let ghost start = out@;
    match v {
        JsonValue::Null => {
            out.push('n');
            out.push('u');
            out.push('l');
            out.push('l');
            assert(out@ =~= start + json_text_of(*v));
        },
        JsonValue::Bool(b) => {
            if *b {
                out.push('t');
                out.push('r');
                out.push('u');
                out.push('e');
            } else {
                out.push('f');
                out.push('a');
                out.push('l');
                out.push('s');
                out.push('e');
            }
            assert(out@ =~= start + json_text_of(*v));
        },
        JsonValue::Number(n) => {
            write_number(out, n);
        },
        JsonValue::String(s) => {
            write_quoted(out, s.as_str());
        },
        JsonValue::Array(items) => {
            let ghost parts = item_texts(items@);
            out.push('[');
            let mut i: usize = 0;
            while i < items.len()
                invariant
                    *v == JsonValue::Array(*items),
                    parts == item_texts(items@),
                    i <= items@.len(),
                    out@ == start + seq!['['] + joined(parts.subrange(0, i as int), seq![',']),
                decreases items@.len() - i,
            {
                proof {
                    broadcast use vstd::std_specs::vec::axiom_vec_index_decreases;
                    assert(decreases_to!(*v => (*v)->Array_0));
                    assert((*v)->Array_0 == *items);
                    assert(decreases_to!(*items => items[i as int]));
                    assert(decreases_to!(*v => items[i as int]));
                }
                let ghost mid = out@;
                if i > 0 {
                    out.push(',');
                }
                write_json(out, &items[i]);
                proof {
                    lemma_joined_push(parts, i as int);
                    assert(parts[i as int] == json_text_of(items@[i as int]));
                    if i == 0 {
                        assert(out@ =~= start + seq!['['] + parts[0]);
                    } else {
                        assert(out@ =~= mid + seq![','] + parts[i as int]);
                    }
                }
                i = i + 1;
            }
            out.push(']');
            assert(parts.subrange(0, items@.len() as int) =~= parts);
            assert(out@ =~= start + json_text_of(*v));
        },
        JsonValue::Object(o) => {
            write_object(out, v, o);
        },
    }
}

/// The compact JSON text of a value.
pub fn json_text(v: &JsonValue) -> (r: String)
    ensures
        r@ == json_text_of(*v),
{
    let mut out: Vec<char> = Vec::new();
    write_json(&mut out, v);
    assert(out@ =~= json_text_of(*v));
    string_of(out.as_slice())
}

} // verus!
