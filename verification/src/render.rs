//! Rendering values as text: decimal numbers, JSON documents, and the
//! debug-style listings that failure messages quote.
use vstd::prelude::*;
use vstd::string::StrSliceExecFns;
use vstd::string::StringExecFns;

use crate::json::{json_view, json_view_entries, json_view_seq, lemma_json_view_entries,
    lemma_json_view_seq, JsonValue, JsonView};

verus! {

/// Relies on String::push: appends exactly the given character.
#[verifier::external_body]
pub(crate) fn push_char(s: &mut String, c: char)
    ensures
        final(s)@ == old(s)@.push(c),
{
    s.push(c);
}

pub open spec fn dec_digit(d: nat) -> char {
    if d == 0 {
        '0'
    } else if d == 1 {
        '1'
    } else if d == 2 {
        '2'
    } else if d == 3 {
        '3'
    } else if d == 4 {
        '4'
    } else if d == 5 {
        '5'
    } else if d == 6 {
        '6'
    } else if d == 7 {
        '7'
    } else if d == 8 {
        '8'
    } else {
        '9'
    }
}

/// The decimal text of a non-negative number, most significant digit first.
pub open spec fn dec_text(n: nat) -> Seq<char>
    decreases n,
{
    if n < 10 {
        seq![dec_digit(n)]
    } else {
        dec_text(n / 10).push(dec_digit(n % 10))
    }
}

/// The decimal text of an integer, with a leading minus sign when negative.
pub open spec fn int_text(n: int) -> Seq<char> {
    if n < 0 {
        seq!['-'] + dec_text((-n) as nat)
    } else {
        dec_text(n as nat)
    }
}

fn digit_char(d: u64) -> (c: char)
    requires
        d < 10,
    ensures
        c == dec_digit(d as nat),
{
    if d == 0 {
        '0'
    } else if d == 1 {
        '1'
    } else if d == 2 {
        '2'
    } else if d == 3 {
        '3'
    } else if d == 4 {
        '4'
    } else if d == 5 {
        '5'
    } else if d == 6 {
        '6'
    } else if d == 7 {
        '7'
    } else if d == 8 {
        '8'
    } else {
        '9'
    }
}

pub fn push_u64(out: &mut String, n: u64)
    ensures
        final(out)@ == old(out)@ + dec_text(n as nat),
    decreases n,
{
    if n < 10 {
        let c = digit_char(n);
        push_char(out, c);
    } else {
        push_u64(out, n / 10);
        let c = digit_char(n % 10);
        push_char(out, c);
    }
}

pub fn push_i64(out: &mut String, n: i64)
    ensures
        final(out)@ == old(out)@ + int_text(n as int),
{
    if n >= 0 {
        push_u64(out, n as u64);
    } else {
        push_char(out, '-');
        let mag: u64 = if n == i64::MIN {
            9223372036854775808u64
        } else {
            (-n) as u64
        };
        push_u64(out, mag);
    }
}

pub open spec fn hex_digit(d: nat) -> char {
    if d < 10 {
        dec_digit(d)
    } else if d == 10 {
        'a'
    } else if d == 11 {
        'b'
    } else if d == 12 {
        'c'
    } else if d == 13 {
        'd'
    } else if d == 14 {
        'e'
    } else {
        'f'
    }
}

fn hex_char(d: u32) -> (c: char)
    requires
        d < 16,
    ensures
        c == hex_digit(d as nat),
{
    if d < 10 {
        digit_char(d as u64)
    } else if d == 10 {
        'a'
    } else if d == 11 {
        'b'
    } else if d == 12 {
        'c'
    } else if d == 13 {
        'd'
    } else if d == 14 {
        'e'
    } else {
        'f'
    }
}

/// How one character is written inside a JSON string literal.
pub open spec fn json_escaped_char(c: char) -> Seq<char> {
    if c == '"' {
        seq!['\\', '"']
    } else if c == '\\' {
        seq!['\\', '\\']
    } else if c == '\u{8}' {
        seq!['\\', 'b']
    } else if c == '\t' {
        seq!['\\', 't']
    } else if c == '\n' {
        seq!['\\', 'n']
    } else if c == '\u{c}' {
        seq!['\\', 'f']
    } else if c == '\r' {
        seq!['\\', 'r']
    } else if (c as int) < 32 {
        seq!['\\', 'u', '0', '0', hex_digit((c as int / 16) as nat), hex_digit(
            (c as int % 16) as nat,
        )]
    } else {
        seq![c]
    }
}

pub open spec fn json_escaped(s: Seq<char>) -> Seq<char>
    decreases s.len(),
{
    if s.len() == 0 {
        Seq::empty()
    } else {
        json_escaped(s.drop_last()) + json_escaped_char(s.last())
    }
}

/// A JSON string literal: the escaped text between double quotes.
pub open spec fn json_string_text(s: Seq<char>) -> Seq<char> {
    seq!['"'] + json_escaped(s) + seq!['"']
}

#[verifier::loop_isolation(false)]
fn push_json_escaped(out: &mut String, s: &str)
    ensures
        final(out)@ == old(out)@ + json_escaped(s@),
{
    let len = s.unicode_len();
    let mut i: usize = 0;
    while i < len
        invariant
            i <= s@.len(),
            len == s@.len(),
            out@ == old(out)@ + json_escaped(s@.subrange(0, i as int)),
        decreases len - i,
    {
        let c = s.get_char(i);
        if c == '"' {
            out.append("\\\"");
            proof {
                reveal_strlit("\\\"");
            }
        } else if c == '\\' {
            out.append("\\\\");
            proof {
                reveal_strlit("\\\\");
            }
        } else if c == '\u{8}' {
            out.append("\\b");
            proof {
                reveal_strlit("\\b");
            }
        } else if c == '\t' {
            out.append("\\t");
            proof {
                reveal_strlit("\\t");
            }
        } else if c == '\n' {
            out.append("\\n");
            proof {
                reveal_strlit("\\n");
            }
        } else if c == '\u{c}' {
            out.append("\\f");
            proof {
                reveal_strlit("\\f");
            }
        } else if c == '\r' {
            out.append("\\r");
            proof {
                reveal_strlit("\\r");
            }
        } else if (c as u32) < 32 {
            out.append("\\u00");
            let h1 = hex_char((c as u32) / 16);
            push_char(out, h1);
            let h2 = hex_char((c as u32) % 16);
            push_char(out, h2);
            proof {
                reveal_strlit("\\u00");
                assert(out@ =~= old(out)@ + json_escaped(s@.subrange(0, i as int))
                    + json_escaped_char(c));
            }
        } else {
            push_char(out, c);
        }
        proof {
            let pre = s@.subrange(0, i as int);
            let cur = s@.subrange(0, i as int + 1);
            assert(cur.drop_last() =~= pre);
            assert(cur.last() == c);
            assert(out@ =~= old(out)@ + json_escaped(cur));
        }
        i += 1;
    }
    proof {
        assert(s@.subrange(0, s@.len() as int) =~= s@);
    }
}

pub fn push_json_string(out: &mut String, s: &str)
    ensures
        final(out)@ == old(out)@ + json_string_text(s@),
{
    push_char(out, '"');
    push_json_escaped(out, s);
    push_char(out, '"');
}

/// The compact JSON text of a value: no spaces around separators, strings
/// escaped as [`json_escaped`] says.
pub open spec fn json_text(v: JsonView) -> Seq<char>
    decreases v,
{
    match v {
        JsonView::Null => "null"@,
        JsonView::Bool(b) => if b {
            "true"@
        } else {
            "false"@
        },
        JsonView::Uint(n) => dec_text(n as nat),
        JsonView::Int(n) => int_text(n as int),
        JsonView::Float(s) => s,
        JsonView::Str(s) => json_string_text(s),
        JsonView::List(items) => seq!['['] + json_text_items(items) + seq![']'],
        JsonView::Dict(entries) => seq!['{'] + json_text_entries(entries) + seq!['}'],
    }
}

pub open spec fn json_text_items(items: Seq<JsonView>) -> Seq<char>
    decreases items,
{
    if items.len() == 0 {
        Seq::empty()
    } else if items.len() == 1 {
        json_text(items[0])
    } else {
        json_text_items(items.drop_last()) + seq![','] + json_text(items.last())
    }
}

pub open spec fn json_text_entries(entries: Seq<(Seq<char>, JsonView)>) -> Seq<char>
    decreases entries,
{
    if entries.len() == 0 {
        Seq::empty()
    } else if entries.len() == 1 {
        json_string_text(entries[0].0) + seq![':'] + json_text(entries[0].1)
    } else {
        json_text_entries(entries.drop_last()) + seq![','] + json_string_text(entries.last().0)
            + seq![':'] + json_text(entries.last().1)
    }
}

pub fn push_json(out: &mut String, v: &JsonValue)
    ensures
        final(out)@ == old(out)@ + json_text(v@),
    decreases *v,
{
    match v {
        JsonValue::Null => {
            out.append("null");
        },
        JsonValue::Bool(b) => {
            if *b {
                out.append("true");
            } else {
                out.append("false");
            }
        },
        JsonValue::Uint(n) => {
            push_u64(out, *n);
        },
        JsonValue::Int(n) => {
            push_i64(out, *n);
        },
        JsonValue::Float(s) => {
            out.append(s.as_str());
        },
        JsonValue::Str(s) => {
            push_json_string(out, s.as_str());
        },
        JsonValue::List(items) => {
            push_char(out, '[');
            push_json_items(out, items);
            push_char(out, ']');
        },
        JsonValue::Dict(entries) => {
            push_char(out, '{');
            push_json_entries(out, entries);
            push_char(out, '}');
        },
    }
}

#[verifier::loop_isolation(false)]
fn push_json_items(out: &mut String, items: &Vec<JsonValue>)
    ensures
        final(out)@ == old(out)@ + json_text_items(json_view_seq(items@)),
    decreases *items,
{
    proof {
        lemma_json_view_seq(items@);
    }
    let ghost vs = json_view_seq(items@);
    let mut i: usize = 0;
    while i < items.len()
        invariant
            i <= items@.len(),
            out@ == old(out)@ + json_text_items(vs.subrange(0, i as int)),
        decreases items@.len() - i,
    {
        if i > 0 {
            push_char(out, ',');
        }
        push_json(out, &items[i]);
        proof {
            let cur = vs.subrange(0, i as int + 1);
            assert(cur.drop_last() =~= vs.subrange(0, i as int));
            assert(cur.last() == json_view(items@[i as int]));
            if i == 0 {
                assert(out@ =~= old(out)@ + json_text_items(cur));
            } else {
                assert(out@ =~= old(out)@ + json_text_items(cur));
            }
        }
        i += 1;
    }
    proof {
        assert(vs.subrange(0, vs.len() as int) =~= vs);
    }
}

#[verifier::loop_isolation(false)]
fn push_json_entries(out: &mut String, entries: &Vec<(String, JsonValue)>)
    ensures
        final(out)@ == old(out)@ + json_text_entries(json_view_entries(entries@)),
    decreases *entries,
{
    proof {
        lemma_json_view_entries(entries@);
    }
    let ghost vs = json_view_entries(entries@);
    let mut i: usize = 0;
    while i < entries.len()
        invariant
            i <= entries@.len(),
            out@ == old(out)@ + json_text_entries(vs.subrange(0, i as int)),
        decreases entries@.len() - i,
    {
        if i > 0 {
            push_char(out, ',');
        }
        push_json_string(out, entries[i].0.as_str());
        push_char(out, ':');
        push_json(out, &entries[i].1);
        proof {
            let cur = vs.subrange(0, i as int + 1);
            assert(cur.drop_last() =~= vs.subrange(0, i as int));
            assert(cur.last() == (entries@[i as int].0@, json_view(entries@[i as int].1)));
            assert(out@ =~= old(out)@ + json_text_entries(cur));
        }
        i += 1;
    }
    proof {
        assert(vs.subrange(0, vs.len() as int) =~= vs);
    }
}

/// The JSON text of a whole value, as [`json_text`] says.
pub fn render_json(v: &JsonValue) -> (out: String)
    ensures
        out@ == json_text(v@),
{
    let mut out = String::new();
    push_json(&mut out, v);
    out
}

/// How one character is written inside a debug-quoted string: the common
/// escapes, a numbered escape for other control characters, and every other
/// character as itself.
pub open spec fn debug_escaped_char(c: char) -> Seq<char> {
    if c == '"' {
        seq!['\\', '"']
    } else if c == '\\' {
        seq!['\\', '\\']
    } else if c == '\n' {
        seq!['\\', 'n']
    } else if c == '\r' {
        seq!['\\', 'r']
    } else if c == '\t' {
        seq!['\\', 't']
    } else if c == '\u{0}' {
        seq!['\\', '0']
    } else if (c as int) < 32 {
        if (c as int) < 16 {
            seq!['\\', 'u', '{', hex_digit(c as nat), '}']
        } else {
            seq!['\\', 'u', '{', '1', hex_digit((c as int % 16) as nat), '}']
        }
    } else {
        seq![c]
    }
}

pub open spec fn debug_escaped(s: Seq<char>) -> Seq<char>
    decreases s.len(),
{
    if s.len() == 0 {
        Seq::empty()
    } else {
        debug_escaped(s.drop_last()) + debug_escaped_char(s.last())
    }
}

/// A debug-quoted string: the escaped text between double quotes.
pub open spec fn debug_string_text(s: Seq<char>) -> Seq<char> {
    seq!['"'] + debug_escaped(s) + seq!['"']
}

#[verifier::loop_isolation(false)]
fn push_debug_escaped(out: &mut String, s: &str)
    ensures
        final(out)@ == old(out)@ + debug_escaped(s@),
{
    let len = s.unicode_len();
    let mut i: usize = 0;
    while i < len
        invariant
            i <= s@.len(),
            len == s@.len(),
            out@ == old(out)@ + debug_escaped(s@.subrange(0, i as int)),
        decreases len - i,
    {
        let c = s.get_char(i);
        if c == '"' {
            out.append("\\\"");
            proof {
                reveal_strlit("\\\"");
            }
        } else if c == '\\' {
            out.append("\\\\");
            proof {
                reveal_strlit("\\\\");
            }
        } else if c == '\n' {
            out.append("\\n");
            proof {
                reveal_strlit("\\n");
            }
        } else if c == '\r' {
            out.append("\\r");
            proof {
                reveal_strlit("\\r");
            }
        } else if c == '\t' {
            out.append("\\t");
            proof {
                reveal_strlit("\\t");
            }
        } else if c == '\u{0}' {
            out.append("\\0");
            proof {
                reveal_strlit("\\0");
            }
        } else if (c as u32) < 32 {
            out.append("\\u{");
            if (c as u32) < 16 {
                let h = hex_char(c as u32);
                push_char(out, h);
            } else {
                push_char(out, '1');
                let h = hex_char((c as u32) % 16);
                push_char(out, h);
            }
            push_char(out, '}');
            proof {
                reveal_strlit("\\u{");
                assert(out@ =~= old(out)@ + debug_escaped(s@.subrange(0, i as int))
                    + debug_escaped_char(c));
            }
        } else {
            push_char(out, c);
        }
        proof {
            let pre = s@.subrange(0, i as int);
            let cur = s@.subrange(0, i as int + 1);
            assert(cur.drop_last() =~= pre);
            assert(cur.last() == c);
            assert(out@ =~= old(out)@ + debug_escaped(cur));
        }
        i += 1;
    }
    proof {
        assert(s@.subrange(0, s@.len() as int) =~= s@);
    }
}

pub fn push_debug_string(out: &mut String, s: &str)
    ensures
        final(out)@ == old(out)@ + debug_string_text(s@),
{
    push_char(out, '"');
    push_debug_escaped(out, s);
    push_char(out, '"');
}

/// The views of a sequence of strings.
pub open spec fn string_views(s: Seq<String>) -> Seq<Seq<char>> {
    Seq::new(s.len(), |i: int| s[i]@)
}

pub open spec fn strings_debug_items(names: Seq<Seq<char>>) -> Seq<char>
    decreases names,
{
    if names.len() == 0 {
        Seq::empty()
    } else if names.len() == 1 {
        debug_string_text(names[0])
    } else {
        strings_debug_items(names.drop_last()) + seq![',', ' '] + debug_string_text(names.last())
    }
}

/// A debug listing of strings: `["a", "b"]`.
pub open spec fn strings_debug_text(names: Seq<Seq<char>>) -> Seq<char> {
    seq!['['] + strings_debug_items(names) + seq![']']
}

/// The debug listing of a list of names, as [`strings_debug_text`] says.
#[verifier::loop_isolation(false)]
pub fn render_string_list(names: &Vec<String>) -> (out: String)
    ensures
        out@ == strings_debug_text(string_views(names@)),
{
    let ghost vs = string_views(names@);
    let mut out = String::new();
    push_char(&mut out, '[');
    let mut i: usize = 0;
    while i < names.len()
        invariant
            i <= names@.len(),
            out@ == seq!['['] + strings_debug_items(vs.subrange(0, i as int)),
        decreases names@.len() - i,
    {
        if i > 0 {
            out.append(", ");
            proof {
                reveal_strlit(", ");
            }
        }
        push_debug_string(&mut out, names[i].as_str());
        proof {
            let cur = vs.subrange(0, i as int + 1);
            assert(cur.drop_last() =~= vs.subrange(0, i as int));
            assert(cur.last() == names@[i as int]@);
            assert(out@ =~= seq!['['] + strings_debug_items(cur));
        }
        i += 1;
    }
    push_char(&mut out, ']');
    proof {
        assert(vs.subrange(0, vs.len() as int) =~= vs);
    }
    out
}

/// The debug text of a value: each variant written with its name, strings
/// debug-quoted, lists written as `Array [..]` and dictionaries as
/// `Object {..}`.
pub open spec fn debug_json_text(v: JsonView) -> Seq<char>
    decreases v,
{
    match v {
        JsonView::Null => "Null"@,
        JsonView::Bool(b) => if b {
            "Bool(true)"@
        } else {
            "Bool(false)"@
        },
        JsonView::Uint(n) => "Number("@ + dec_text(n as nat) + seq![')'],
        JsonView::Int(n) => "Number("@ + int_text(n as int) + seq![')'],
        JsonView::Float(s) => "Number("@ + s + seq![')'],
        JsonView::Str(s) => "String("@ + debug_string_text(s) + seq![')'],
        JsonView::List(items) => "Array ["@ + debug_json_items(items) + seq![']'],
        JsonView::Dict(entries) => "Object {"@ + debug_json_entries(entries) + seq!['}'],
    }
}

pub open spec fn debug_json_items(items: Seq<JsonView>) -> Seq<char>
    decreases items,
{
    if items.len() == 0 {
        Seq::empty()
    } else if items.len() == 1 {
        debug_json_text(items[0])
    } else {
        debug_json_items(items.drop_last()) + seq![',', ' '] + debug_json_text(items.last())
    }
}

pub open spec fn debug_json_entries(entries: Seq<(Seq<char>, JsonView)>) -> Seq<char>
    decreases entries,
{
    if entries.len() == 0 {
        Seq::empty()
    } else if entries.len() == 1 {
        debug_string_text(entries[0].0) + seq![':', ' '] + debug_json_text(entries[0].1)
    } else {
        debug_json_entries(entries.drop_last()) + seq![',', ' '] + debug_string_text(
            entries.last().0,
        ) + seq![':', ' '] + debug_json_text(entries.last().1)
    }
}

pub fn push_debug_json(out: &mut String, v: &JsonValue)
    ensures
        final(out)@ == old(out)@ + debug_json_text(v@),
    decreases *v,
{
    match v {
        JsonValue::Null => {
            out.append("Null");
        },
        JsonValue::Bool(b) => {
            if *b {
                out.append("Bool(true)");
            } else {
                out.append("Bool(false)");
            }
        },
        JsonValue::Uint(n) => {
            out.append("Number(");
            push_u64(out, *n);
            push_char(out, ')');
        },
        JsonValue::Int(n) => {
            out.append("Number(");
            push_i64(out, *n);
            push_char(out, ')');
        },
        JsonValue::Float(s) => {
            out.append("Number(");
            out.append(s.as_str());
            push_char(out, ')');
        },
        JsonValue::Str(s) => {
            out.append("String(");
            push_debug_string(out, s.as_str());
            push_char(out, ')');
        },
        JsonValue::List(items) => {
            out.append("Array [");
            push_debug_json_items(out, items);
            push_char(out, ']');
        },
        JsonValue::Dict(entries) => {
            out.append("Object {");
            push_debug_json_entries(out, entries);
            push_char(out, '}');
        },
    }
}

#[verifier::loop_isolation(false)]
fn push_debug_json_items(out: &mut String, items: &Vec<JsonValue>)
    ensures
        final(out)@ == old(out)@ + debug_json_items(json_view_seq(items@)),
    decreases *items,
{
    proof {
        lemma_json_view_seq(items@);
    }
    let ghost vs = json_view_seq(items@);
    let mut i: usize = 0;
    while i < items.len()
        invariant
            i <= items@.len(),
            out@ == old(out)@ + debug_json_items(vs.subrange(0, i as int)),
        decreases items@.len() - i,
    {
        if i > 0 {
            out.append(", ");
            proof {
                reveal_strlit(", ");
            }
        }
        push_debug_json(out, &items[i]);
        proof {
            let cur = vs.subrange(0, i as int + 1);
            assert(cur.drop_last() =~= vs.subrange(0, i as int));
            assert(cur.last() == json_view(items@[i as int]));
            assert(out@ =~= old(out)@ + debug_json_items(cur));
        }
        i += 1;
    }
    proof {
        assert(vs.subrange(0, vs.len() as int) =~= vs);
    }
}

#[verifier::loop_isolation(false)]
fn push_debug_json_entries(out: &mut String, entries: &Vec<(String, JsonValue)>)
    ensures
        final(out)@ == old(out)@ + debug_json_entries(json_view_entries(entries@)),
    decreases *entries,
{
    proof {
        lemma_json_view_entries(entries@);
    }
    let ghost vs = json_view_entries(entries@);
    let mut i: usize = 0;
    while i < entries.len()
        invariant
            i <= entries@.len(),
            out@ == old(out)@ + debug_json_entries(vs.subrange(0, i as int)),
        decreases entries@.len() - i,
    {
        if i > 0 {
            out.append(", ");
            proof {
                reveal_strlit(", ");
            }
        }
        push_debug_string(out, entries[i].0.as_str());
        out.append(": ");
        push_debug_json(out, &entries[i].1);
        proof {
            reveal_strlit(": ");
            let cur = vs.subrange(0, i as int + 1);
            assert(cur.drop_last() =~= vs.subrange(0, i as int));
            assert(cur.last() == (entries@[i as int].0@, json_view(entries@[i as int].1)));
            assert(out@ =~= old(out)@ + debug_json_entries(cur));
        }
        i += 1;
    }
    proof {
        assert(vs.subrange(0, vs.len() as int) =~= vs);
    }
}

/// The debug listing of a list of values: `[String("a"), Number(1)]`.
#[verifier::loop_isolation(false)]
pub fn render_json_list_debug(items: &Vec<JsonValue>) -> (out: String)
    ensures
        out@ == seq!['['] + debug_json_items(json_view_seq(items@)) + seq![']'],
{
    proof {
        lemma_json_view_seq(items@);
    }
    let ghost vs = json_view_seq(items@);
    let mut out = String::new();
    push_char(&mut out, '[');
    let mut i: usize = 0;
    while i < items.len()
        invariant
            i <= items@.len(),
            out@ == seq!['['] + debug_json_items(vs.subrange(0, i as int)),
        decreases items@.len() - i,
    {
        if i > 0 {
            out.append(", ");
            proof {
                reveal_strlit(", ");
            }
        }
        push_debug_json(&mut out, &items[i]);
        proof {
            let cur = vs.subrange(0, i as int + 1);
            assert(cur.drop_last() =~= vs.subrange(0, i as int));
            assert(cur.last() == json_view(items@[i as int]));
            assert(out@ =~= seq!['['] + debug_json_items(cur));
        }
        i += 1;
    }
    push_char(&mut out, ']');
    proof {
        assert(vs.subrange(0, vs.len() as int) =~= vs);
    }
    out
}

} // verus!
