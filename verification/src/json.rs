//! JSON documents as values: the model the library reads parsed documents
//! into, lookups on it, and its compact text.
use vstd::prelude::*;

verus! {

/// A JSON value. An object keeps its members in document order, each key once.
#[derive(Debug)]
pub enum Json {
    Null,
    Bool(bool),
    /// A number, as its JSON text.
    Number(String),
    Str(String),
    Array(Vec<Json>),
    Object(Vec<(String, Json)>),
}

/// The value of member `key` of an object's members, if there is one.
pub open spec fn member(entries: Seq<(String, Json)>, key: Seq<char>) -> Option<Json>
    decreases entries.len(),
{
    if entries.len() == 0 {
        None
    } else if entries[0].0@ == key {
        Some(entries[0].1)
    } else {
        member(entries.drop_first(), key)
    }
}

/// The string a JSON value holds, if it is a string.
pub open spec fn as_str(v: Option<Json>) -> Option<Seq<char>> {
    match v {
        Some(Json::Str(s)) => Some(s@),
        _ => None,
    }
}

/// The value of member `key` of `v`, when `v` is an object that has one.
pub open spec fn get(v: Json, key: Seq<char>) -> Option<Json> {
    match v {
        Json::Object(es) => member(es@, key),
        _ => None,
    }
}

/// The value of member `key` of the members `entries`.
pub fn member_of<'a>(entries: &'a Vec<(String, Json)>, key: &str) -> (r: Option<&'a Json>)
    ensures
        match r {
            Some(v) => member(entries@, key@) == Some(*v),
            None => member(entries@, key@) is None,
        },
{
    let mut i: usize = 0;
    assert(entries@.skip(0) =~= entries@);
    while i < entries.len()
        invariant
            i <= entries@.len(),
            member(entries@, key@) == member(entries@.skip(i as int), key@),
        decreases entries@.len() - i,
    {
        assert(entries@.skip(i as int)[0] == entries@[i as int]);
        assert(entries@.skip(i as int).drop_first() =~= entries@.skip(i + 1));
        if crate::audit_gate::str_eq(entries[i].0.as_str(), key) {
            return Some(&entries[i].1);
        }
        i = i + 1;
    }
    None
}

/// The string a JSON value holds, if it is a string.
pub fn str_of(v: Option<&Json>) -> (r: Option<&String>)
    ensures
        match r {
            Some(s) => as_str(match v { Some(x) => Some(*x), None => None }) == Some(s@),
            None => as_str(match v { Some(x) => Some(*x), None => None }) is None,
        },
{
    match v {
        Some(Json::Str(s)) => Some(s),
        _ => None,
    }
}


/// The hexadecimal digit `n` (below sixteen), in lower case.
pub open spec fn hex_digit(n: int) -> char {
    if n < 10 {
        (n + 48) as char
    } else {
        (n + 87) as char
    }
}

/// How `serde_json` writes `c` inside a string: quotes and backslashes and
/// control characters escaped, everything else as it is.
pub open spec fn escaped_char(c: char) -> Seq<char> {
    if c == '"' {
        seq!['\\', '"']
    } else if c == '\\' {
        seq!['\\', '\\']
    } else if c == '\n' {
        seq!['\\', 'n']
    } else if c == '\r' {
        seq!['\\', 'r']
    } else if c == '\t' {
        seq!['\\', 't']
    } else if c == '\u{8}' {
        seq!['\\', 'b']
    } else if c == '\u{c}' {
        seq!['\\', 'f']
    } else if (c as u32) < 32 {
        seq!['\\', 'u', '0', '0', hex_digit(((c as u32) / 16) as int), hex_digit(((c as u32) % 16) as int)]
    } else {
        seq![c]
    }
}

/// The characters of `s`, each as written inside a JSON string.
pub open spec fn escaped(s: Seq<char>) -> Seq<char>
    decreases s.len(),
{
    if s.len() == 0 {
        seq![]
    } else {
        escaped(s.drop_last()) + escaped_char(s.last())
    }
}

/// `s` as a JSON string.
pub open spec fn quoted(s: Seq<char>) -> Seq<char> {
    seq!['"'] + escaped(s) + seq!['"']
}

/// The compact text of `v`, as `serde_json` displays a value: no spaces,
/// members and items separated by commas, numbers as their text.
pub open spec fn json_text(v: Json) -> Seq<char>
    decreases v,
{
    match v {
        Json::Null => "null"@,
        Json::Bool(b) => if b { "true"@ } else { "false"@ },
        Json::Number(t) => t@,
        Json::Str(s) => quoted(s@),
        Json::Array(items) => seq!['['] + items_text(items@) + seq![']'],
        Json::Object(es) => seq!['{'] + members_text(es@) + seq!['}'],
    }
}

/// The texts of `items`, separated by commas.
pub open spec fn items_text(items: Seq<Json>) -> Seq<char>
    decreases items,
{
    if items.len() == 0 {
        seq![]
    } else if items.len() == 1 {
        json_text(items[0])
    } else {
        items_text(items.drop_last()) + seq![','] + json_text(items.last())
    }
}

/// The members `es`, each as its quoted key, a colon and its value's text,
/// separated by commas.
pub open spec fn members_text(es: Seq<(String, Json)>) -> Seq<char>
    decreases es,
{
    if es.len() == 0 {
        seq![]
    } else if es.len() == 1 {
        quoted(es[0].0@) + seq![':'] + json_text(es[0].1)
    } else {
        members_text(es.drop_last()) + seq![','] + quoted(es.last().0@) + seq![':'] + json_text(es.last().1)
    }
}

/// Appends the hexadecimal digit `n`.
fn push_hex_digit(out: &mut String, n: u32)
    requires
        n < 16,
    ensures
        final(out)@ == old(out)@.push(hex_digit(n as int)),
{
    let d: u8 = n as u8;
    if d < 10 {
        crate::text::push_char(out, (d + 48) as char);
    } else {
        crate::text::push_char(out, (d + 87) as char);
    }
}

/// Appends `s` quoted as a JSON string.
pub fn push_quoted(out: &mut String, s: &str)
    ensures
        final(out)@ == old(out)@ + quoted(s@),
{
    let cs = crate::text::chars_of(s);
    crate::text::push_char(out, '"');
    let ghost start = out@;
    let mut i: usize = 0;
    while i < cs.len()
        invariant
            i <= cs@.len(),
            cs@ == s@,
            out@ == start + escaped(cs@.take(i as int)),
        decreases cs@.len() - i,
    {
        let c = cs[i];
        assert(cs@.take(i + 1).drop_last() =~= cs@.take(i as int));
        assert(cs@.take(i + 1).last() == c);
        let ghost before = out@;
        if c == '"' {
            crate::text::push_char(out, '\\');
            crate::text::push_char(out, '"');
        } else if c == '\\' {
            crate::text::push_char(out, '\\');
            crate::text::push_char(out, '\\');
        } else if c == '\n' {
            crate::text::push_char(out, '\\');
            crate::text::push_char(out, 'n');
        } else if c == '\r' {
            crate::text::push_char(out, '\\');
            crate::text::push_char(out, 'r');
        } else if c == '\t' {
            crate::text::push_char(out, '\\');
            crate::text::push_char(out, 't');
        } else if c == '\u{8}' {
            crate::text::push_char(out, '\\');
            crate::text::push_char(out, 'b');
        } else if c == '\u{c}' {
            crate::text::push_char(out, '\\');
            crate::text::push_char(out, 'f');
        } else if (c as u32) < 32 {
            crate::text::push_char(out, '\\');
            crate::text::push_char(out, 'u');
            crate::text::push_char(out, '0');
            crate::text::push_char(out, '0');
            let n: u32 = c as u32;
            push_hex_digit(out, n / 16);
            push_hex_digit(out, n % 16);
            assert(out@ =~= before + escaped_char(c));
        } else {
            crate::text::push_char(out, c);
        }
        assert(out@ =~= before + escaped_char(c));
        assert(out@ == start + escaped(cs@.take(i + 1)));
        i = i + 1;
    }
    assert(cs@.take(cs@.len() as int) =~= s@);
    crate::text::push_char(out, '"');
}

/// Appends the compact text of `v` (see [`json_text`]).
#[verifier::rlimit(40)]
pub fn push_json(out: &mut String, v: &Json)
    ensures
        final(out)@ == old(out)@ + json_text(*v),
    decreases v,
{
    match v {
        Json::Null => crate::text::push_all(out, "null"),
        Json::Bool(b) => if *b {
            crate::text::push_all(out, "true")
        } else {
            crate::text::push_all(out, "false")
        },
        Json::Number(t) => crate::text::push_all(out, t.as_str()),
        Json::Str(s) => push_quoted(out, s.as_str()),
        Json::Array(items) => {
            assert(decreases_to!(*v => *items));
            assert(decreases_to!(*items => items@));
            crate::text::push_char(out, '[');
            let ghost start = out@;
            let mut i: usize = 0;
            while i < items.len()
                invariant
                    i <= items@.len(),
                    out@ == start + items_text(items@.take(i as int)),
                    decreases_to!(*v => items@),
                decreases items@.len() - i,
            {
                assert(decreases_to!(items@ => items@[i as int]));
                assert(items@.take(i + 1).drop_last() =~= items@.take(i as int));
                assert(items@.take(i + 1).last() == items@[i as int]);
                if i > 0 {
                    crate::text::push_char(out, ',');
                }
                push_json(out, &items[i]);
                assert(out@ == start + items_text(items@.take(i + 1)));
                i = i + 1;
            }
            assert(items@.take(items@.len() as int) =~= items@);
            crate::text::push_char(out, ']');
        },
        Json::Object(es) => {
            assert(decreases_to!(*v => *es));
            assert(decreases_to!(*es => es@));
            crate::text::push_char(out, '{');
            let ghost start = out@;
            let mut i: usize = 0;
            while i < es.len()
                invariant
                    i <= es@.len(),
                    out@ == start + members_text(es@.take(i as int)),
                    decreases_to!(*v => es@),
                decreases es@.len() - i,
            {
                assert(decreases_to!(es@ => es@[i as int]));
                assert(decreases_to!(es@[i as int] => es@[i as int].1));
                assert(es@.take(i + 1).drop_last() =~= es@.take(i as int));
                assert(es@.take(i + 1).last() == es@[i as int]);
                if i > 0 {
                    crate::text::push_char(out, ',');
                }
                push_quoted(out, es[i].0.as_str());
                crate::text::push_char(out, ':');
                push_json(out, &es[i].1);
                assert(out@ == start + members_text(es@.take(i + 1)));
                i = i + 1;
            }
            assert(es@.take(es@.len() as int) =~= es@);
            crate::text::push_char(out, '}');
        },
    }
}

/// The compact text of `v` (see [`json_text`]).
pub fn render_json(v: &Json) -> (r: String)
    ensures
        r@ == json_text(*v),
{
    let mut out = String::new();
    push_json(&mut out, v);
    out
}

/// The text of `v` as `serde_json::to_string_pretty` writes a value whose
/// lines are indented by `pad`: each item and member on a line of its own,
/// two more spaces in than its container, a space after each colon; empty
/// arrays and objects as `[]` and `{}`.
pub open spec fn pretty_text(v: Json, pad: Seq<char>) -> Seq<char>
    decreases v,
{
    match v {
        Json::Array(items) => if items@.len() == 0 {
            seq!['[', ']']
        } else {
            seq!['[', '\n'] + pretty_items(items@, pad + seq![' ', ' ']) + seq!['\n'] + pad + seq![']']
        },
        Json::Object(es) => if es@.len() == 0 {
            seq!['{', '}']
        } else {
            seq!['{', '\n'] + pretty_members(es@, pad + seq![' ', ' ']) + seq!['\n'] + pad + seq!['}']
        },
        _ => json_text(v),
    }
}

/// The items of an array, each on a line indented by `pad`.
pub open spec fn pretty_items(items: Seq<Json>, pad: Seq<char>) -> Seq<char>
    decreases items,
{
    if items.len() == 0 {
        seq![]
    } else if items.len() == 1 {
        pad + pretty_text(items[0], pad)
    } else {
        pretty_items(items.drop_last(), pad) + seq![',', '\n'] + pad + pretty_text(items.last(), pad)
    }
}

/// The members of an object, each on a line indented by `pad`.
pub open spec fn pretty_members(es: Seq<(String, Json)>, pad: Seq<char>) -> Seq<char>
    decreases es,
{
    if es.len() == 0 {
        seq![]
    } else if es.len() == 1 {
        pad + quoted(es[0].0@) + seq![':', ' '] + pretty_text(es[0].1, pad)
    } else {
        pretty_members(es.drop_last(), pad) + seq![',', '\n'] + pad + quoted(es.last().0@) + seq![':', ' ']
            + pretty_text(es.last().1, pad)
    }
}

/// Appends the pretty text of `v` with its lines indented by `pad` (see
/// [`pretty_text`]).
#[verifier::rlimit(40)]
pub fn push_pretty(out: &mut String, v: &Json, pad: &str)
    ensures
        final(out)@ == old(out)@ + pretty_text(*v, pad@),
    decreases v,
{
    match v {
        Json::Array(items) => {
            if items.len() == 0 {
                crate::text::push_char(out, '[');
                crate::text::push_char(out, ']');
                return;
            }
            assert(decreases_to!(*v => *items));
            assert(decreases_to!(*items => items@));
            crate::text::push_char(out, '[');
            crate::text::push_char(out, '\n');
            let ghost start = out@;
            let mut inner = crate::text::owned(pad);
            crate::text::push_all(&mut inner, "  ");
            assert(inner@ == pad@ + seq![' ', ' ']) by {
                reveal_strlit("  ");
            }
            let mut i: usize = 0;
            while i < items.len()
                invariant
                    i <= items@.len(),
                    inner@ == pad@ + seq![' ', ' '],
                    out@ == start + pretty_items(items@.take(i as int), inner@),
                    decreases_to!(*v => items@),
                decreases items@.len() - i,
            {
                assert(decreases_to!(items@ => items@[i as int]));
                assert(items@.take(i + 1).drop_last() =~= items@.take(i as int));
                assert(items@.take(i + 1).last() == items@[i as int]);
                if i > 0 {
                    crate::text::push_char(out, ',');
                    crate::text::push_char(out, '\n');
                }
                crate::text::push_all(out, inner.as_str());
                push_pretty(out, &items[i], inner.as_str());
                assert(out@ == start + pretty_items(items@.take(i + 1), inner@));
                i = i + 1;
            }
            assert(items@.take(items@.len() as int) =~= items@);
            crate::text::push_char(out, '\n');
            crate::text::push_all(out, pad);
            crate::text::push_char(out, ']');
        },
        Json::Object(es) => {
            if es.len() == 0 {
                crate::text::push_char(out, '{');
                crate::text::push_char(out, '}');
                return;
            }
            assert(decreases_to!(*v => *es));
            assert(decreases_to!(*es => es@));
            crate::text::push_char(out, '{');
            crate::text::push_char(out, '\n');
            let ghost start = out@;
            let mut inner = crate::text::owned(pad);
            crate::text::push_all(&mut inner, "  ");
            assert(inner@ == pad@ + seq![' ', ' ']) by {
                reveal_strlit("  ");
            }
            let mut i: usize = 0;
            while i < es.len()
                invariant
                    i <= es@.len(),
                    inner@ == pad@ + seq![' ', ' '],
                    out@ == start + pretty_members(es@.take(i as int), inner@),
                    decreases_to!(*v => es@),
                decreases es@.len() - i,
            {
                assert(decreases_to!(es@ => es@[i as int]));
                assert(decreases_to!(es@[i as int] => es@[i as int].1));
                assert(es@.take(i + 1).drop_last() =~= es@.take(i as int));
                assert(es@.take(i + 1).last() == es@[i as int]);
                if i > 0 {
                    crate::text::push_char(out, ',');
                    crate::text::push_char(out, '\n');
                }
                crate::text::push_all(out, inner.as_str());
                push_quoted(out, es[i].0.as_str());
                crate::text::push_char(out, ':');
                crate::text::push_char(out, ' ');
                push_pretty(out, &es[i].1, inner.as_str());
                assert(out@ == start + pretty_members(es@.take(i + 1), inner@));
                i = i + 1;
            }
            assert(es@.take(es@.len() as int) =~= es@);
            crate::text::push_char(out, '\n');
            crate::text::push_all(out, pad);
            crate::text::push_char(out, '}');
        },
        _ => push_json(out, v),
    }
}

/// The pretty text of `v` (see [`pretty_text`]), as a document: no
/// indentation.
pub fn render_json_pretty(v: &Json) -> (r: String)
    ensures
        r@ == pretty_text(*v, seq![]),
{
    let mut out = String::new();
    push_pretty(&mut out, v, "");
    proof {
        reveal_strlit("");
    }
    out
}

} // verus!
