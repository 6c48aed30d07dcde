//! The text rules the capsule contract puts on its fields, each with the exact
//! messages it reports.
use vstd::prelude::*;

use crate::text::{
    chars_of, debug_quote, debug_quoted, decimal, is_whitespace, is_ws, join_spec, join_strings,
    owned, push_all, push_decimal, strs,
};

verus! {

/// A control character (Unicode category `Cc`), as `char::is_control` decides it.
pub open spec fn is_control(c: char) -> bool {
    c <= '\u{1f}' || ('\u{7f}' <= c && c <= '\u{9f}')
}

/// Whether `v` is empty once trimmed: every character is whitespace.
pub open spec fn blank(v: Seq<char>) -> bool {
    forall|i: int| 0 <= i < v.len() ==> is_ws(#[trigger] v[i])
}

/// Whether `v` holds a control character.
pub open spec fn has_control(v: Seq<char>) -> bool {
    exists|i: int| 0 <= i < v.len() && is_control(#[trigger] v[i])
}

/// The messages the non-empty-text rule reports for `field` holding `v`.
pub open spec fn text_errors(field: Seq<char>, v: Seq<char>) -> Seq<Seq<char>> {
    if blank(v) {
        seq![field + " must not be empty"@]
    } else if has_control(v) {
        seq![field + " must not contain control characters"@]
    } else {
        seq![]
    }
}

/// Whether `value` is blank.
pub fn is_blank(value: &str) -> (r: bool)
    ensures
        r == blank(value@),
{
    let cs = chars_of(value);
    let mut i: usize = 0;
    while i < cs.len()
        invariant
            cs@ == value@,
            i <= cs@.len(),
            forall|j: int| 0 <= j < i ==> is_ws(#[trigger] cs@[j]),
        decreases cs@.len() - i,
    {
        if !is_whitespace(cs[i]) {
            return false;
        }
        i = i + 1;
    }
    true
}

/// Whether `value` holds a control character.
pub fn any_control(value: &str) -> (r: bool)
    ensures
        r == has_control(value@),
{
    let cs = chars_of(value);
    let mut i: usize = 0;
    while i < cs.len()
        invariant
            cs@ == value@,
            i <= cs@.len(),
            forall|j: int| 0 <= j < i ==> !is_control(#[trigger] cs@[j]),
        decreases cs@.len() - i,
    {
        let c = cs[i];
        if c <= '\u{1f}' || ('\u{7f}' <= c && c <= '\u{9f}') {
            assert(is_control(cs@[i as int]));
            return true;
        }
        i = i + 1;
    }
    false
}

/// Appends `field` and `suffix` to `errors` as one message.
fn push_message(errors: &mut Vec<String>, field: &str, suffix: &str)
    ensures
        strs(final(errors)@) == strs(old(errors)@).push(field@ + suffix@),
{
    let mut m = owned(field);
    push_all(&mut m, suffix);
    let ghost before = errors@;
    errors.push(m);
    assert(strs(errors@) =~= strs(before).push(field@ + suffix@));
}

/// Reports `field` when `value` is blank, or else when it holds a control character.
pub fn validate_non_empty_text(field: &str, value: &str, errors: &mut Vec<String>)
    ensures
        strs(final(errors)@) == strs(old(errors)@) + text_errors(field@, value@),
{
    if is_blank(value) {
        push_message(errors, field, " must not be empty");
    } else if any_control(value) {
        push_message(errors, field, " must not contain control characters");
    } else {
        assert(strs(errors@) =~= strs(old(errors)@) + text_errors(field@, value@));
    }
}

/// Applies the non-empty-text rule to a value that may be absent.
pub fn validate_optional_text(field: &str, value: &Option<String>, errors: &mut Vec<String>)
    ensures
        strs(final(errors)@) == strs(old(errors)@) + match value {
            Some(v) => text_errors(field@, v@),
            None => seq![],
        },
{
    match value {
        Some(v) => validate_non_empty_text(field, v.as_str(), errors),
        None => {
            assert(strs(errors@) =~= strs(old(errors)@) + seq![]);
        },
    }
}

/// The name of the `i`-th item of `field`: `field[i]`.
pub open spec fn item_field(field: Seq<char>, i: nat) -> Seq<char> {
    field + "["@ + decimal(i) + "]"@
}

/// The messages the non-empty-text rule reports for each item of a list.
pub open spec fn repeated_errors(field: Seq<char>, vals: Seq<Seq<char>>) -> Seq<Seq<char>>
    decreases vals.len(),
{
    if vals.len() == 0 {
        seq![]
    } else {
        repeated_errors(field, vals.drop_last()) + text_errors(
            item_field(field, (vals.len() - 1) as nat),
            vals.last(),
        )
    }
}

/// Applies the non-empty-text rule to each item of `values`, naming it `field[i]`.
pub fn validate_repeated_text(field: &str, values: &Vec<String>, errors: &mut Vec<String>)
    ensures
        strs(final(errors)@) == strs(old(errors)@) + repeated_errors(field@, strs(values@)),
{
    let mut i: usize = 0;
    while i < values.len()
        invariant
            i <= values@.len(),
            strs(errors@) == strs(old(errors)@) + repeated_errors(field@, strs(values@).take(i as int)),
        decreases values@.len() - i,
    {
        let mut item = owned(field);
        push_all(&mut item, "[");
        push_decimal(&mut item, i as u64);
        push_all(&mut item, "]");
        let ghost before = strs(errors@);
        validate_non_empty_text(item.as_str(), values[i].as_str(), errors);
        proof {
            let t = strs(values@).take(i + 1);
            assert(t.drop_last() =~= strs(values@).take(i as int));
            assert(strs(errors@) =~= strs(old(errors)@) + repeated_errors(field@, t));
        }
        i = i + 1;
    }
    assert(strs(values@).take(values@.len() as int) =~= strs(values@));
}

/// The messages for a list that must hold at least one value, each non-empty.
pub open spec fn required_repeated_errors(field: Seq<char>, vals: Seq<Seq<char>>) -> Seq<Seq<char>> {
    (if vals.len() == 0 {
        seq![field + " must include at least one value"@]
    } else {
        seq![]
    }) + repeated_errors(field, vals)
}

/// Reports an empty list, then applies the non-empty-text rule to each item.
pub fn validate_required_repeated_text(field: &str, values: &Vec<String>, errors: &mut Vec<String>)
    ensures
        strs(final(errors)@) == strs(old(errors)@) + required_repeated_errors(field@, strs(values@)),
{
    if values.len() == 0 {
        push_message(errors, field, " must include at least one value");
    }
    let ghost mid = strs(errors@);
    validate_repeated_text(field, values, errors);
    assert(strs(errors@) =~= strs(old(errors)@) + required_repeated_errors(field@, strs(values@)));
}

/// A character a stable id may hold: an ASCII letter or digit, `_`, `-`, `.` or `:`.
pub open spec fn stable_id_char(c: char) -> bool {
    ('a' <= c && c <= 'z') || ('A' <= c && c <= 'Z') || ('0' <= c && c <= '9') || c == '_'
        || c == '-' || c == '.' || c == ':'
}

/// The messages the stable-id rule reports for `field` holding `v`.
pub open spec fn stable_id_errors(field: Seq<char>, v: Seq<char>) -> Seq<Seq<char>> {
    text_errors(field, v) + if forall|i: int| 0 <= i < v.len() ==> stable_id_char(#[trigger] v[i]) {
        seq![]
    } else {
        seq![field + " may contain only ASCII letters, numbers, '.', ':', '_' or '-'"@]
    }
}

/// A stable id is non-empty text made of ASCII letters, digits, `_`, `-`, `.`
/// and `:`; otherwise the messages are joined with `; `.
pub fn validate_stable_id(field: &str, value: &str) -> (r: Result<(), String>)
    ensures
        stable_id_errors(field@, value@).len() == 0 ==> r is Ok,
        stable_id_errors(field@, value@).len() > 0 ==> (r matches Err(m) && m@ == join_spec(
            stable_id_errors(field@, value@),
            "; "@,
        )),
{
    let mut errors: Vec<String> = Vec::new();
    validate_non_empty_text(field, value, &mut errors);
    let cs = chars_of(value);
    let mut ok = true;
    let mut i: usize = 0;
    while i < cs.len()
        invariant
            cs@ == value@,
            i <= cs@.len(),
            ok == forall|j: int| 0 <= j < i ==> stable_id_char(#[trigger] cs@[j]),
        decreases cs@.len() - i,
    {
        let c = cs[i];
        let good = ('a' <= c && c <= 'z') || ('A' <= c && c <= 'Z') || ('0' <= c && c <= '9')
            || c == '_' || c == '-' || c == '.' || c == ':';
        ok = ok && good;
        i = i + 1;
    }
    if !ok {
        push_message(&mut errors, field, " may contain only ASCII letters, numbers, '.', ':', '_' or '-'");
    }
    assert(strs(errors@) =~= stable_id_errors(field@, value@));
    if errors.len() == 0 {
        Ok(())
    } else {
        Err(join_strings(&errors, "; "))
    }
}

/// A character allowed after the first of a role name.
pub open spec fn role_tail_char(c: char) -> bool {
    ('a' <= c && c <= 'z') || ('0' <= c && c <= '9') || c == '_'
}

/// Whether `v` is a role name: snake_case starting with a lowercase ASCII letter.
pub open spec fn role_name_ok(v: Seq<char>) -> bool {
    &&& v.len() > 0
    &&& 'a' <= v[0] && v[0] <= 'z'
    &&& forall|i: int| 1 <= i < v.len() ==> role_tail_char(#[trigger] v[i])
}

/// The message the role-name rule reports for `v`, when it reports one.
pub open spec fn role_name_error(v: Seq<char>) -> Seq<char> {
    if v.len() == 0 {
        "role must not be empty"@
    } else if !('a' <= v[0] && v[0] <= 'z') {
        "role "@ + debug_quoted(v) + " must start with a lowercase ASCII letter"@
    } else {
        "role "@ + debug_quoted(v) + " must be snake_case"@
    }
}

/// A role name is snake_case and starts with a lowercase ASCII letter.
pub fn validate_role_name(value: &str) -> (r: Result<(), String>)
    ensures
        role_name_ok(value@) ==> r is Ok,
        !role_name_ok(value@) ==> (r matches Err(m) && m@ == role_name_error(value@)),
{
    let cs = chars_of(value);
    if cs.len() == 0 {
        return Err(owned("role must not be empty"));
    }
    let first = cs[0];
    if !('a' <= first && first <= 'z') {
        let mut m = owned("role ");
        let q = debug_quote(value);
        push_all(&mut m, q.as_str());
        push_all(&mut m, " must start with a lowercase ASCII letter");
        return Err(m);
    }
    let mut i: usize = 1;
    while i < cs.len()
        invariant
            cs@ == value@,
            1 <= i <= cs@.len(),
            'a' <= cs@[0] && cs@[0] <= 'z',
            forall|j: int| 1 <= j < i ==> role_tail_char(#[trigger] cs@[j]),
        decreases cs@.len() - i,
    {
        let c = cs[i];
        if !(('a' <= c && c <= 'z') || ('0' <= c && c <= '9') || c == '_') {
            assert(!role_tail_char(cs@[i as int]));
            let mut m = owned("role ");
            let q = debug_quote(value);
            push_all(&mut m, q.as_str());
            push_all(&mut m, " must be snake_case");
            return Err(m);
        }
        i = i + 1;
    }
    Ok(())
}

/// A lowercase hexadecimal digit.
pub open spec fn lower_hex(c: char) -> bool {
    ('0' <= c && c <= '9') || ('a' <= c && c <= 'f')
}

/// Whether `v` is `sha256:` followed by 64 lowercase hex digits.
pub open spec fn prompt_hash_ok(v: Seq<char>) -> bool {
    &&& v.len() == 71
    &&& v.take(7) == "sha256:"@
    &&& forall|i: int| 7 <= i < v.len() ==> lower_hex(#[trigger] v[i])
}

/// The messages the prompt-hash rule reports for `field` holding `v`.
pub open spec fn prompt_hash_errors(field: Seq<char>, v: Seq<char>) -> Seq<Seq<char>> {
    if !(v.len() >= 7 && v.take(7) == "sha256:"@) {
        seq![field + " prompt_hash must start with sha256:"@]
    } else if !prompt_hash_ok(v) {
        seq![field + " prompt_hash must be sha256: followed by 64 lowercase hex characters"@]
    } else {
        seq![]
    }
}

/// Reports a prompt hash that is not `sha256:` and 64 lowercase hex digits.
pub fn validate_prompt_hash(field: &str, value: &str, errors: &mut Vec<String>)
    ensures
        strs(final(errors)@) == strs(old(errors)@) + prompt_hash_errors(field@, value@),
{
    let cs = chars_of(value);
    let has_prefix = crate::text::has_prefix_at(&cs, 0, "sha256:");
    proof {
        reveal_strlit("sha256:");
        if cs@.len() >= 7 {
            assert(cs@.subrange(0, 7) =~= cs@.take(7));
        }
    }
    if !has_prefix {
        push_message(errors, field, " prompt_hash must start with sha256:");
        return;
    }
    let mut ok = cs.len() == 71;
    let mut i: usize = 7;
    while i < cs.len()
        invariant
            cs@ == value@,
            7 <= i <= cs@.len(),
            ok == (cs@.len() == 71 && forall|j: int| 7 <= j < i ==> lower_hex(#[trigger] cs@[j])),
        decreases cs@.len() - i,
    {
        let c = cs[i];
        let good = ('0' <= c && c <= '9') || ('a' <= c && c <= 'f');
        ok = ok && good;
        i = i + 1;
    }
    if !ok {
        push_message(errors, field, " prompt_hash must be sha256: followed by 64 lowercase hex characters");
    } else {
        assert(strs(errors@) =~= strs(old(errors)@) + prompt_hash_errors(field@, value@));
    }
}

/// A character a capsule id may hold: an ASCII letter or digit, `-` or `_`.
pub open spec fn capsule_id_char(c: char) -> bool {
    ('a' <= c && c <= 'z') || ('A' <= c && c <= 'Z') || ('0' <= c && c <= '9') || c == '-' || c == '_'
}

/// Whether `id` is a capsule id: non-empty, of ASCII letters, digits, `-` and `_`
/// (so also a single safe path segment).
pub open spec fn capsule_id_ok(id: Seq<char>) -> bool {
    id.len() > 0 && forall|i: int| 0 <= i < id.len() ==> capsule_id_char(#[trigger] id[i])
}

/// Accepts an id that can name a capsule directory.
pub fn validate_capsule_id(id: &str) -> (r: Result<(), String>)
    ensures
        capsule_id_ok(id@) ==> r is Ok,
        id@.len() == 0 ==> (r matches Err(m) && m@ == "capsule id must not be empty"@),
        id@.len() > 0 && !capsule_id_ok(id@) ==> (r matches Err(m) && m@
            == "capsule id must contain only ASCII letters, numbers, '-' or '_': "@ + id@),
{
    let cs = chars_of(id);
    if cs.len() == 0 {
        return Err(owned("capsule id must not be empty"));
    }
    let mut i: usize = 0;
    while i < cs.len()
        invariant
            cs@ == id@,
            i <= cs@.len(),
            forall|j: int| 0 <= j < i ==> capsule_id_char(#[trigger] cs@[j]),
        decreases cs@.len() - i,
    {
        let c = cs[i];
        if !(('a' <= c && c <= 'z') || ('A' <= c && c <= 'Z') || ('0' <= c && c <= '9') || c == '-'
            || c == '_') {
            assert(!capsule_id_char(cs@[i as int]));
            let mut m = owned("capsule id must contain only ASCII letters, numbers, '-' or '_': ");
            push_all(&mut m, id);
            return Err(m);
        }
        i = i + 1;
    }
    Ok(())
}

/// A control character other than tab, line feed or carriage return.
pub open spec fn is_stray_control(c: char) -> bool {
    is_control(c) && c != '\n' && c != '\r' && c != '\t'
}

/// The messages the multi-line text rule reports for `field` holding `v`.
pub open spec fn multiline_errors(field: Seq<char>, v: Seq<char>) -> Seq<Seq<char>> {
    (if blank(v) {
        seq![field + " must not be empty"@]
    } else {
        seq![]
    }) + if exists|i: int| 0 <= i < v.len() && is_stray_control(#[trigger] v[i]) {
        seq![field + " must not contain control characters other than tabs or newlines"@]
    } else {
        seq![]
    }
}

/// Reports blank text, and text with control characters other than tabs and
/// line breaks.
pub fn validate_multiline_text(field: &str, value: &str, errors: &mut Vec<String>)
    ensures
        strs(final(errors)@) == strs(old(errors)@) + multiline_errors(field@, value@),
{
    if is_blank(value) {
        push_message(errors, field, " must not be empty");
    }
    let ghost mid = strs(errors@);
    let cs = chars_of(value);
    let mut stray = false;
    let mut i: usize = 0;
    while i < cs.len()
        invariant
            cs@ == value@,
            i <= cs@.len(),
            stray == exists|j: int| 0 <= j < i && is_stray_control(#[trigger] cs@[j]),
        decreases cs@.len() - i,
    {
        let c = cs[i];
        if (c <= '\u{1f}' || ('\u{7f}' <= c && c <= '\u{9f}')) && c != '\n' && c != '\r' && c != '\t' {
            assert(is_stray_control(cs@[i as int]));
            stray = true;
        }
        i = i + 1;
    }
    if stray {
        push_message(errors, field, " must not contain control characters other than tabs or newlines");
    }
    assert(strs(errors@) =~= strs(old(errors)@) + multiline_errors(field@, value@));
}

} // verus!
