//! Reading counts and pull-request coordinates out of text.
use vstd::prelude::*;

use crate::dev::json::{json_pointer_u64, json_u64_at};
use crate::text::{
    lines, lines_spec, owned,
    chars_of, is_whitespace, is_ws, lemma_leading_ws_unique, lemma_trailing_ws_unique, string_of,
    substring, trim_bounds, trim_spec,
};

verus! {

/// Whether `c` is an ASCII digit.
pub open spec fn is_digit(c: char) -> bool {
    '0' <= c && c <= '9'
}

/// The value of a string of ASCII digits.
pub open spec fn digits_value(s: Seq<char>) -> nat
    decreases s.len(),
{
    if s.len() == 0 {
        0
    } else {
        digits_value(s.drop_last()) * 10 + ((s.last() as u32 - '0' as u32) as nat)
    }
}

/// Whether `s` is one or more ASCII digits.
pub open spec fn all_digits(s: Seq<char>) -> bool {
    s.len() > 0 && forall|i: int| 0 <= i < s.len() ==> is_digit(#[trigger] s[i])
}

/// What `str::parse::<u64>` gives: an optional `+`, then one or more ASCII
/// digits whose value fits in a `u64`.
pub open spec fn parse_u64_spec(s: Seq<char>) -> Option<u64> {
    let d = if s.len() > 0 && s[0] == '+' { s.drop_first() } else { s };
    if all_digits(d) && digits_value(d) <= u64::MAX {
        Some(digits_value(d) as u64)
    } else {
        None
    }
}

proof fn lemma_digits_value_step(s: Seq<char>, i: int)
    requires
        0 <= i < s.len(),
    ensures
        digits_value(s.take(i + 1)) == digits_value(s.take(i)) * 10 + ((s[i] as u32 - '0' as u32) as nat),
{
    assert(s.take(i + 1).drop_last() =~= s.take(i));
}

proof fn lemma_digits_value_grows(s: Seq<char>, i: int)
    requires
        0 <= i <= s.len(),
        forall|k: int| 0 <= k < s.len() ==> is_digit(#[trigger] s[k]),
    ensures
        digits_value(s.take(i)) <= digits_value(s),
    decreases s.len() - i,
{
    if i < s.len() {
        lemma_digits_value_step(s, i);
        lemma_digits_value_grows(s, i + 1);
        assert(s.take(s.len() as int) =~= s);
    } else {
        assert(s.take(i) =~= s);
    }
}

/// Parses a decimal `u64` the way `str::parse::<u64>` does.
pub fn parse_u64(s: &str) -> (r: Option<u64>)
    ensures
        r == parse_u64_spec(s@),
{
    let cs = chars_of(s);
    let start: usize = if cs.len() > 0 && cs[0] == '+' { 1 } else { 0 };
    let ghost d = if s@.len() > 0 && s@[0] == '+' { s@.drop_first() } else { s@ };
    assert(d =~= cs@.skip(start as int));
    if start >= cs.len() {
        return None;
    }
    let mut value: u64 = 0;
    let mut i: usize = start;
    while i < cs.len()
        invariant
            cs@ == s@,
            d == cs@.skip(start as int),
            d == (if s@.len() > 0 && s@[0] == '+' { s@.drop_first() } else { s@ }),
            start <= i <= cs@.len(),
            start < cs@.len(),
            forall|k: int| start <= k < i ==> is_digit(#[trigger] cs@[k]),
            value == digits_value(d.take(i - start)),
        decreases cs@.len() - i,
    {
        let c = cs[i];
        if !('0' <= c && c <= '9') {
            assert(d[i - start] == c);
            assert(!is_digit(d[i - start]));
            assert(!all_digits(d));
            return None;
        }
        let digit: u64 = (c as u32 - '0' as u32) as u64;
        proof {
            assert(d[i - start] == c);
            lemma_digits_value_step(d, i - start);
        }
        if value > (u64::MAX - digit) / 10 {
            proof {
                assert(digits_value(d.take(i - start + 1)) > u64::MAX) by (nonlinear_arith)
                    requires
                        value > (u64::MAX - digit) / 10,
                        digits_value(d.take(i - start + 1)) == value * 10 + digit,
                        digit < 10,
                ;
                if all_digits(d) {
                    lemma_digits_value_grows(d, i - start + 1);
                    assert(digits_value(d) > u64::MAX);
                }
                assert(parse_u64_spec(s@) is None);
            }
            return None;
        }
        value = value * 10 + digit;
        i = i + 1;
    }
    assert(d.take(i - start) =~= d);
    Some(value)
}

/// What `trailing_u64` reads: the text, trimmed, when it is all ASCII digits.
pub open spec fn trailing_u64_spec(v: Seq<char>) -> Option<u64> {
    if all_digits(trim_spec(v)) {
        parse_u64_spec(trim_spec(v))
    } else {
        None
    }
}

/// The count a text ends with, when the trimmed text is nothing but that count.
pub fn trailing_u64(value: &str) -> (r: Option<u64>)
    ensures
        r == trailing_u64_spec(value@),
{
    let cs = chars_of(value);
    let (lo, hi) = trim_bounds(&cs, 0, cs.len());
    assert(cs@.subrange(0, cs@.len() as int) =~= cs@);
    let t = substring(&cs, lo, hi);
    let tc = chars_of(t.as_str());
    let mut ok = tc.len() > 0;
    let mut i: usize = 0;
    while i < tc.len()
        invariant
            i <= tc@.len(),
            ok == (tc@.len() > 0 && forall|k: int| 0 <= k < i ==> is_digit(#[trigger] tc@[k])),
        decreases tc@.len() - i,
    {
        if !('0' <= tc[i] && tc[i] <= '9') {
            ok = false;
        }
        i = i + 1;
    }
    if ok {
        parse_u64(t.as_str())
    } else {
        None
    }
}

/// A separator that may come between a key and its count.
pub open spec fn is_key_separator(c: char) -> bool {
    is_ws(c) || c == ':' || c == '=' || c == '-'
}

/// The number of leading characters of `s` satisfying the separator rule.
pub open spec fn leading_separators(s: Seq<char>) -> nat
    decreases s.len(),
{
    if s.len() > 0 && is_key_separator(s[0]) {
        1 + leading_separators(s.drop_first())
    } else {
        0
    }
}

/// The number of leading ASCII digits of `s`.
pub open spec fn leading_digits(s: Seq<char>) -> nat
    decreases s.len(),
{
    if s.len() > 0 && is_digit(s[0]) {
        1 + leading_digits(s.drop_first())
    } else {
        0
    }
}

/// What `leading_u64_after_key` reads: after separators, the run of digits.
pub open spec fn leading_u64_spec(v: Seq<char>) -> Option<u64> {
    let rest = v.skip(leading_separators(v) as int);
    let digits = rest.take(leading_digits(rest) as int);
    if digits.len() == 0 {
        None
    } else {
        parse_u64_spec(digits)
    }
}

proof fn lemma_leading_separators(s: Seq<char>, b: int)
    requires
        0 <= b <= s.len(),
        forall|j: int| 0 <= j < b ==> is_key_separator(#[trigger] s[j]),
        b == s.len() || !is_key_separator(s[b]),
    ensures
        leading_separators(s) == b,
    decreases s.len(),
{
    if b > 0 {
        assert forall|j: int| 0 <= j < b - 1 implies is_key_separator(#[trigger] s.drop_first()[j]) by {
            assert(s.drop_first()[j] == s[j + 1]);
        }
        if b - 1 < s.len() - 1 {
            assert(s.drop_first()[b - 1] == s[b]);
        }
        lemma_leading_separators(s.drop_first(), b - 1);
    }
}

proof fn lemma_leading_digits(s: Seq<char>, b: int)
    requires
        0 <= b <= s.len(),
        forall|j: int| 0 <= j < b ==> is_digit(#[trigger] s[j]),
        b == s.len() || !is_digit(s[b]),
    ensures
        leading_digits(s) == b,
    decreases s.len(),
{
    if b > 0 {
        assert forall|j: int| 0 <= j < b - 1 implies is_digit(#[trigger] s.drop_first()[j]) by {
            assert(s.drop_first()[j] == s[j + 1]);
        }
        if b - 1 < s.len() - 1 {
            assert(s.drop_first()[b - 1] == s[b]);
        }
        lemma_leading_digits(s.drop_first(), b - 1);
    }
}

/// The count right after a key: separators (whitespace, `:`, `=`, `-`) are
/// skipped, then the digits that follow are read.
pub fn leading_u64_after_key(value: &str) -> (r: Option<u64>)
    ensures
        r == leading_u64_spec(value@),
{
    let cs = chars_of(value);
    let mut i: usize = 0;
    while i < cs.len() && (is_whitespace(cs[i]) || cs[i] == ':' || cs[i] == '=' || cs[i] == '-')
        invariant
            cs@ == value@,
            i <= cs@.len(),
            forall|j: int| 0 <= j < i ==> is_key_separator(#[trigger] cs@[j]),
        decreases cs@.len() - i,
    {
        i = i + 1;
    }
    proof {
        lemma_leading_separators(cs@, i as int);
    }
    let mut j: usize = i;
    while j < cs.len() && '0' <= cs[j] && cs[j] <= '9'
        invariant
            cs@ == value@,
            i <= j <= cs@.len(),
            forall|k: int| i <= k < j ==> is_digit(#[trigger] cs@[k]),
        decreases cs@.len() - j,
    {
        j = j + 1;
    }
    proof {
        let rest = cs@.skip(i as int);
        assert forall|k: int| 0 <= k < j - i implies is_digit(#[trigger] rest[k]) by {
            assert(rest[k] == cs@[k + i]);
        }
        if j < cs@.len() {
            assert(rest[j - i] == cs@[j as int]);
        }
        lemma_leading_digits(rest, j - i);
        assert(rest.take(j - i) =~= cs@.subrange(i as int, j as int));
    }
    if j == i {
        return None;
    }
    let digits = substring(&cs, i, j);
    parse_u64(digits.as_str())
}

/// `c` with ASCII uppercase letters lowered.
pub open spec fn ascii_lower(c: char) -> char {
    if 'A' <= c && c <= 'Z' {
        ((c as u8) + 32) as char
    } else {
        c
    }
}

/// Whether `p` occurs in `s` at index `i`.
pub open spec fn occurs_at(s: Seq<char>, p: Seq<char>, i: int) -> bool {
    0 <= i && i + p.len() <= s.len() && s.subrange(i, i + p.len()) == p
}

/// The first index at or after `from` where `p` occurs in `s`, or -1.
pub open spec fn find_from(s: Seq<char>, p: Seq<char>, from: int) -> int
    decreases s.len() + 1 - from,
{
    if from < 0 || from + p.len() > s.len() {
        -1
    } else if occurs_at(s, p, from) {
        from
    } else {
        find_from(s, p, from + 1)
    }
}

/// A found index lies at or after `from`, with the pattern inside `s`.
pub proof fn lemma_find_from_bounds(s: Seq<char>, p: Seq<char>, from: int)
    ensures
        find_from(s, p, from) >= 0 ==> from <= find_from(s, p, from) && find_from(s, p, from) + p.len() <= s.len(),
        find_from(s, p, from) >= -1,
    decreases s.len() + 1 - from,
{
    if !(from < 0 || from + p.len() > s.len()) && !occurs_at(s, p, from) {
        lemma_find_from_bounds(s, p, from + 1);
    }
}

/// The first index at or after `from` where `p` occurs in `s`.
pub fn find_chars(s: &Vec<char>, p: &Vec<char>, from: usize) -> (r: Option<usize>)
    ensures
        match r {
            Some(i) => i as int == find_from(s@, p@, from as int) && i + p@.len() <= s@.len() && i >= from,
            None => find_from(s@, p@, from as int) == -1,
        },
{
    let mut i = from;
    while i <= s.len() && p.len() <= s.len() - i
        invariant
            i >= from,
            find_from(s@, p@, from as int) == find_from(s@, p@, i as int),
        decreases s@.len() + 1 - i,
    {
        let mut k: usize = 0;
        let mut same = true;
        let n = s.len();
        while k < p.len()
            invariant
                n == s@.len(),
                i + p@.len() <= s@.len(),
                k <= p@.len(),
                same == forall|j: int| 0 <= j < k ==> s@[i + j] == p@[j],
            decreases p@.len() - k,
        {
            assert(i + k < s@.len());
            if s[i + k] != p[k] {
                same = false;
            }
            k = k + 1;
        }
        if same {
            assert(s@.subrange(i as int, i + p@.len()) =~= p@);
            return Some(i);
        }
        assert(!occurs_at(s@, p@, i as int)) by {
            if s@.subrange(i as int, i + p@.len()) == p@ {
                let j = choose|j: int| 0 <= j < p@.len() && s@[i + j] != p@[j];
                assert(s@.subrange(i as int, i + p@.len())[j] == s@[i + j]);
            }
        }
        i = i + 1;
    }
    None
}

/// The count a line gives for `key`, when `key` occurs in it (ignoring ASCII
/// case): the number right before the key, else the number right after it.
pub open spec fn key_count(v: Seq<char>, key: Seq<char>) -> Option<u64> {
    let idx = find_from(v.map_values(|c: char| ascii_lower(c)), key, 0);
    if idx < 0 {
        None
    } else {
        match trailing_u64_spec(trim_spec(v.take(idx))) {
            Some(n) => Some(n),
            None => leading_u64_spec(v.skip(idx + key.len())),
        }
    }
}

/// The unresolved count a line of review-pack output gives, trying the keys
/// `unresolved_threads`, `unresolved threads`, `unresolved`, `remaining` in turn.
pub open spec fn review_pack_line_count(v: Seq<char>) -> Option<u64> {
    match key_count(v, "unresolved_threads"@) {
        Some(n) => Some(n),
        None => match key_count(v, "unresolved threads"@) {
            Some(n) => Some(n),
            None => match key_count(v, "unresolved"@) {
                Some(n) => Some(n),
                None => key_count(v, "remaining"@),
            },
        },
    }
}

/// The count `value` gives for `key`.
fn count_for_key(value: &str, cs: &Vec<char>, lower: &Vec<char>, key: &str) -> (r: Option<u64>)
    requires
        cs@ == value@,
        lower@ == value@.map_values(|c: char| ascii_lower(c)),
    ensures
        r == key_count(value@, key@),
{
    let kc = chars_of(key);
    let idx = match find_chars(lower, &kc, 0) {
        Some(i) => i,
        None => return None,
    };
    assert(lower@.len() == cs@.len());
    let (lo, hi) = trim_bounds(cs, 0, idx);
    let before = substring(cs, lo, hi);
    proof {
        assert(cs@.subrange(0, idx as int) =~= value@.take(idx as int));
    }
    match trailing_u64(before.as_str()) {
        Some(n) => Some(n),
        None => {
            let n = cs.len();
            assert(idx + kc@.len() <= n);
            let after = substring(cs, idx + kc.len(), n);
            assert(cs@.subrange(idx + kc@.len(), cs@.len() as int) =~= value@.skip(idx + key@.len()));
            leading_u64_after_key(after.as_str())
        },
    }
}

/// The unresolved count one line of review-pack output gives.
pub fn review_pack_count_from_line(value: &str) -> (r: Option<u64>)
    ensures
        r == review_pack_line_count(value@),
{
    let cs = chars_of(value);
    let mut lower: Vec<char> = Vec::new();
    let mut i: usize = 0;
    while i < cs.len()
        invariant
            cs@ == value@,
            i <= cs@.len(),
            lower@ == cs@.take(i as int).map_values(|c: char| ascii_lower(c)),
        decreases cs@.len() - i,
    {
        let c = cs[i];
        let l = if 'A' <= c && c <= 'Z' { ((c as u8) + 32) as char } else { c };
        lower.push(l);
        assert(cs@.take(i + 1).map_values(|c: char| ascii_lower(c)) =~= cs@.take(i as int).map_values(|c: char| ascii_lower(c)).push(l));
        i = i + 1;
    }
    assert(cs@.take(cs@.len() as int) =~= cs@);
    match count_for_key(value, &cs, &lower, "unresolved_threads") {
        Some(n) => return Some(n),
        None => {},
    }
    match count_for_key(value, &cs, &lower, "unresolved threads") {
        Some(n) => return Some(n),
        None => {},
    }
    match count_for_key(value, &cs, &lower, "unresolved") {
        Some(n) => return Some(n),
        None => {},
    }
    count_for_key(value, &cs, &lower, "remaining")
}

/// The count a JSON review-pack report gives, at the first of its known places.
pub open spec fn review_pack_json_count(t: Seq<char>) -> Option<u64> {
    let ps = seq!["/unresolved"@, "/unresolved_threads"@, "/remaining"@, "/review_threads/unresolved"@,
        "/result/unresolved"@, "/result/unresolved_threads"@, "/summary/unresolved"@];
    first_json_count(t, ps)
}

/// The first of `ps` at which the JSON text `t` holds an unsigned integer.
pub open spec fn first_json_count(t: Seq<char>, ps: Seq<Seq<char>>) -> Option<u64>
    decreases ps.len(),
{
    if ps.len() == 0 {
        None
    } else {
        match json_u64_at(t, ps[0]) {
            Some(n) => Some(n),
            None => first_json_count(t, ps.drop_first()),
        }
    }
}

/// The count of the first line that gives one.
pub open spec fn first_line_count(ls: Seq<Seq<char>>) -> Option<u64>
    decreases ls.len(),
{
    if ls.len() == 0 {
        None
    } else {
        match review_pack_line_count(ls[0]) {
            Some(n) => Some(n),
            None => first_line_count(ls.drop_first()),
        }
    }
}

/// The unresolved count review-pack output reports: as JSON, as a bare number,
/// or on the first line that names it.
pub open spec fn review_pack_remaining(contents: Seq<char>) -> Option<u64> {
    let t = trim_spec(contents);
    match review_pack_json_count(t) {
        Some(n) => Some(n),
        None => match parse_u64_spec(t) {
            Some(n) => Some(n),
            None => first_line_count(lines_spec(contents)),
        },
    }
}

/// Reads the unresolved review-thread count out of review-pack output.
pub fn parse_review_pack_remaining(contents: &str) -> (r: Result<u64, String>)
    ensures
        match r {
            Ok(n) => review_pack_remaining(contents@) == Some(n),
            Err(m) => review_pack_remaining(contents@) is None
                && m@ == "review-pack remaining output did not include an unresolved count"@,
        },
{
    let cs = chars_of(contents);
    let (lo, hi) = trim_bounds(&cs, 0, cs.len());
    assert(cs@.subrange(0, cs@.len() as int) =~= cs@);
    let t = substring(&cs, lo, hi);
    let ghost ps = seq!["/unresolved"@, "/unresolved_threads"@, "/remaining"@, "/review_threads/unresolved"@,
        "/result/unresolved"@, "/result/unresolved_threads"@, "/summary/unresolved"@];
    let pointers: [&str; 7] = ["/unresolved", "/unresolved_threads", "/remaining", "/review_threads/unresolved",
        "/result/unresolved", "/result/unresolved_threads", "/summary/unresolved"];
    let mut k: usize = 0;
    assert(ps.skip(0) =~= ps);
    while k < 7
        invariant
            k <= 7,
            ps.len() == 7,
            t@ == trim_spec(contents@),
            review_pack_json_count(t@) == first_json_count(t@, ps),
            forall|j: int| 0 <= j < 7 ==> #[trigger] pointers@[j]@ == ps[j],
            first_json_count(t@, ps) == first_json_count(t@, ps.skip(k as int)),
        decreases 7 - k,
    {
        assert(ps.skip(k as int)[0] == ps[k as int]);
        assert(ps.skip(k as int).drop_first() =~= ps.skip(k + 1));
        match json_pointer_u64(t.as_str(), pointers[k]) {
            Some(n) => return Ok(n),
            None => {},
        }
        k = k + 1;
    }
    assert(ps.skip(7).len() == 0);
    match parse_u64(t.as_str()) {
        Some(n) => return Ok(n),
        None => {},
    }
    let ls = lines(contents);
    let ghost lv = lines_spec(contents@);
    let mut i: usize = 0;
    assert(lv.skip(0) =~= lv);
    while i < ls.len()
        invariant
            ls@.map_values(|l: Vec<char>| l@) == lv,
            lv == lines_spec(contents@),
            review_pack_json_count(trim_spec(contents@)) is None,
            parse_u64_spec(trim_spec(contents@)) is None,
            i <= ls@.len(),
            first_line_count(lv) == first_line_count(lv.skip(i as int)),
        decreases ls@.len() - i,
    {
        assert(lv.skip(i as int)[0] == ls@[i as int]@);
        assert(lv.skip(i as int).drop_first() =~= lv.skip(i + 1));
        let line = string_of(ls[i].as_slice());
        match review_pack_count_from_line(line.as_str()) {
            Some(n) => return Ok(n),
            None => {},
        }
        i = i + 1;
    }
    assert(lv.skip(i as int).len() == 0);
    Err(owned("review-pack remaining output did not include an unresolved count"))
}

} // verus!
