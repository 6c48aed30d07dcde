//! Text renderings of the capsule contract: commands, issue lists, slugs and
//! the capsule's markdown summary.
use vstd::prelude::*;

use crate::text::{chars_of, decimal, owned, push_all, push_char, push_decimal, strs};

verus! {

/// A byte a shell reads literally: an ASCII letter or digit, or one of `_@%+=:,./-`.
pub open spec fn shell_safe(c: char) -> bool {
    ('a' <= c && c <= 'z') || ('A' <= c && c <= 'Z') || ('0' <= c && c <= '9') || c == '_' || c == '@'
        || c == '%' || c == '+' || c == '=' || c == ':' || c == ',' || c == '.' || c == '/' || c == '-'
}

/// `s` with each `'` replaced by `'\''`.
pub open spec fn escape_quotes(s: Seq<char>) -> Seq<char>
    decreases s.len(),
{
    if s.len() == 0 {
        s
    } else {
        escape_quotes(s.drop_last()) + if s.last() == '\'' {
            seq!['\'', '\\', '\'', '\'']
        } else {
            seq![s.last()]
        }
    }
}

/// How an argument is written for a POSIX shell: `''` when empty, as is when
/// every character is safe, else single-quoted with inner quotes escaped.
pub open spec fn shell_quoted(s: Seq<char>) -> Seq<char> {
    if s.len() == 0 {
        "''"@
    } else if forall|i: int| 0 <= i < s.len() ==> shell_safe(#[trigger] s[i]) {
        s
    } else {
        seq!['\''] + escape_quotes(s) + seq!['\'']
    }
}

/// Quotes one argument for a POSIX shell.
pub fn shell_quote(arg: &str) -> (r: String)
    ensures
        r@ == shell_quoted(arg@),
{
    let cs = chars_of(arg);
    if cs.len() == 0 {
        return owned("''");
    }
    let mut safe = true;
    let mut i: usize = 0;
    while i < cs.len()
        invariant
            cs@ == arg@,
            i <= cs@.len(),
            safe == forall|j: int| 0 <= j < i ==> shell_safe(#[trigger] cs@[j]),
        decreases cs@.len() - i,
    {
        let c = cs[i];
        let ok = ('a' <= c && c <= 'z') || ('A' <= c && c <= 'Z') || ('0' <= c && c <= '9') || c == '_'
            || c == '@' || c == '%' || c == '+' || c == '=' || c == ':' || c == ',' || c == '.' || c == '/'
            || c == '-';
        safe = safe && ok;
        i = i + 1;
    }
    if safe {
        return owned(arg);
    }
    let mut out = String::new();
    push_char(&mut out, '\'');
    let mut k: usize = 0;
    while k < cs.len()
        invariant
            cs@ == arg@,
            k <= cs@.len(),
            out@ == seq!['\''] + escape_quotes(cs@.take(k as int)),
        decreases cs@.len() - k,
    {
        let c = cs[k];
        if c == '\'' {
            push_char(&mut out, '\'');
            push_char(&mut out, '\\');
            push_char(&mut out, '\'');
            push_char(&mut out, '\'');
        } else {
            push_char(&mut out, c);
        }
        proof {
            let t = cs@.take(k + 1);
            assert(t.drop_last() =~= cs@.take(k as int));
            assert(out@ =~= seq!['\''] + escape_quotes(t));
        }
        k = k + 1;
    }
    push_char(&mut out, '\'');
    assert(cs@.take(cs@.len() as int) =~= cs@);
    assert(out@ =~= seq!['\''] + escape_quotes(arg@) + seq!['\'']);
    out
}

/// The arguments, each shell-quoted, joined by single spaces.
pub open spec fn command_text(args: Seq<Seq<char>>) -> Seq<char>
    decreases args.len(),
{
    if args.len() == 0 {
        seq![]
    } else if args.len() == 1 {
        shell_quoted(args[0])
    } else {
        command_text(args.drop_last()) + " "@ + shell_quoted(args.last())
    }
}

/// Renders a command so that a shell splits it into the same arguments.
pub fn render_command(command: &Vec<String>) -> (r: String)
    ensures
        r@ == command_text(strs(command@)),
{
    let mut out = String::new();
    let mut i: usize = 0;
    while i < command.len()
        invariant
            i <= command@.len(),
            out@ == command_text(strs(command@).take(i as int)),
        decreases command@.len() - i,
    {
        if i > 0 {
            push_all(&mut out, " ");
        }
        let q = shell_quote(command[i].as_str());
        push_all(&mut out, q.as_str());
        proof {
            let t = strs(command@).take(i + 1);
            assert(t.drop_last() =~= strs(command@).take(i as int));
        }
        i = i + 1;
    }
    assert(strs(command@).take(command@.len() as int) =~= strs(command@));
    out
}

/// Issue or pull-request numbers as `#1, #2`, or `none`.
pub open spec fn numbers_text(ns: Seq<u64>) -> Seq<char>
    decreases ns.len(),
{
    if ns.len() == 0 {
        "none"@
    } else if ns.len() == 1 {
        "#"@ + decimal(ns[0] as nat)
    } else {
        numbers_text(ns.drop_last()) + ", #"@ + decimal(ns.last() as nat)
    }
}

/// Renders a list of issue or pull-request numbers.
pub fn render_numbers(numbers: &Vec<u64>) -> (r: String)
    ensures
        r@ == numbers_text(numbers@),
{
    if numbers.len() == 0 {
        return owned("none");
    }
    let mut out = owned("#");
    push_decimal(&mut out, numbers[0]);
    let mut i: usize = 1;
    while i < numbers.len()
        invariant
            1 <= i <= numbers@.len(),
            out@ == numbers_text(numbers@.take(i as int)),
        decreases numbers@.len() - i,
    {
        push_all(&mut out, ", #");
        push_decimal(&mut out, numbers[i]);
        proof {
            let t = numbers@.take(i + 1);
            assert(t.drop_last() =~= numbers@.take(i as int));
        }
        i = i + 1;
    }
    assert(numbers@.take(numbers@.len() as int) =~= numbers@);
    out
}

} // verus!
