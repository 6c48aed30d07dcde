//! The questions the auditor asks of a JSON document.
use vstd::prelude::*;

use crate::json::{member, member_of, str_of, as_str, Json};
use crate::text::{chars_of, trim_bounds, trim_spec};

verus! {

/// Whether a `runtime` setting selects Bun: `bun` or `bun@...`.
pub open spec fn runtime_is_bun(v: Option<Json>) -> bool {
    match as_str(v) {
        Some(r) => r == "bun"@ || "bun@"@.is_prefix_of(r),
        None => false,
    }
}

/// Whether a `bunVersion` setting names a version.
pub open spec fn bun_version_set(v: Option<Json>) -> bool {
    match as_str(v) {
        Some(s) => trim_spec(s).len() > 0,
        None => false,
    }
}

/// Whether `v`, or any value nested in it, is an object whose `runtime` is Bun
/// or whose `bunVersion` names a version.
pub open spec fn has_bun_runtime(v: Json) -> bool
    decreases v,
{
    match v {
        Json::Array(items) => any_bun_runtime(items@),
        Json::Object(es) => runtime_is_bun(member(es@, "runtime"@)) || bun_version_set(member(es@, "bunVersion"@))
            || any_member_bun_runtime(es@),
        _ => false,
    }
}

/// Whether any of `items` has a Bun runtime setting.
pub open spec fn any_bun_runtime(items: Seq<Json>) -> bool
    decreases items,
{
    if items.len() == 0 {
        false
    } else {
        has_bun_runtime(items[0]) || any_bun_runtime(items.drop_first())
    }
}

/// Whether the value of any of the members `es` has a Bun runtime setting.
pub open spec fn any_member_bun_runtime(es: Seq<(String, Json)>) -> bool
    decreases es,
{
    if es.len() == 0 {
        false
    } else {
        has_bun_runtime(es[0].1) || any_member_bun_runtime(es.drop_first())
    }
}

/// Whether a `runtime` setting selects Bun.
fn runtime_selects_bun(v: Option<&Json>) -> (r: bool)
    ensures
        r == runtime_is_bun(match v { Some(x) => Some(*x), None => None }),
{
    match str_of(v) {
        Some(s) => crate::audit_gate::str_eq(s.as_str(), "bun") || crate::text::starts_with(s.as_str(), "bun@"),
        None => false,
    }
}

/// Whether a `bunVersion` setting names a version.
fn names_a_version(v: Option<&Json>) -> (r: bool)
    ensures
        r == bun_version_set(match v { Some(x) => Some(*x), None => None }),
{
    match str_of(v) {
        Some(s) => {
            let cs = chars_of(s.as_str());
            let (lo, hi) = trim_bounds(&cs, 0, cs.len());
            assert(cs@.subrange(0, cs@.len() as int) =~= s@);
            hi > lo
        },
        None => false,
    }
}

/// Whether `v`, or any value nested in it, sets a Bun runtime (see
/// [`has_bun_runtime`]).
pub fn contains_bun_runtime_config(v: &Json) -> (r: bool)
    ensures
        r == has_bun_runtime(*v),
    decreases v,
{
    match v {
        Json::Array(items) => {
            assert(decreases_to!(*v => *items));
            assert(decreases_to!(*items => items@));
            let mut i: usize = 0;
            assert(items@.skip(0) =~= items@);
            while i < items.len()
                invariant
                    i <= items@.len(),
                    any_bun_runtime(items@) == any_bun_runtime(items@.skip(i as int)),
                    has_bun_runtime(*v) == any_bun_runtime(items@),
                    decreases_to!(*v => items@),
                decreases items@.len() - i,
            {
                assert(items@.skip(i as int)[0] == items@[i as int]);
                assert(items@.skip(i as int).drop_first() =~= items@.skip(i + 1));
                assert(decreases_to!(items@ => items@[i as int]));
                if contains_bun_runtime_config(&items[i]) {
                    return true;
                }
                i = i + 1;
            }
            false
        },
        Json::Object(es) => {
            if runtime_selects_bun(member_of(es, "runtime")) || names_a_version(member_of(es, "bunVersion")) {
                return true;
            }
            assert(decreases_to!(*v => *es));
            assert(decreases_to!(*es => es@));
            let mut i: usize = 0;
            assert(es@.skip(0) =~= es@);
            while i < es.len()
                invariant
                    i <= es@.len(),
                    any_member_bun_runtime(es@) == any_member_bun_runtime(es@.skip(i as int)),
                    has_bun_runtime(*v) == any_member_bun_runtime(es@),
                    decreases_to!(*v => es@),
                decreases es@.len() - i,
            {
                assert(es@.skip(i as int)[0] == es@[i as int]);
                assert(es@.skip(i as int).drop_first() =~= es@.skip(i + 1));
                assert(decreases_to!(es@ => es@[i as int]));
                assert(decreases_to!(es@[i as int] => es@[i as int].1));
                if contains_bun_runtime_config(&es[i].1) {
                    return true;
                }
                i = i + 1;
            }
            false
        },
        _ => false,
    }
}

} // verus!
