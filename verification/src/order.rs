//! The order of strings (character by character, as `str` orders them) and
//! of lists of strings (as a `BTreeMap` keyed by paths or tuples orders its
//! keys), and sorting and grouping by them.
use vstd::prelude::*;

use crate::dev::ledger::{lex_less, str_less};
use crate::text::{owned, strs};

verus! {

/// No string sorts before itself.
pub proof fn lemma_lex_irreflexive(a: Seq<char>)
    ensures
        !lex_less(a, a),
    decreases a.len(),
{
    if a.len() > 0 {
        lemma_lex_irreflexive(a.drop_first());
    }
}

/// The string order is transitive.
pub proof fn lemma_lex_transitive(a: Seq<char>, b: Seq<char>, c: Seq<char>)
    requires
        lex_less(a, b),
        lex_less(b, c),
    ensures
        lex_less(a, c),
    decreases a.len(),
{
    if a.len() > 0 && b.len() > 0 && c.len() > 0 && a[0] == b[0] && b[0] == c[0] {
        lemma_lex_transitive(a.drop_first(), b.drop_first(), c.drop_first());
    }
}

/// Of two different strings, one sorts before the other.
pub proof fn lemma_lex_total(a: Seq<char>, b: Seq<char>)
    requires
        a != b,
    ensures
        lex_less(a, b) || lex_less(b, a),
    decreases a.len(),
{
    if a.len() > 0 && b.len() > 0 && a[0] == b[0] {
        if a.drop_first() == b.drop_first() {
            assert(a =~= seq![a[0]] + a.drop_first());
            assert(b =~= seq![b[0]] + b.drop_first());
        }
        lemma_lex_total(a.drop_first(), b.drop_first());
    } else if a.len() == 0 && b.len() == 0 {
        assert(a =~= b);
    }
}

/// Whether the list `a` sorts strictly before `b`: element by element, a
/// proper prefix first.
pub open spec fn seqs_less(a: Seq<Seq<char>>, b: Seq<Seq<char>>) -> bool
    decreases a.len(),
{
    if a.len() == 0 {
        b.len() > 0
    } else if b.len() == 0 {
        false
    } else if a[0] != b[0] {
        lex_less(a[0], b[0])
    } else {
        seqs_less(a.drop_first(), b.drop_first())
    }
}

/// No list sorts before itself.
pub proof fn lemma_seqs_irreflexive(a: Seq<Seq<char>>)
    ensures
        !seqs_less(a, a),
    decreases a.len(),
{
    if a.len() > 0 {
        lemma_seqs_irreflexive(a.drop_first());
    }
}

/// The list order is transitive.
pub proof fn lemma_seqs_transitive(a: Seq<Seq<char>>, b: Seq<Seq<char>>, c: Seq<Seq<char>>)
    requires
        seqs_less(a, b),
        seqs_less(b, c),
    ensures
        seqs_less(a, c),
    decreases a.len(),
{
    if a.len() > 0 && b.len() > 0 && c.len() > 0 {
        if a[0] == b[0] && b[0] == c[0] {
            lemma_seqs_transitive(a.drop_first(), b.drop_first(), c.drop_first());
        } else if a[0] != b[0] && b[0] != c[0] {
            lemma_lex_transitive(a[0], b[0], c[0]);
            if a[0] == c[0] {
                lemma_lex_irreflexive(a[0]);
            }
        } else if a[0] != b[0] {
            assert(b[0] == c[0]);
        } else {
            assert(a[0] == b[0]);
        }
    }
}

/// Of two different lists, one sorts before the other.
pub proof fn lemma_seqs_total(a: Seq<Seq<char>>, b: Seq<Seq<char>>)
    requires
        a != b,
    ensures
        seqs_less(a, b) || seqs_less(b, a),
    decreases a.len(),
{
    if a.len() > 0 && b.len() > 0 {
        if a[0] == b[0] {
            if a.drop_first() == b.drop_first() {
                assert(a =~= seq![a[0]] + a.drop_first());
                assert(b =~= seq![b[0]] + b.drop_first());
            }
            lemma_seqs_total(a.drop_first(), b.drop_first());
        } else {
            lemma_lex_total(a[0], b[0]);
        }
    } else if a.len() == 0 && b.len() == 0 {
        assert(a =~= b);
    }
}

/// Whether `s` is in strictly ascending order.
pub open spec fn strictly_ascending(s: Seq<Seq<Seq<char>>>) -> bool {
    forall|i: int, j: int| 0 <= i < j < s.len() ==> seqs_less(#[trigger] s[i], #[trigger] s[j])
}

/// Whether `s` is in ascending order.
pub open spec fn ascending(s: Seq<Seq<char>>) -> bool {
    forall|i: int, j: int| 0 <= i < j < s.len() ==> !lex_less(#[trigger] s[j], #[trigger] s[i])
}

/// Whether list `a` sorts strictly before `b`.
pub fn list_less(a: &Vec<String>, b: &Vec<String>) -> (r: bool)
    ensures
        r == seqs_less(strs(a@), strs(b@)),
{
    let ghost av = strs(a@);
    let ghost bv = strs(b@);
    let mut i: usize = 0;
    assert(av.skip(0) =~= av);
    assert(bv.skip(0) =~= bv);
    while i < a.len() && i < b.len()
        invariant
            i <= a@.len(),
            i <= b@.len(),
            av == strs(a@),
            bv == strs(b@),
            seqs_less(av, bv) == seqs_less(av.skip(i as int), bv.skip(i as int)),
        decreases a@.len() - i,
    {
        assert(av.skip(i as int)[0] == a@[i as int]@);
        assert(bv.skip(i as int)[0] == b@[i as int]@);
        if !crate::audit_gate::str_eq(a[i].as_str(), b[i].as_str()) {
            return str_less(a[i].as_str(), b[i].as_str());
        }
        assert(av.skip(i as int).drop_first() =~= av.skip(i + 1));
        assert(bv.skip(i as int).drop_first() =~= bv.skip(i + 1));
        i = i + 1;
    }
    i < b.len()
}

/// Whether two lists of strings are equal.
pub fn list_eq(a: &Vec<String>, b: &Vec<String>) -> (r: bool)
    ensures
        r == (strs(a@) == strs(b@)),
{
    if a.len() != b.len() {
        return false;
    }
    let mut i: usize = 0;
    while i < a.len()
        invariant
            a@.len() == b@.len(),
            i <= a@.len(),
            forall|j: int| 0 <= j < i ==> a@[j]@ == b@[j]@,
        decreases a@.len() - i,
    {
        if !crate::audit_gate::str_eq(a[i].as_str(), b[i].as_str()) {
            assert(strs(a@)[i as int] != strs(b@)[i as int]);
            return false;
        }
        i = i + 1;
    }
    assert(strs(a@) =~= strs(b@));
    true
}

/// A copy of a list of strings.
pub fn copy_strings(v: &Vec<String>) -> (r: Vec<String>)
    ensures
        strs(r@) == strs(v@),
{
    let mut out: Vec<String> = Vec::new();
    let mut i: usize = 0;
    while i < v.len()
        invariant
            i <= v@.len(),
            strs(out@) == strs(v@).take(i as int),
        decreases v@.len() - i,
    {
        let ghost before = strs(out@);
        out.push(owned(v[i].as_str()));
        assert(strs(out@) =~= before.push(v@[i as int]@));
        assert(strs(out@) =~= strs(v@).take(i + 1));
        i = i + 1;
    }
    assert(strs(v@).take(v@.len() as int) =~= strs(v@));
    out
}

/// Where `x` goes among `s`: before the first string it sorts before.
pub open spec fn str_insertion_point(s: Seq<Seq<char>>, x: Seq<char>) -> nat
    decreases s.len(),
{
    if s.len() == 0 || lex_less(x, s[0]) {
        0
    } else {
        1 + str_insertion_point(s.drop_first(), x)
    }
}

/// `s` sorted by inserting each string, in turn, before the first string it
/// sorts before.
pub open spec fn str_sorted(s: Seq<Seq<char>>) -> Seq<Seq<char>>
    decreases s.len(),
{
    if s.len() == 0 {
        seq![]
    } else {
        let t = str_sorted(s.drop_last());
        t.insert(str_insertion_point(t, s.last()) as int, s.last())
    }
}

/// The strings of `v` in ascending order.
pub fn sort_strings(v: &Vec<String>) -> (r: Vec<String>)
    ensures
        strs(r@) == str_sorted(strs(v@)),
        ascending(strs(r@)),
        strs(r@).to_multiset() == strs(v@).to_multiset(),
{
    broadcast use vstd::seq_lib::group_to_multiset_ensures;
    let mut out: Vec<String> = Vec::new();
    let mut i: usize = 0;
    assert(strs(out@) =~= strs(v@).take(0));
    while i < v.len()
        invariant
            i <= v@.len(),
            ascending(strs(out@)),
            strs(out@).to_multiset() == strs(v@).take(i as int).to_multiset(),
            strs(out@) == str_sorted(strs(v@).take(i as int)),
        decreases v@.len() - i,
    {
        let x = owned(v[i].as_str());
        let ghost s = strs(out@);
        let mut k: usize = 0;
        assert(s.skip(0) =~= s);
        while k < out.len() && !str_less(x.as_str(), out[k].as_str())
            invariant
                k <= out@.len(),
                s == strs(out@),
                forall|j: int| 0 <= j < k ==> !lex_less(x@, #[trigger] s[j]),
                str_insertion_point(s, x@) == k + str_insertion_point(s.skip(k as int), x@),
            decreases out@.len() - k,
        {
            assert(s[k as int] == out@[k as int]@);
            assert(s.skip(k as int)[0] == s[k as int]);
            assert(s.skip(k as int).drop_first() =~= s.skip(k + 1));
            k = k + 1;
        }
        proof {
            if k < out@.len() {
                assert(s[k as int] == out@[k as int]@);
            }
            let ns = s.insert(k as int, x@);
            assert forall|a: int, b: int| 0 <= a < b < ns.len() implies !lex_less(#[trigger] ns[b], #[trigger] ns[a]) by {
                if a < k && b == k {
                    // s[a] is not after x: either equal or before it.
                    if lex_less(x@, s[a]) {
                    } else if s[a] != x@ {
                        lemma_lex_total(s[a], x@);
                        if lex_less(x@, s[a]) {
                        } else {
                            lemma_lex_irreflexive(x@);
                            if lex_less(ns[b], ns[a]) {
                                lemma_lex_transitive(x@, s[a], x@);
                            }
                        }
                    } else {
                        lemma_lex_irreflexive(x@);
                    }
                } else if a == k && b > k {
                    // x sorts before s[k], so not after anything from k on.
                    if lex_less(ns[b], ns[a]) {
                        assert(ns[b] == s[b - 1]);
                        assert(lex_less(x@, s[k as int]));
                        if b - 1 > k {
                            if lex_less(s[b - 1], x@) {
                                lemma_lex_transitive(s[b - 1], x@, s[k as int]);
                            }
                        } else {
                            lemma_lex_transitive(x@, s[k as int], x@);
                            lemma_lex_irreflexive(x@);
                        }
                    }
                } else if a < k && b > k {
                    assert(ns[a] == s[a]);
                    assert(ns[b] == s[b - 1]);
                } else if a > k {
                    assert(ns[a] == s[a - 1]);
                    assert(ns[b] == s[b - 1]);
                } else {
                    assert(ns[a] == s[a]);
                    assert(ns[b] == s[b]);
                }
            }
            vstd::seq_lib::to_multiset_insert(s, k as int, x@);
        }
        out.insert(k, x);
        assert(strs(out@) =~= s.insert(k as int, strs(v@)[i as int]));
        proof {
            let pre = strs(v@).take(i as int);
            let t = strs(v@).take(i + 1);
            assert(t =~= pre.insert(i as int, x@));
            vstd::seq_lib::to_multiset_insert(pre, i as int, x@);
            assert(t.drop_last() =~= pre);
            if k < s.len() {
                assert(s.skip(k as int)[0] == s[k as int]);
            }
            assert(str_insertion_point(s, x@) == k);
        }
        i = i + 1;
    }
    assert(strs(v@).take(v@.len() as int) =~= strs(v@));
    out
}

/// The keys of a list of groups, as values.
pub open spec fn key_view(keys: Seq<Vec<String>>) -> Seq<Seq<Seq<char>>> {
    keys.map_values(|k: Vec<String>| strs(k@))
}

/// The values of the items whose key is `key`, in order.
pub open spec fn values_of(items: Seq<(Vec<String>, String)>, key: Seq<Seq<char>>) -> Seq<Seq<char>>
    decreases items.len(),
{
    if items.len() == 0 {
        seq![]
    } else {
        let rest = values_of(items.drop_last(), key);
        if strs(items.last().0@) == key {
            rest.push(items.last().1@)
        } else {
            rest
        }
    }
}

/// Whether some item has the key `key`.
pub open spec fn has_key(items: Seq<(Vec<String>, String)>, key: Seq<Seq<char>>) -> bool {
    exists|i: int| 0 <= i < items.len() && strs((#[trigger] items[i]).0@) == key
}

proof fn lemma_values_of_absent(items: Seq<(Vec<String>, String)>, key: Seq<Seq<char>>)
    requires
        !has_key(items, key),
    ensures
        values_of(items, key) == Seq::<Seq<char>>::empty(),
    decreases items.len(),
{
    if items.len() > 0 {
        assert(items.last() == items[items.len() - 1]);
        assert forall|i: int| 0 <= i < items.drop_last().len() implies strs((#[trigger] items.drop_last()[i]).0@) != key by {
            assert(items.drop_last()[i] == items[i]);
        }
        lemma_values_of_absent(items.drop_last(), key);
    }
}

/// Where key `x` goes among the ascending keys `ks`: at the first key it does
/// not sort after.
pub open spec fn key_position(ks: Seq<Seq<Seq<char>>>, x: Seq<Seq<char>>) -> nat
    decreases ks.len(),
{
    if ks.len() == 0 || !seqs_less(ks[0], x) {
        0
    } else {
        1 + key_position(ks.drop_first(), x)
    }
}

/// The distinct keys of `items`, each inserted in turn at its position.
pub open spec fn sorted_keys(items: Seq<(Vec<String>, String)>) -> Seq<Seq<Seq<char>>>
    decreases items.len(),
{
    if items.len() == 0 {
        seq![]
    } else {
        let ks = sorted_keys(items.drop_last());
        let x = strs(items.last().0@);
        let p = key_position(ks, x);
        if p < ks.len() && ks[p as int] == x {
            ks
        } else {
            ks.insert(p as int, x)
        }
    }
}

/// The items grouped by key, in ascending key order: each key once, with the
/// values of its items in order.
pub fn group_by_key(items: &Vec<(Vec<String>, String)>) -> (r: (Vec<Vec<String>>, Vec<Vec<String>>))
    ensures
        r.0@.len() == r.1@.len(),
        key_view(r.0@) == sorted_keys(items@),
        strictly_ascending(key_view(r.0@)),
        forall|k: Seq<Seq<char>>| key_view(r.0@).contains(k) <==> has_key(items@, k),
        forall|g: int| 0 <= g < r.1@.len() ==> strs((#[trigger] r.1@[g])@) == values_of(items@, key_view(r.0@)[g]),
{
    let mut keys: Vec<Vec<String>> = Vec::new();
    let mut vals: Vec<Vec<String>> = Vec::new();
    let mut i: usize = 0;
    while i < items.len()
        invariant
            i <= items@.len(),
            keys@.len() == vals@.len(),
            key_view(keys@) == sorted_keys(items@.take(i as int)),
            strictly_ascending(key_view(keys@)),
            forall|k: Seq<Seq<char>>| key_view(keys@).contains(k) <==> has_key(items@.take(i as int), k),
            forall|g: int| 0 <= g < vals@.len() ==> strs((#[trigger] vals@[g])@) == values_of(items@.take(i as int), key_view(keys@)[g]),
        decreases items@.len() - i,
    {
        let ghost pre = items@.take(i as int);
        let ghost post = items@.take(i + 1);
        let ghost kv = key_view(keys@);
        assert(post.drop_last() =~= pre);
        assert(post.last() == items@[i as int]);
        let key = &items[i].0;
        let ghost kx = strs(key@);
        // Find the key, or where it belongs.
        let mut k: usize = 0;
        assert(kv.skip(0) =~= kv);
        while k < keys.len() && list_less(&keys[k], key)
            invariant
                k <= keys@.len(),
                kv == key_view(keys@),
                kx == strs(key@),
                forall|j: int| 0 <= j < k ==> seqs_less(#[trigger] kv[j], kx),
                key_position(kv, kx) == k + key_position(kv.skip(k as int), kx),
            decreases keys@.len() - k,
        {
            assert(kv[k as int] == strs(keys@[k as int]@));
            assert(kv.skip(k as int)[0] == kv[k as int]);
            assert(kv.skip(k as int).drop_first() =~= kv.skip(k + 1));
            k = k + 1;
        }
        let found = k < keys.len() && list_eq(&keys[k], key);
        proof {
            if k < keys@.len() {
                assert(kv[k as int] == strs(keys@[k as int]@));
                assert(kv.skip(k as int)[0] == kv[k as int]);
            }
            assert(key_position(kv, kx) == k);
            assert(strs(post.last().0@) == kx);
            assert forall|k2: Seq<Seq<char>>| has_key(post, k2) <==> (has_key(pre, k2) || k2 == kx) by {
                if has_key(post, k2) {
                    let j = choose|j: int| 0 <= j < post.len() && strs((#[trigger] post[j]).0@) == k2;
                    if j < pre.len() {
                        assert(pre[j] == post[j]);
                    }
                }
                if has_key(pre, k2) {
                    let j = choose|j: int| 0 <= j < pre.len() && strs((#[trigger] pre[j]).0@) == k2;
                    assert(post[j] == pre[j]);
                }
                if k2 == kx {
                    assert(strs(post[i as int].0@) == kx);
                }
            }
        }
        if found {
            let mut nv = copy_strings(&vals[k]);
            let ghost old_vals = vals@;
            nv.push(owned(items[i].1.as_str()));
            proof {
                assert(strs(nv@) =~= strs(old_vals[k as int]@).push(items@[i as int].1@));
            }
            vals.set(k, nv);
            proof {
                assert forall|g: int| 0 <= g < vals@.len() implies strs((#[trigger] vals@[g])@) == values_of(post, key_view(keys@)[g]) by {
                    if g != k {
                        assert(vals@[g] == old_vals[g]);
                    }
                }
                assert forall|k2: Seq<Seq<char>>| key_view(keys@).contains(k2) <==> has_key(post, k2) by {
                    if k2 == kx {
                        assert(key_view(keys@)[k as int] == kx);
                    }
                }
            }
        } else {
            let ghost old_vals = vals@;
            let ghost old_keys = keys@;
            proof {
                assert(!has_key(pre, kx)) by {
                    if has_key(pre, kx) {
                        assert(kv.contains(kx));
                        let j = choose|j: int| 0 <= j < kv.len() && kv[j] == kx;
                        if j < k {
                            lemma_seqs_irreflexive(kx);
                        } else if j == k {
                        } else {
                            assert(seqs_less(kv[k as int], kv[j]));
                            lemma_seqs_total(kv[k as int], kx);
                            if seqs_less(kx, kv[k as int]) {
                                lemma_seqs_transitive(kx, kv[k as int], kx);
                                lemma_seqs_irreflexive(kx);
                            }
                        }
                    }
                }
                lemma_values_of_absent(pre, kx);
            }
            let mut nv: Vec<String> = Vec::new();
            nv.push(owned(items[i].1.as_str()));
            let nk = copy_strings(key);
            keys.insert(k, nk);
            vals.insert(k, nv);
            proof {
                let nkv = key_view(keys@);
                assert(nkv =~= kv.insert(k as int, kx));
                assert(strs(nv@) =~= seq![items@[i as int].1@]);
                assert(strs(nv@) == values_of(post, kx));
                assert forall|a: int, b: int| 0 <= a < b < nkv.len() implies seqs_less(#[trigger] nkv[a], #[trigger] nkv[b]) by {
                    if a < k && b == k {
                        assert(seqs_less(kv[a], kx));
                    } else if a == k && b > k {
                        assert(nkv[b] == kv[b - 1]);
                        lemma_seqs_total(kv[k as int], kx);
                        if b - 1 > k {
                            assert(seqs_less(kv[k as int], kv[b - 1]));
                            if seqs_less(kv[k as int], kx) {
                            } else {
                                lemma_seqs_transitive(kx, kv[k as int], kv[b - 1]);
                            }
                        }
                    } else if a < k && b > k {
                        assert(nkv[a] == kv[a]);
                        assert(nkv[b] == kv[b - 1]);
                    } else if a > k {
                        assert(nkv[a] == kv[a - 1]);
                        assert(nkv[b] == kv[b - 1]);
                    } else {
                        assert(nkv[a] == kv[a]);
                        assert(nkv[b] == kv[b]);
                    }
                }
                assert forall|g: int| 0 <= g < vals@.len() implies strs((#[trigger] vals@[g])@) == values_of(post, nkv[g]) by {
                    if g < k {
                        assert(vals@[g] == old_vals[g]);
                        assert(nkv[g] == kv[g]);
                        lemma_seqs_irreflexive(kx);
                        assert(kv[g] != kx);
                    } else if g > k {
                        assert(vals@[g] == old_vals[g - 1]);
                        assert(nkv[g] == kv[g - 1]);
                        assert(kv[g - 1] != kx);
                    }
                }
                assert forall|k2: Seq<Seq<char>>| nkv.contains(k2) <==> has_key(post, k2) by {
                    if nkv.contains(k2) {
                        let j = choose|j: int| 0 <= j < nkv.len() && nkv[j] == k2;
                        if j < k {
                            assert(kv.contains(k2)) by { assert(kv[j] == k2); }
                        } else if j > k {
                            assert(kv.contains(k2)) by { assert(kv[j - 1] == k2); }
                        }
                    }
                    if kv.contains(k2) {
                        let j = choose|j: int| 0 <= j < kv.len() && kv[j] == k2;
                        if j < k {
                            assert(nkv[j] == k2);
                        } else {
                            assert(nkv[j + 1] == k2);
                        }
                    }
                    if k2 == kx {
                        assert(nkv[k as int] == kx);
                    }
                }
            }
        }
        i = i + 1;
    }
    assert(items@.take(items@.len() as int) =~= items@);
    (keys, vals)
}

/// Where item `x` goes among the items ordered as `order`: after every item
/// whose key does not sort after its own.
pub open spec fn stable_point(order: Seq<int>, keys: Seq<Seq<Seq<char>>>, x: int) -> nat
    decreases order.len(),
{
    if order.len() == 0 || seqs_less(keys[x], keys[order[0]]) {
        0
    } else {
        1 + stable_point(order.drop_first(), keys, x)
    }
}

/// The order of the first `n` items by key, items with equal keys keeping
/// their order (a stable sort, one item inserted at a time).
pub open spec fn stable_order(keys: Seq<Seq<Seq<char>>>, n: nat) -> Seq<int>
    decreases n,
{
    if n == 0 {
        seq![]
    } else {
        let o = stable_order(keys, (n - 1) as nat);
        o.insert(stable_point(o, keys, n - 1) as int, n - 1)
    }
}

/// Where an item goes is within the order.
pub proof fn lemma_stable_point_bound(order: Seq<int>, keys: Seq<Seq<Seq<char>>>, x: int)
    ensures
        stable_point(order, keys, x) <= order.len(),
    decreases order.len(),
{
    if order.len() > 0 && !seqs_less(keys[x], keys[order[0]]) {
        lemma_stable_point_bound(order.drop_first(), keys, x);
    }
}

/// The stable order of `n` items lists `n` positions, each below `n`.
pub proof fn lemma_stable_order_in_range(keys: Seq<Seq<Seq<char>>>, n: nat)
    ensures
        stable_order(keys, n).len() == n,
        forall|j: int| 0 <= j < n ==> 0 <= #[trigger] stable_order(keys, n)[j] < n,
    decreases n,
{
    if n > 0 {
        let o = stable_order(keys, (n - 1) as nat);
        lemma_stable_order_in_range(keys, (n - 1) as nat);
        lemma_stable_point_bound(o, keys, n - 1);
        let p = stable_point(o, keys, n - 1) as int;
        assert forall|j: int| 0 <= j < n implies 0 <= #[trigger] stable_order(keys, n)[j] < n by {
            if j < p {
                assert(stable_order(keys, n)[j] == o[j]);
            } else if j > p {
                assert(stable_order(keys, n)[j] == o[j - 1]);
            }
        }
    }
}

/// The positions of `keys` in stably sorted order (see [`stable_order`]); the
/// keys along it never decrease.
pub fn stable_sort_indices(keys: &Vec<Vec<String>>) -> (r: Vec<usize>)
    ensures
        r@.len() == keys@.len(),
        r@.map_values(|i: usize| i as int) == stable_order(key_view(keys@), keys@.len() as nat),
        forall|j: int| 0 <= j < r@.len() ==> (#[trigger] r@[j]) < keys@.len(),
        forall|a: int, b: int| 0 <= a < b < r@.len() ==> !seqs_less(
            #[trigger] key_view(keys@)[r@[b] as int], #[trigger] key_view(keys@)[r@[a] as int]),
{
    let ghost kv = key_view(keys@);
    let mut out: Vec<usize> = Vec::new();
    let mut n: usize = 0;
    assert(out@.map_values(|i: usize| i as int) =~= seq![]);
    while n < keys.len()
        invariant
            n <= keys@.len(),
            kv == key_view(keys@),
            out@.len() == n,
            out@.map_values(|i: usize| i as int) == stable_order(kv, n as nat),
            forall|j: int| 0 <= j < out@.len() ==> (#[trigger] out@[j]) < n,
            forall|a: int, b: int| 0 <= a < b < out@.len() ==> !seqs_less(#[trigger] kv[out@[b] as int], #[trigger] kv[out@[a] as int]),
        decreases keys@.len() - n,
    {
        let ghost o = out@.map_values(|i: usize| i as int);
        let mut k: usize = 0;
        assert(o.skip(0) =~= o);
        while k < out.len() && !list_less(&keys[n], &keys[out[k]])
            invariant
                k <= out@.len(),
                n < keys@.len(),
                kv == key_view(keys@),
                o == out@.map_values(|i: usize| i as int),
                forall|j: int| 0 <= j < out@.len() ==> (#[trigger] out@[j]) < n,
                forall|j: int| 0 <= j < k ==> !seqs_less(kv[n as int], #[trigger] kv[out@[j] as int]),
                stable_point(o, kv, n as int) == k + stable_point(o.skip(k as int), kv, n as int),
            decreases out@.len() - k,
        {
            assert(kv[n as int] == strs(keys@[n as int]@));
            assert(kv[out@[k as int] as int] == strs(keys@[out@[k as int] as int]@));
            assert(o.skip(k as int)[0] == out@[k as int] as int);
            assert(o.skip(k as int).drop_first() =~= o.skip(k + 1));
            k = k + 1;
        }
        proof {
            if k < out@.len() {
                assert(kv[n as int] == strs(keys@[n as int]@));
                assert(kv[out@[k as int] as int] == strs(keys@[out@[k as int] as int]@));
                assert(o.skip(k as int)[0] == out@[k as int] as int);
            }
            assert(stable_point(o, kv, n as int) == k);
        }
        let ghost prev = out@;
        out.insert(k, n);
        proof {
            assert(out@.map_values(|i: usize| i as int) =~= o.insert(k as int, n as int));
            let x = kv[n as int];
            assert forall|a: int, b: int| 0 <= a < b < out@.len() implies !seqs_less(#[trigger] kv[out@[b] as int], #[trigger] kv[out@[a] as int]) by {
                if a < k && b == k {
                    // prev[a] does not sort after x.
                    assert(out@[a] == prev[a]);
                    assert(!seqs_less(x, kv[prev[a] as int]));
                } else if a == k && b > k {
                    assert(out@[b] == prev[b - 1]);
                    if b - 1 >= k && k < prev.len() {
                        assert(seqs_less(x, kv[prev[k as int] as int]));
                        if b - 1 > k {
                            assert(!seqs_less(kv[prev[b - 1] as int], kv[prev[k as int] as int]));
                            if seqs_less(kv[prev[b - 1] as int], x) {
                                lemma_seqs_transitive(kv[prev[b - 1] as int], x, kv[prev[k as int] as int]);
                            }
                        } else {
                            if seqs_less(kv[prev[k as int] as int], x) {
                                lemma_seqs_transitive(x, kv[prev[k as int] as int], x);
                                lemma_seqs_irreflexive(x);
                            }
                        }
                    }
                } else if a < k && b > k {
                    assert(out@[a] == prev[a]);
                    assert(out@[b] == prev[b - 1]);
                } else if a > k {
                    assert(out@[a] == prev[a - 1]);
                    assert(out@[b] == prev[b - 1]);
                } else {
                    assert(out@[a] == prev[a]);
                    assert(out@[b] == prev[b]);
                }
            }
        }
        n = n + 1;
    }
    out
}

} // verus!
