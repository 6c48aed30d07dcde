//! The fingerprint under which an audit's findings are cached: a SHA-256
//! digest of everything the findings depend on.
use vstd::prelude::*;

use crate::dev::digest::{hex_of, hex_string, sha256_digest, sha256_of};
use crate::order::{key_view, stable_order, stable_sort_indices};
use crate::text::{decimal, decimal_string, join_spec, join_strings, strs};

verus! {

/// The UTF-8 bytes of `s`.
pub open spec fn utf8(s: Seq<char>) -> Seq<u8> {
    vstd::utf8::encode_utf8(s)
}

/// What one root file adds: its name, a byte telling whether it is a file,
/// and its contents when they could be read.
pub open spec fn root_part(e: (String, bool, Option<Vec<u8>>)) -> Seq<u8> {
    utf8(e.0@) + seq![if e.1 { 1u8 } else { 0u8 }] + match e.2 {
        Some(c) => c@,
        None => seq![],
    }
}

/// What the first `n` root files add, in order.
pub open spec fn root_bytes(es: Seq<(String, bool, Option<Vec<u8>>)>, n: int) -> Seq<u8>
    decreases n,
{
    if n <= 0 {
        seq![]
    } else {
        root_bytes(es, n - 1) + root_part(es[n - 1])
    }
}

/// What one scanned file adds: its path relative to the root (its components
/// joined with `/`), its size and its modification time in milliseconds, each
/// as decimal text.
pub open spec fn walked_part(w: (Vec<String>, u64, u64)) -> Seq<u8> {
    utf8(join_spec(strs(w.0@), "/"@)) + utf8(decimal(w.1 as nat)) + utf8(decimal(w.2 as nat))
}

/// What the scanned files add, taken in the order `order` for the first `n`.
pub open spec fn walked_bytes(ws: Seq<(Vec<String>, u64, u64)>, order: Seq<int>, n: int) -> Seq<u8>
    decreases n,
{
    if n <= 0 {
        seq![]
    } else {
        walked_bytes(ws, order, n - 1) + walked_part(ws[order[n - 1]])
    }
}

/// The paths (as components) of the scanned files.
pub open spec fn walked_paths(ws: Seq<(Vec<String>, u64, u64)>) -> Seq<Vec<String>> {
    ws.map_values(|w: (Vec<String>, u64, u64)| w.0)
}

/// The scanned files in path order: sorted by their components, files with
/// equal paths keeping their order.
pub open spec fn path_order(ws: Seq<(Vec<String>, u64, u64)>) -> Seq<int> {
    stable_order(key_view(walked_paths(ws)), ws.len())
}

/// The bytes that are hashed: the engine version, the configuration's JSON
/// text, each root file, then each scanned file in path order.
pub open spec fn fingerprint_bytes(
    engine_version: Seq<char>,
    config_text: Seq<char>,
    roots: Seq<(String, bool, Option<Vec<u8>>)>,
    walked: Seq<(Vec<String>, u64, u64)>,
) -> Seq<u8> {
    utf8(engine_version) + utf8(config_text) + root_bytes(roots, roots.len() as int)
        + walked_bytes(walked, path_order(walked), walked.len() as int)
}

/// Appends `bytes` to `out`.
fn append_bytes(out: &mut Vec<u8>, bytes: &[u8])
    ensures
        final(out)@ == old(out)@ + bytes@,
{
    let mut i: usize = 0;
    while i < bytes.len()
        invariant
            i <= bytes@.len(),
            out@ == old(out)@ + bytes@.take(i as int),
        decreases bytes@.len() - i,
    {
        out.push(bytes[i]);
        assert(bytes@.take(i + 1) =~= bytes@.take(i as int).push(bytes@[i as int]));
        assert(out@ =~= old(out)@ + bytes@.take(i + 1));
        i = i + 1;
    }
    assert(bytes@.take(bytes@.len() as int) =~= bytes@);
}

/// The cache fingerprint of a repository: the lowercase hex SHA-256 digest of
/// [`fingerprint_bytes`]. `root_files` holds each root file's name, whether it
/// is a file and its contents when readable; `walked` each scanned file's path
/// components, size and modification time in milliseconds.
pub fn repo_fingerprint(
    engine_version: &str,
    config_text: &str,
    root_files: &Vec<(String, bool, Option<Vec<u8>>)>,
    walked: &Vec<(Vec<String>, u64, u64)>,
) -> (r: String)
    ensures
        r@ == hex_of(sha256_of(fingerprint_bytes(engine_version@, config_text@, root_files@, walked@))),
{
    let mut bytes: Vec<u8> = Vec::new();
    append_bytes(&mut bytes, engine_version.as_bytes());
    append_bytes(&mut bytes, config_text.as_bytes());
    let ghost head = bytes@;
    let mut i: usize = 0;
    while i < root_files.len()
        invariant
            i <= root_files@.len(),
            bytes@ == head + root_bytes(root_files@, i as int),
        decreases root_files@.len() - i,
    {
        let e = &root_files[i];
        let ghost before = bytes@;
        append_bytes(&mut bytes, e.0.as_str().as_bytes());
        let flag: u8 = if e.1 { 1 } else { 0 };
        bytes.push(flag);
        match &e.2 {
            Some(c) => append_bytes(&mut bytes, c.as_slice()),
            None => {},
        }
        assert(bytes@ =~= before + root_part(root_files@[i as int]));
        assert(bytes@ =~= head + root_bytes(root_files@, i + 1));
        i = i + 1;
    }
    let ghost mid = bytes@;
    let mut paths: Vec<Vec<String>> = Vec::new();
    let mut j: usize = 0;
    while j < walked.len()
        invariant
            j <= walked@.len(),
            paths@.len() == j,
            key_view(paths@) == key_view(walked_paths(walked@)).take(j as int),
        decreases walked@.len() - j,
    {
        let ghost before = paths@;
        paths.push(crate::order::copy_strings(&walked[j as usize].0));
        assert(key_view(paths@) =~= key_view(walked_paths(walked@)).take(j + 1));
        j = j + 1;
    }
    assert(key_view(paths@) =~= key_view(walked_paths(walked@)));
    let order = stable_sort_indices(&paths);
    let ghost ord = order@.map_values(|x: usize| x as int);
    assert(ord == path_order(walked@));
    let mut k: usize = 0;
    while k < order.len()
        invariant
            k <= order@.len(),
            order@.len() == walked@.len(),
            ord == order@.map_values(|x: usize| x as int),
            forall|q: int| 0 <= q < order@.len() ==> (#[trigger] order@[q]) < walked@.len(),
            bytes@ == mid + walked_bytes(walked@, ord, k as int),
        decreases order@.len() - k,
    {
        let w = &walked[order[k]];
        let ghost before = bytes@;
        let rel = join_strings(&w.0, "/");
        append_bytes(&mut bytes, rel.as_str().as_bytes());
        let size = decimal_string(w.1);
        append_bytes(&mut bytes, size.as_str().as_bytes());
        let modified = decimal_string(w.2);
        append_bytes(&mut bytes, modified.as_str().as_bytes());
        assert(ord[k as int] == order@[k as int] as int);
        assert(bytes@ =~= before + walked_part(walked@[ord[k as int]]));
        assert(bytes@ =~= mid + walked_bytes(walked@, ord, k + 1));
        k = k + 1;
    }
    let digest = sha256_digest(bytes.as_slice());
    assert(bytes@ =~= fingerprint_bytes(engine_version@, config_text@, root_files@, walked@));
    hex_string(&digest)
}

} // verus!
