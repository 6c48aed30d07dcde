//! The auditor's configuration: what the config file and the command line
//! each contribute, and how they combine.
use vstd::prelude::*;

use crate::bun::types::Severity;
use crate::paths::{join, path_join};
use crate::text::{owned, strs};

verus! {

/// Settings given on the command line.
#[derive(Clone, Debug, Default)]
pub struct CliOverrides {
    pub baseline_path: Option<String>,
    pub include_paths: Vec<String>,
    pub exclude_dirs: Vec<String>,
    pub adapters: Vec<String>,
    pub max_files: Option<usize>,
    pub max_bytes: Option<u64>,
    pub write_cache: bool,
}

/// Settings read from `bun-platform.config.json`; every key is optional.
#[derive(Clone, Debug, Default)]
pub struct FileConfig {
    pub disabled_rules: Option<Vec<String>>,
    pub severity_overrides: Option<Vec<(String, Severity)>>,
    pub exclude_dirs: Option<Vec<String>>,
    pub adapters: Option<Vec<String>>,
    pub include_paths: Option<Vec<String>>,
    pub max_files: Option<usize>,
    pub max_bytes: Option<u64>,
    pub validation_commands: Option<Vec<String>>,
    pub write_cache: Option<bool>,
}

/// The configuration an audit runs with.
#[derive(Clone, Debug)]
pub struct AuditConfig {
    pub disabled_rules: Vec<String>,
    pub severity_overrides: Vec<(String, Severity)>,
    pub exclude_dirs: Vec<String>,
    pub baseline_keys: Vec<String>,
    pub adapters: Vec<String>,
    pub include_paths: Vec<String>,
    pub max_files: usize,
    pub max_bytes: u64,
    pub validation_commands: Vec<String>,
    pub write_cache: bool,
}

/// `acc` followed by each value of `vals` not already present, in order.
pub open spec fn append_new(acc: Seq<Seq<char>>, vals: Seq<Seq<char>>) -> Seq<Seq<char>>
    decreases vals.len(),
{
    if vals.len() == 0 {
        acc
    } else {
        let a = append_new(acc, vals.drop_last());
        if a.contains(vals.last()) {
            a
        } else {
            a.push(vals.last())
        }
    }
}

/// The directories skipped by every scan.
pub open spec fn default_exclude_dirs_spec() -> Seq<Seq<char>> {
    seq![
        "node_modules"@,
        ".git"@,
        ".next"@,
        ".turbo"@,
        "dist"@,
        "build"@,
        "coverage"@,
        "out"@,
        "opensrc"@,
        "target"@,
    ]
}

/// The directories skipped by every scan.
pub fn default_exclude_dirs() -> (r: Vec<String>)
    ensures
        strs(r@) == default_exclude_dirs_spec(),
{
    let r = vec![
        owned("node_modules"),
        owned(".git"),
        owned(".next"),
        owned(".turbo"),
        owned("dist"),
        owned("build"),
        owned("coverage"),
        owned("out"),
        owned("opensrc"),
        owned("target"),
    ];
    assert(strs(r@) =~= default_exclude_dirs_spec());
    r
}

/// The text of the strings in an optional list, or nothing.
pub open spec fn opt_strs(v: Option<Vec<String>>) -> Seq<Seq<char>> {
    match v {
        Some(v) => strs(v@),
        None => seq![],
    }
}

/// The exclusion list: the defaults, then new directories from the file, then
/// new ones from the command line.
pub open spec fn merged_exclude_dirs(file: Option<FileConfig>, cli: CliOverrides) -> Seq<Seq<char>> {
    append_new(
        append_new(
            default_exclude_dirs_spec(),
            match file {
                Some(f) => opt_strs(f.exclude_dirs),
                None => seq![],
            },
        ),
        strs(cli.exclude_dirs@),
    )
}

/// Each include path of the file, under `root`.
pub open spec fn file_include_paths(root: Seq<char>, file: Option<FileConfig>) -> Seq<Seq<char>> {
    match file {
        Some(f) => opt_strs(f.include_paths).map_values(|p: Seq<char>| path_join(root, p)),
        None => seq![],
    }
}

/// The include list: each path from the file under `root`, then each command
/// line path resolved against `root` when it is not already present.
pub open spec fn merged_include_paths(root: Seq<char>, file: Option<FileConfig>, cli: CliOverrides) -> Seq<Seq<char>> {
    append_new(
        file_include_paths(root, file),
        strs(cli.include_paths@).map_values(|p: Seq<char>| path_join(root, p)),
    )
}

/// The adapters: the command line's when it names any, else the file's, else `auto`.
pub open spec fn merged_adapters(file: Option<FileConfig>, cli: CliOverrides) -> Seq<Seq<char>> {
    if cli.adapters@.len() > 0 {
        strs(cli.adapters@)
    } else if file is Some && file->0.adapters is Some {
        strs(file->0.adapters->0@)
    } else {
        seq!["auto"@]
    }
}

/// Whether `v` holds a string with the characters `x`.
fn contains_str(v: &Vec<String>, x: &String) -> (r: bool)
    ensures
        r == strs(v@).contains(x@),
{
    let mut i: usize = 0;
    while i < v.len()
        invariant
            i <= v@.len(),
            forall|j: int| 0 <= j < i ==> v@[j]@ != x@,
        decreases v@.len() - i,
    {
        if v[i] == *x {
            assert(strs(v@)[i as int] == x@);
            return true;
        }
        i = i + 1;
    }
    assert forall|j: int| 0 <= j < strs(v@).len() implies strs(v@)[j] != x@ by {
        assert(strs(v@)[j] == v@[j]@);
    }
    false
}

/// Appends each value of `vals` not already in `acc`.
fn push_new(acc: &mut Vec<String>, vals: &Vec<String>)
    ensures
        strs(final(acc)@) == append_new(strs(old(acc)@), strs(vals@)),
{
    let ghost start = strs(acc@);
    let mut i: usize = 0;
    while i < vals.len()
        invariant
            i <= vals@.len(),
            strs(acc@) == append_new(start, strs(vals@).take(i as int)),
        decreases vals@.len() - i,
    {
        let v = vals[i].clone();
        assert(strs(vals@).take(i + 1).drop_last() =~= strs(vals@).take(i as int));
        if !contains_str(acc, &v) {
            acc.push(v);
            assert(strs(acc@) =~= append_new(start, strs(vals@).take(i as int)).push(v@));
        }
        i = i + 1;
    }
    assert(strs(vals@).take(vals@.len() as int) =~= strs(vals@));
}

/// Appends each value of `vals`, resolved against `root`, that is not already in `acc`.
fn push_new_joined(acc: &mut Vec<String>, root: &str, vals: &Vec<String>)
    ensures
        strs(final(acc)@) == append_new(
            strs(old(acc)@),
            strs(vals@).map_values(|p: Seq<char>| path_join(root@, p)),
        ),
{
    let ghost start = strs(acc@);
    let ghost joined = strs(vals@).map_values(|p: Seq<char>| path_join(root@, p));
    let mut i: usize = 0;
    while i < vals.len()
        invariant
            i <= vals@.len(),
            joined == strs(vals@).map_values(|p: Seq<char>| path_join(root@, p)),
            strs(acc@) == append_new(start, joined.take(i as int)),
        decreases vals@.len() - i,
    {
        let v = join(root, vals[i].as_str());
        assert(joined.take(i + 1).drop_last() =~= joined.take(i as int));
        assert(joined[i as int] == v@);
        if !contains_str(acc, &v) {
            acc.push(v);
            assert(strs(acc@) =~= append_new(start, joined.take(i as int)).push(v@));
        }
        i = i + 1;
    }
    assert(joined.take(vals@.len() as int) =~= joined);
}

/// Clones a list of strings.
pub fn clone_strings(v: &Vec<String>) -> (r: Vec<String>)
    ensures
        strs(r@) == strs(v@),
{
    let mut out: Vec<String> = Vec::new();
    let mut i: usize = 0;
    while i < v.len()
        invariant
            i <= v@.len(),
            out@.len() == i,
            forall|j: int| 0 <= j < i ==> #[trigger] out@[j]@ == v@[j]@,
        decreases v@.len() - i,
    {
        let c = v[i].clone();
        out.push(c);
        i = i + 1;
    }
    assert(strs(out@) =~= strs(v@));
    out
}

/// Combine the config file (when there is one), the command line and the
/// baseline keys into the configuration an audit of `root` runs with.
///
/// The command line wins for adapters, limits and caching; exclusions are
/// the defaults extended by both; limits default to no limit.
pub fn merge_audit_config(
    root: &str,
    file: &Option<FileConfig>,
    cli: &CliOverrides,
    baseline_keys: Vec<String>,
) -> (r: AuditConfig)
    ensures
        strs(r.exclude_dirs@) == merged_exclude_dirs(*file, *cli),
        strs(r.include_paths@) == merged_include_paths(root@, *file, *cli),
        strs(r.adapters@) == merged_adapters(*file, *cli),
        strs(r.disabled_rules@) == (match *file {
            Some(f) => opt_strs(f.disabled_rules),
            None => seq![],
        }),
        strs(r.validation_commands@) == (match *file {
            Some(f) => opt_strs(f.validation_commands),
            None => seq![],
        }),
        r.baseline_keys@ == baseline_keys@,
        r.max_files == (match cli.max_files {
            Some(n) => n,
            None => match *file {
                Some(f) => match f.max_files {
                    Some(n) => n,
                    None => usize::MAX,
                },
                None => usize::MAX,
            },
        }),
        r.max_bytes == (match cli.max_bytes {
            Some(n) => n,
            None => match *file {
                Some(f) => match f.max_bytes {
                    Some(n) => n,
                    None => u64::MAX,
                },
                None => u64::MAX,
            },
        }),
        r.write_cache == (cli.write_cache || (match *file {
            Some(f) => f.write_cache == Some(true),
            None => false,
        })),
        r.severity_overrides@.len() == (match *file {
            Some(f) => match f.severity_overrides {
                Some(v) => v@.len(),
                None => 0,
            },
            None => 0,
        }),
        forall|i: int|
            0 <= i < r.severity_overrides@.len() ==> (match *file {
                Some(f) => match f.severity_overrides {
                    Some(v) => #[trigger] r.severity_overrides@[i].0@ == v@[i].0@
                        && r.severity_overrides@[i].1 == v@[i].1,
                    None => false,
                },
                None => false,
            }),
{
    let mut exclude_dirs = default_exclude_dirs();
    let empty: Vec<String> = Vec::new();
    match file {
        Some(f) => match &f.exclude_dirs {
            Some(extra) => push_new(&mut exclude_dirs, extra),
            None => push_new(&mut exclude_dirs, &empty),
        },
        None => push_new(&mut exclude_dirs, &empty),
    }
    assert(strs(empty@) =~= seq![]);
    push_new(&mut exclude_dirs, &cli.exclude_dirs);

    let mut include_paths: Vec<String> = Vec::new();
    let ghost from_file = file_include_paths(root@, *file);
    match file {
        Some(f) => match &f.include_paths {
            Some(paths) => {
                let mut i: usize = 0;
                while i < paths.len()
                    invariant
                        i <= paths@.len(),
                        include_paths@.len() == i,
                        forall|j: int|
                            0 <= j < i ==> #[trigger] include_paths@[j]@ == path_join(
                                root@,
                                paths@[j]@,
                            ),
                    decreases paths@.len() - i,
                {
                    let joined = join(root, paths[i].as_str());
                    include_paths.push(joined);
                    i = i + 1;
                }
                assert(strs(include_paths@) =~= strs(paths@).map_values(
                    |p: Seq<char>| path_join(root@, p),
                ));
            },
            None => {
                assert(strs(include_paths@) =~= from_file);
            },
        },
        None => {
            assert(strs(include_paths@) =~= from_file);
        },
    }
    push_new_joined(&mut include_paths, root, &cli.include_paths);

    let adapters = if cli.adapters.len() > 0 {
        clone_strings(&cli.adapters)
    } else {
        match file {
            Some(f) => match &f.adapters {
                Some(a) => clone_strings(a),
                None => {
                    let v = vec![owned("auto")];
                    assert(strs(v@) =~= seq!["auto"@]);
                    v
                },
            },
            None => {
                let v = vec![owned("auto")];
                assert(strs(v@) =~= seq!["auto"@]);
                v
            },
        }
    };

    let (disabled_rules, validation_commands, file_max_files, file_max_bytes, file_write_cache) =
        match file {
        Some(f) => (
            match &f.disabled_rules {
                Some(v) => clone_strings(v),
                None => Vec::new(),
            },
            match &f.validation_commands {
                Some(v) => clone_strings(v),
                None => Vec::new(),
            },
            f.max_files,
            f.max_bytes,
            f.write_cache,
        ),
        None => (Vec::new(), Vec::new(), None, None, None),
    };
    assert(strs(Seq::<String>::empty()) =~= seq![]);

    let mut severity_overrides: Vec<(String, Severity)> = Vec::new();
    match file {
        Some(f) => match &f.severity_overrides {
            Some(v) => {
                let mut i: usize = 0;
                while i < v.len()
                    invariant
                        i <= v@.len(),
                        severity_overrides@.len() == i,
                        forall|j: int|
                            0 <= j < i ==> #[trigger] severity_overrides@[j].0@ == v@[j].0@
                                && severity_overrides@[j].1 == v@[j].1,
                    decreases v@.len() - i,
                {
                    let name = v[i].0.clone();
                    let level = v[i].1;
                    severity_overrides.push((name, level));
                    i = i + 1;
                }
            },
            None => {},
        },
        None => {},
    }

    AuditConfig {
        disabled_rules,
        severity_overrides,
        exclude_dirs,
        baseline_keys,
        adapters,
        include_paths,
        max_files: match cli.max_files {
            Some(n) => n,
            None => match file_max_files {
                Some(n) => n,
                None => usize::MAX,
            },
        },
        max_bytes: match cli.max_bytes {
            Some(n) => n,
            None => match file_max_bytes {
                Some(n) => n,
                None => u64::MAX,
            },
        },
        validation_commands,
        write_cache: cli.write_cache || match file_write_cache {
            Some(b) => b,
            None => false,
        },
    }
}

} // verus!

verus! {

/// Where a baseline's suppression keys come from.
#[derive(Debug)]
pub enum BaselineSource {
    /// The keys themselves.
    Keys(Vec<String>),
    /// A baseline file to read, by the path the config file gives.
    File(String),
    /// The value has none of the accepted shapes.
    Invalid,
}

/// The string items of a JSON array, in order; other items are skipped.
pub open spec fn string_items(items: Seq<crate::json::Json>) -> Seq<Seq<char>>
    decreases items.len(),
{
    if items.len() == 0 {
        seq![]
    } else {
        let prev = string_items(items.drop_last());
        match items.last() {
            crate::json::Json::Str(s) => prev.push(s@),
            _ => prev,
        }
    }
}

/// What a baseline value names: an array gives its string items; an object
/// gives the string items of its `suppressionKeys` array and is invalid
/// without one; a string, accepted only inside the config file
/// (`in_config`), names a baseline file; anything else is invalid.
pub open spec fn baseline_view(v: crate::json::Json, in_config: bool) -> Option<Result<Seq<Seq<char>>, Seq<char>>> {
    match v {
        crate::json::Json::Array(items) => Some(Ok(string_items(items@))),
        crate::json::Json::Object(es) => match crate::json::member(es@, "suppressionKeys"@) {
            Some(crate::json::Json::Array(items)) => Some(Ok(string_items(items@))),
            _ => None,
        },
        crate::json::Json::Str(s) => if in_config {
            Some(Err(s@))
        } else {
            None
        },
        _ => None,
    }
}

/// The string items of `items`, in order.
fn collect_strings(items: &Vec<crate::json::Json>) -> (r: Vec<String>)
    ensures
        strs(r@) == string_items(items@),
{
    let mut out: Vec<String> = Vec::new();
    let mut i: usize = 0;
    while i < items.len()
        invariant
            i <= items@.len(),
            strs(out@) == string_items(items@.take(i as int)),
        decreases items@.len() - i,
    {
        assert(items@.take(i + 1).drop_last() =~= items@.take(i as int));
        match &items[i] {
            crate::json::Json::Str(s) => {
                out.push(owned(s.as_str()));
                assert(strs(out@) =~= string_items(items@.take(i as int)).push(s@));
            },
            _ => {},
        }
        i = i + 1;
    }
    assert(items@.take(items@.len() as int) =~= items@);
    out
}

/// Where the suppression keys of the baseline value `v` come from (see
/// [`baseline_view`]); `in_config` tells whether `v` is the config file's
/// `baseline` member rather than the contents of a baseline file.
pub fn baseline_source(v: &crate::json::Json, in_config: bool) -> (r: BaselineSource)
    ensures
        match r {
            BaselineSource::Keys(ks) => baseline_view(*v, in_config) == Some(Ok::<Seq<Seq<char>>, Seq<char>>(strs(ks@))),
            BaselineSource::File(p) => baseline_view(*v, in_config) == Some(Err::<Seq<Seq<char>>, Seq<char>>(p@)),
            BaselineSource::Invalid => baseline_view(*v, in_config) is None,
        },
{
    match v {
        crate::json::Json::Array(items) => BaselineSource::Keys(collect_strings(items)),
        crate::json::Json::Object(es) => match crate::json::member_of(es, "suppressionKeys") {
            Some(crate::json::Json::Array(items)) => BaselineSource::Keys(collect_strings(items)),
            _ => BaselineSource::Invalid,
        },
        crate::json::Json::Str(s) => if in_config {
            BaselineSource::File(owned(s.as_str()))
        } else {
            BaselineSource::Invalid
        },
        _ => BaselineSource::Invalid,
    }
}

} // verus!
