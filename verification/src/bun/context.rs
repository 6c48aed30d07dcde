//! The installed `bun-dev` skill the auditor reads its rules from.
use vstd::prelude::*;

use crate::paths::{join, path_join};
use crate::text::owned;

verus! {

/// A resolved skill root and its rules and references directories.
#[derive(Clone, Debug)]
pub struct SkillContext {
    pub skill_root: String,
    pub rules_dir: String,
    pub references_dir: String,
}

impl SkillContext {
    /// The context of a skill rooted at `skill_root`: its rules live in
    /// `rules/` and its references in `references/`.
    pub fn at(skill_root: &str) -> (r: SkillContext)
        ensures
            r.skill_root@ == skill_root@,
            r.rules_dir@ == path_join(skill_root@, "rules"@),
            r.references_dir@ == path_join(skill_root@, "references"@),
    {
        SkillContext {
            skill_root: owned(skill_root),
            rules_dir: join(skill_root, "rules"),
            references_dir: join(skill_root, "references"),
        }
    }

    /// A path inside the skill.
    pub fn skill_path(&self, relative: &str) -> (r: String)
        ensures
            r@ == path_join(self.skill_root@, relative@),
    {
        join(self.skill_root.as_str(), relative)
    }
}

} // verus!

verus! {

/// Whether `s` ends in `.md`.
pub open spec fn ends_md(s: Seq<char>) -> bool {
    s.len() >= 3 && s[s.len() - 3] == '.' && s[s.len() - 2] == 'm' && s[s.len() - 1] == 'd'
}

/// `s` with every trailing `.md` removed.
pub open spec fn trim_md(s: Seq<char>) -> Seq<char>
    decreases s.len(),
{
    if ends_md(s) {
        trim_md(s.subrange(0, s.len() - 3))
    } else {
        s
    }
}

/// The rule ids among the file names `names`, in order: each `.md` file but
/// the index `_index.md`, without its `.md` ending.
pub open spec fn rule_names(names: Seq<Seq<char>>) -> Seq<Seq<char>>
    decreases names.len(),
{
    if names.len() == 0 {
        seq![]
    } else {
        let prev = rule_names(names.drop_last());
        let n = names.last();
        if ends_md(n) && n != "_index.md"@ {
            prev.push(trim_md(n))
        } else {
            prev
        }
    }
}

/// `s` with every trailing `.md` removed.
fn trim_md_exec(s: &str) -> (r: String)
    ensures
        r@ == trim_md(s@),
{
    let cs = crate::text::chars_of(s);
    let mut n: usize = cs.len();
    assert(cs@.subrange(0, n as int) =~= cs@);
    while n >= 3 && cs[n - 3] == '.' && cs[n - 2] == 'm' && cs[n - 1] == 'd'
        invariant
            n <= cs@.len(),
            trim_md(cs@.subrange(0, n as int)) == trim_md(s@),
            cs@ == s@,
        decreases n,
    {
        assert(cs@.subrange(0, n as int).subrange(0, n - 3) =~= cs@.subrange(0, n - 3));
        n = n - 3;
    }
    let r = crate::text::string_of(&cs.as_slice()[0..n]);
    assert(r@ =~= cs@.subrange(0, n as int));
    r
}

/// The rule ids named by the rule directory's file names `names`, sorted
/// (see [`rule_names`]).
pub fn rule_ids_from_names(names: &Vec<String>) -> (r: Vec<String>)
    ensures
        crate::text::strs(r@) == crate::order::str_sorted(rule_names(crate::text::strs(names@))),
{
    let ghost nv = crate::text::strs(names@);
    let mut ids: Vec<String> = Vec::new();
    let mut i: usize = 0;
    while i < names.len()
        invariant
            i <= names@.len(),
            nv == crate::text::strs(names@),
            crate::text::strs(ids@) == rule_names(nv.take(i as int)),
        decreases names@.len() - i,
    {
        assert(nv.take(i + 1).drop_last() =~= nv.take(i as int));
        let n = names[i].as_str();
        let cs = crate::text::chars_of(n);
        let k = cs.len();
        if k >= 3 && cs[k - 3] == '.' && cs[k - 2] == 'm' && cs[k - 1] == 'd' && !crate::audit_gate::str_eq(n, "_index.md") {
            ids.push(trim_md_exec(n));
            assert(crate::text::strs(ids@) =~= rule_names(nv.take(i as int)).push(trim_md(n@)));
        }
        i = i + 1;
    }
    assert(nv.take(names@.len() as int) =~= nv);
    crate::order::sort_strings(&ids)
}

} // verus!
