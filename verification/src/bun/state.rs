//! Where the auditor keeps its configuration, state and cache.
use vstd::prelude::*;

use crate::paths::{join, path_join};

verus! {

/// The directories the auditor writes to.
#[derive(Clone, Debug)]
pub struct PlatformPaths {
    pub config_dir: String,
    pub state_dir: String,
    pub cache_dir: String,
}

/// One cached audit result: the findings, serialized.
#[derive(Clone, Debug)]
pub struct AuditCacheEntry {
    pub findings: String,
}

impl PlatformPaths {
    /// The platform directories for the given base directories: each one is
    /// `<base>/dev-skills/bun-platform`.
    pub fn under(config_base: &str, state_base: &str, cache_base: &str) -> (r: PlatformPaths)
        ensures
            r.config_dir@ == path_join(path_join(config_base@, "dev-skills"@), "bun-platform"@),
            r.state_dir@ == path_join(path_join(state_base@, "dev-skills"@), "bun-platform"@),
            r.cache_dir@ == path_join(path_join(cache_base@, "dev-skills"@), "bun-platform"@),
    {
        let c = join(config_base, "dev-skills");
        let s = join(state_base, "dev-skills");
        let k = join(cache_base, "dev-skills");
        PlatformPaths {
            config_dir: join(c.as_str(), "bun-platform"),
            state_dir: join(s.as_str(), "bun-platform"),
            cache_dir: join(k.as_str(), "bun-platform"),
        }
    }

    /// Where scan results are cached.
    pub fn scan_cache_dir(&self) -> (r: String)
        ensures
            r@ == path_join(self.cache_dir@, "scan-cache"@),
    {
        join(self.cache_dir.as_str(), "scan-cache")
    }

    /// Where rollback records of applied fixes are kept.
    pub fn rollback_dir(&self) -> (r: String)
        ensures
            r@ == path_join(self.state_dir@, "rollbacks"@),
    {
        join(self.state_dir.as_str(), "rollbacks")
    }

    /// Where release-sync reports are written.
    pub fn reports_dir(&self) -> (r: String)
        ensures
            r@ == path_join(self.state_dir@, "reports"@),
    {
        join(self.state_dir.as_str(), "reports")
    }

    /// The cache file for the fingerprint `fingerprint` of the repository at
    /// `root`: `<scan cache>/<hex SHA-256 of the root path>/<fingerprint>.json`.
    pub fn cache_file_for(&self, root: &str, fingerprint: &str) -> (r: String)
        ensures
            r@ == path_join(path_join(path_join(self.cache_dir@, "scan-cache"@),
                crate::dev::digest::hex_of(crate::dev::digest::sha256_of(vstd::utf8::encode_utf8(root@)))),
                fingerprint@ + ".json"@),
    {
        let digest = crate::dev::digest::sha256_digest(root.as_bytes());
        let root_hash = crate::dev::digest::hex_string(&digest);
        let dir = join(self.scan_cache_dir().as_str(), root_hash.as_str());
        let name = crate::dev::ledger::cat(fingerprint, ".json");
        join(dir.as_str(), name.as_str())
    }
}

} // verus!
