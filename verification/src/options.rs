//! How a run goes: whether the caches are read and written, and whether
//! tools are upgraded.
use vstd::prelude::*;

verus! {

/// The options of a run. (The lock file that a run writes its progress
/// to is held by the caller.)
#[derive(Debug, Clone, Copy, PartialEq, Eq, Structural)]
pub struct UpOptions {
    pub read_cache: bool,
    pub write_cache: bool,
    pub fail_on_upgrade: bool,
    pub upgrade: bool,
}

impl Default for UpOptions {
    /// Caches read and written, no upgrade.
    fn default() -> (r: Self)
        ensures
            r == (UpOptions { read_cache: true, write_cache: true, fail_on_upgrade: false, upgrade: false }),
    {
        UpOptions { read_cache: true, write_cache: true, fail_on_upgrade: false, upgrade: false }
    }
}

impl UpOptions {
    /// The default options.
    pub fn new() -> (r: Self)
        ensures
            r == (UpOptions { read_cache: true, write_cache: true, fail_on_upgrade: false, upgrade: false }),
    {
        UpOptions::default()
    }

    /// The same options, reading the cache or not.
    pub fn cache(self, read_cache: bool) -> (r: Self)
        ensures
            r == (UpOptions { read_cache, ..self }),
    {
        UpOptions { read_cache, ..self }
    }

    /// The same options, neither reading nor writing the cache.
    pub fn cache_disabled(self) -> (r: Self)
        ensures
            r == (UpOptions { read_cache: false, write_cache: false, ..self }),
    {
        UpOptions { read_cache: false, write_cache: false, ..self }
    }

    /// The same options, failing on an upgrade or not.
    pub fn fail_on_upgrade(self, fail_on_upgrade: bool) -> (r: Self)
        ensures
            r == (UpOptions { fail_on_upgrade, ..self }),
    {
        UpOptions { fail_on_upgrade, ..self }
    }

    /// The same options, upgrading or not.
    pub fn upgrade(self, upgrade: bool) -> (r: Self)
        ensures
            r == (UpOptions { upgrade, ..self }),
    {
        UpOptions { upgrade, ..self }
    }
}

} // verus!
