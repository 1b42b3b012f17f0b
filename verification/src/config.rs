//! Where the orchestrator keeps its files.

use crate::paths::{cache_key, join_path, spec_cache_key, spec_join_path};
use crate::text::{append_str, from_chars};
use vstd::prelude::*;

verus! {

/// The directories of an installation and the force switch.
#[derive(Debug, Clone)]
pub struct Config {
    pub cache_dir: String,
    pub config_dir: String,
    pub state_dir: String,
    pub cache_meta_dir: String,
    pub cache_download_dir: String,
    pub cache_packages_dir: String,
    pub cache_pilocals_dir: String,
    pub force: bool,
}

/// The mathematical content of a configuration.
pub struct ConfigView {
    pub cache_dir: Seq<char>,
    pub config_dir: Seq<char>,
    pub state_dir: Seq<char>,
    pub cache_meta_dir: Seq<char>,
    pub cache_download_dir: Seq<char>,
    pub cache_packages_dir: Seq<char>,
    pub cache_pilocals_dir: Seq<char>,
    pub force: bool,
}

impl View for Config {
    type V = ConfigView;

    open spec fn view(&self) -> ConfigView {
        ConfigView {
            cache_dir: self.cache_dir@,
            config_dir: self.config_dir@,
            state_dir: self.state_dir@,
            cache_meta_dir: self.cache_meta_dir@,
            cache_download_dir: self.cache_download_dir@,
            cache_packages_dir: self.cache_packages_dir@,
            cache_pilocals_dir: self.cache_pilocals_dir@,
            force: self.force,
        }
    }
}

/// The configuration that belongs to three base directories: the four
/// caches lie below the cache directory.
pub open spec fn spec_layout(
    cache_dir: Seq<char>,
    config_dir: Seq<char>,
    state_dir: Seq<char>,
    force: bool,
) -> ConfigView {
    ConfigView {
        cache_dir,
        config_dir,
        state_dir,
        cache_meta_dir: spec_join_path(cache_dir, "meta"@),
        cache_download_dir: spec_join_path(cache_dir, "downloads"@),
        cache_packages_dir: spec_join_path(cache_dir, "packages"@),
        cache_pilocals_dir: spec_join_path(cache_dir, "pilocals"@),
        force,
    }
}

/// The name of the index file of a repository.
pub open spec fn spec_package_cache_name(repo: Seq<char>) -> Seq<char> {
    "packages-"@ + repo + ".json"@
}

/// The name of the version file of a package of a repository; `safe_name`
/// is the package name in its cache-key form.
pub open spec fn spec_version_cache_name(repo: Seq<char>, safe_name: Seq<char>) -> Seq<char> {
    "version-"@ + repo + seq!['-'] + safe_name + ".json"@
}

impl Config {
    /// The configuration for the given base directories.
    pub fn new(cache_dir: &str, config_dir: &str, state_dir: &str, force: bool) -> (r: Config)
        ensures
            r@ == spec_layout(cache_dir@, config_dir@, state_dir@, force),
    {
        Config {
            cache_dir: String::from_str(cache_dir),
            config_dir: String::from_str(config_dir),
            state_dir: String::from_str(state_dir),
            cache_meta_dir: join_path(cache_dir, "meta"),
            cache_download_dir: join_path(cache_dir, "downloads"),
            cache_packages_dir: join_path(cache_dir, "packages"),
            cache_pilocals_dir: join_path(cache_dir, "pilocals"),
            force,
        }
    }

    /// A configuration for tests: everything below `base_dir`.
    pub fn new_test(base_dir: &str) -> (r: Config)
        ensures
            r@ == spec_layout(
                spec_join_path(base_dir@, "cache"@),
                spec_join_path(base_dir@, "config"@),
                spec_join_path(base_dir@, "state"@),
                false,
            ),
    {
        let cache = join_path(base_dir, "cache");
        let config = join_path(base_dir, "config");
        let state = join_path(base_dir, "state");
        Config::new(cache.as_str(), config.as_str(), state.as_str(), false)
    }

    /// The file that lists the repositories.
    pub fn repositories_file(&self) -> (r: String)
        ensures
            r@ == spec_join_path(self@.config_dir, "repositories.json"@),
    {
        join_path(self.config_dir.as_str(), "repositories.json")
    }

    /// The index file of a repository.
    pub fn package_cache_file(&self, repo_name: &str) -> (r: String)
        ensures
            r@ == spec_join_path(self@.cache_meta_dir, spec_package_cache_name(repo_name@)),
    {
        let mut name: Vec<char> = Vec::new();
        append_str(&mut name, "packages-");
        append_str(&mut name, repo_name);
        append_str(&mut name, ".json");
        let file = from_chars(&name);
        join_path(self.cache_meta_dir.as_str(), file.as_str())
    }

    /// The version file of a package; `safe_name` is the package name in
    /// its cache-key form.
    pub fn version_cache_file(&self, repo_name: &str, safe_name: &str) -> (r: String)
        ensures
            r@ == spec_join_path(
                self@.cache_meta_dir,
                spec_version_cache_name(repo_name@, safe_name@),
            ),
    {
        let mut name: Vec<char> = Vec::new();
        append_str(&mut name, "version-");
        append_str(&mut name, repo_name);
        name.push('-');
        append_str(&mut name, safe_name);
        append_str(&mut name, ".json");
        assert(name@ =~= spec_version_cache_name(repo_name@, safe_name@));
        let file = from_chars(&name);
        join_path(self.cache_meta_dir.as_str(), file.as_str())
    }

    /// The version file of a package given by its name.
    pub fn version_file_of(&self, repo_name: &str, package_name: &str) -> (r: String)
        ensures
            r@ == spec_join_path(
                self@.cache_meta_dir,
                spec_version_cache_name(repo_name@, spec_cache_key(package_name@)),
            ),
    {
        let safe = cache_key(package_name);
        self.version_cache_file(repo_name, safe.as_str())
    }

    /// The composition root of a workspace.
    pub fn pilocal_path(&self, cave_name: &str, variant: Option<&str>) -> (r: String)
        ensures
            r@ == spec_join_path(self@.cache_pilocals_dir, cave_name@),
    {
        join_path(self.cache_pilocals_dir.as_str(), cave_name)
    }

    /// `true` when the environment advertises an entered workspace;
    /// `marker` is the value of the variable `PI_CAVE`, if it is set.
    pub fn is_inside_cave(&self, marker: Option<&str>) -> (r: bool)
        ensures
            r == marker.is_some(),
    {
        marker.is_some()
    }
}

} // verus!
