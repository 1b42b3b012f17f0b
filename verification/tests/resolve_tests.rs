use pi_build::listing::{filter_versions, listing_rows, sort_newest_first, versions_to_cache};
use pi_build::records::{QualifiedVersion, VersionEntry, VersionList};
use pi_build::repository::{ManagerEntry, PackageEntry, PackageList, Repository};
use pi_build::resolve::{find_best_version, match_target_version, match_version};
use pi_build::resolver::{
    after_colon, before_colon, concrete_version, determine_listing_mode, find_entry_details,
    lookup_order, next_attempt, resolve_in_repo, target_of, version_request, CacheSource,
    VersionRequest,
};
use pi_build::selector::PackageSelector;
use pi_build::version::{ReleaseType, StructuredVersion};

fn entry(name: &str, comps: &[u32], raw: &str, date: &str, rt: ReleaseType) -> VersionEntry {
    VersionEntry {
        pkgname: name.to_string(),
        version: StructuredVersion { components: comps.to_vec(), raw: raw.to_string() },
        release_date: date.to_string(),
        release_type: rt,
        ..VersionEntry::default()
    }
}

fn rust_versions() -> VersionList {
    VersionList {
        versions: vec![
            entry("rust", &[1, 69, 0], "1.69.0", "2023-04-20", ReleaseType::Stable),
            entry("rust", &[1, 70, 0], "1.70.0", "2023-06-01", ReleaseType::Stable),
            entry("rust", &[1, 71, 0], "1.71.0-beta", "2023-06-05", ReleaseType::Testing),
            entry("rust", &[1, 70, 0], "1.70.0", "2023-06-02", ReleaseType::Stable),
            entry("rust", &[1, 72, 0], "1.72.0-nightly", "2023-06-06", ReleaseType::Unstable),
        ],
    }
}

#[test]
fn best_version_latest_takes_highest() {
    let v = find_best_version(rust_versions(), "latest").unwrap();
    assert_eq!(v.version.raw, "1.72.0-nightly");
}

#[test]
fn best_version_channel_filters_by_release_type() {
    let v = find_best_version(rust_versions(), "stable").unwrap();
    assert_eq!(v.version.raw, "1.70.0");
    assert_eq!(v.release_date, "2023-06-02");
    let v = find_best_version(rust_versions(), "testing").unwrap();
    assert_eq!(v.version.raw, "1.71.0-beta");
    let v = find_best_version(rust_versions(), "unstable").unwrap();
    assert_eq!(v.version.raw, "1.72.0-nightly");
    assert!(find_best_version(rust_versions(), "lts").is_none());
}

#[test]
fn best_version_exact_text() {
    let v = find_best_version(rust_versions(), "1.69.0").unwrap();
    assert_eq!(v.release_date, "2023-04-20");
    assert!(find_best_version(rust_versions(), "1.68.0").is_none());
}

#[test]
fn best_version_wildcard() {
    let v = find_best_version(rust_versions(), "1.7*").unwrap();
    assert_eq!(v.version.raw, "1.72.0-nightly");
    let v = find_best_version(rust_versions(), "1.70.*").unwrap();
    assert_eq!(v.version.raw, "1.70.0");
    assert_eq!(v.release_date, "2023-06-02");
}

#[test]
fn best_version_of_equal_rank_is_the_first() {
    let mut a = entry("p", &[1], "1", "2024-01-01", ReleaseType::Stable);
    a.stream = "first".to_string();
    let mut b = entry("p", &[1], "1", "2024-01-01", ReleaseType::Stable);
    b.stream = "second".to_string();
    let v = find_best_version(VersionList { versions: vec![a, b] }, "latest").unwrap();
    assert_eq!(v.stream, "first");
}

#[test]
fn best_version_of_nothing() {
    assert!(find_best_version(VersionList { versions: vec![] }, "latest").is_none());
}

#[test]
fn targets_and_filters() {
    let e = entry("p", &[1, 2], "1.2", "", ReleaseType::LTS);
    assert!(match_target_version(&e, "latest"));
    assert!(match_target_version(&e, "lts"));
    assert!(!match_target_version(&e, "stable"));
    assert!(match_target_version(&e, "1.2"));
    assert!(match_target_version(&e, "1.*"));
    assert!(!match_target_version(&e, "all"));
    assert!(match_version(&e, "all"));
    assert!(!match_version(&e, "latest"));
    let shaped = entry("p", &[1], "1", "", ReleaseType::Shape("1.0".to_string()));
    assert!(!match_target_version(&shaped, "stable"));
    assert!(match_target_version(&shaped, "latest"));
}

#[test]
fn sorting_is_newest_first_and_keeps_all() {
    let sorted = sort_newest_first(&rust_versions().versions);
    let texts: Vec<(String, String)> =
        sorted.iter().map(|v| (v.version.raw.clone(), v.release_date.clone())).collect();
    assert_eq!(
        texts,
        vec![
            ("1.72.0-nightly".to_string(), "2023-06-06".to_string()),
            ("1.71.0-beta".to_string(), "2023-06-05".to_string()),
            ("1.70.0".to_string(), "2023-06-02".to_string()),
            ("1.70.0".to_string(), "2023-06-01".to_string()),
            ("1.69.0".to_string(), "2023-04-20".to_string()),
        ]
    );
}

#[test]
fn listing_rows_filter_sort_truncate() {
    let list = rust_versions();
    let rows = listing_rows(&list, "stable", false);
    assert_eq!(rows.len(), 3);
    assert_eq!(rows[0].release_date, "2023-06-02");
    let rows = listing_rows(&list, "stable", true);
    assert_eq!(rows.len(), 1);
    assert_eq!(rows[0].release_date, "2023-06-02");
    let rows = listing_rows(&list, "all", false);
    assert_eq!(rows.len(), 5);
    let rows = listing_rows(&list, "lts", true);
    assert!(rows.is_empty());
    assert_eq!(filter_versions(&list.versions, "1.69.0").len(), 1);
}

#[test]
fn nothing_is_cached_of_an_empty_sync() {
    assert!(versions_to_cache(&vec![]).is_none());
    let kept = versions_to_cache(&rust_versions().versions).unwrap();
    assert_eq!(kept.versions.len(), 5);
    assert_eq!(kept.versions[0].version.raw, "1.72.0-nightly");
}

#[test]
fn package_context_and_directory_name() {
    let e = entry("go:github.com/gin", &[1, 9], "1.9 beta", "", ReleaseType::Stable);
    assert_eq!(e.pkg_dir_name(), "go_github.com_gin-1.9_beta");
    let q = QualifiedVersion::new("main", &e);
    assert_eq!(q.pkg_ctx(), "main/go:github.com/gin=1.9 beta");
}

fn index() -> PackageList {
    let mut list = PackageList::new();
    list.packages.push(PackageEntry {
        name: "rust".to_string(),
        function_name: "discover_rust".to_string(),
        filename: "rust.star".to_string(),
    });
    list.packages.push(PackageEntry {
        name: "rust".to_string(),
        function_name: "discover_rust_again".to_string(),
        filename: "rust2.star".to_string(),
    });
    list.managers.push(ManagerEntry {
        name: "npm".to_string(),
        function_name: "discover_npm".to_string(),
        filename: "managers/npm.star".to_string(),
    });
    list.initialize_maps();
    list
}

#[test]
fn initialize_maps_enters_by_name_last_wins() {
    let list = index();
    assert_eq!(list.package_map.len(), 1);
    assert_eq!(list.package_map.get("rust").unwrap().function_name, "discover_rust_again");
    assert_eq!(list.manager_map.get("npm").unwrap().filename, "managers/npm.star");
    assert!(list.package_map.get("go").is_none());
}

#[test]
fn add_recipe_sets_the_file() {
    let mut list = PackageList::new();
    let found = vec![PackageEntry {
        name: "vlc".to_string(),
        function_name: "install_vlc".to_string(),
        filename: "/abs/recipes/media/vlc.star".to_string(),
    }];
    list.add_recipe("media/vlc.star", &found, &vec![]);
    assert_eq!(list.packages.len(), 1);
    assert_eq!(list.packages[0].filename, "media/vlc.star");
    assert_eq!(list.packages[0].name, "vlc");
    assert!(list.managers.is_empty());
}

#[test]
fn version_request_by_package_or_manager() {
    let list = index();
    let s = PackageSelector::parse("rust=1.70.0").unwrap();
    match version_request(&list, &s) {
        Some(VersionRequest::Package { entry }) => assert_eq!(entry.name, "rust"),
        _ => panic!("a package is requested"),
    }
    let s = PackageSelector::parse("npm:left-pad").unwrap();
    match version_request(&list, &s) {
        Some(VersionRequest::Manager { entry, full_name, sub_name }) => {
            assert_eq!(entry.function_name, "discover_npm");
            assert_eq!(full_name, "npm:left-pad");
            assert_eq!(sub_name, "left-pad");
        }
        _ => panic!("a manager is requested"),
    }
    assert!(version_request(&list, &PackageSelector::parse("go").unwrap()).is_none());
    assert!(version_request(&list, &PackageSelector::parse("cargo:serde").unwrap()).is_none());
    assert!(version_request(&list, &PackageSelector::parse("npm").unwrap()).is_none());
}

#[test]
fn resolve_in_repo_gives_full_name() {
    let list = index();
    let repo = Repository::new("/repos/main".to_string(), "main".to_string());
    let s = PackageSelector::parse("rust").unwrap();
    let req = version_request(&list, &s).unwrap();
    let r = resolve_in_repo(&repo, &req, &s, rust_versions()).unwrap();
    assert_eq!(r.full_name, "main/rust=1.70.0");
    assert_eq!(r.repo_name, "main");
    assert_eq!(r.version.release_date, "2023-06-02");
    let s = PackageSelector::parse("rust=2.*").unwrap();
    assert!(resolve_in_repo(&repo, &req, &s, rust_versions()).is_none());
}

#[test]
fn default_target_is_stable() {
    assert_eq!(target_of(&PackageSelector::parse("rust").unwrap()), "stable");
    assert_eq!(target_of(&PackageSelector::parse("rust=latest").unwrap()), "latest");
}

#[test]
fn a_resolution_is_retried_once_with_sync() {
    assert_eq!(next_attempt(false, 0), Some(false));
    assert_eq!(next_attempt(false, 1), Some(true));
    assert_eq!(next_attempt(false, 2), None);
    assert_eq!(next_attempt(true, 0), Some(false));
    assert_eq!(next_attempt(true, 1), None);
}

#[test]
fn cache_lookup_order() {
    assert_eq!(
        lookup_order(false, false),
        vec![CacheSource::Memory, CacheSource::Disk, CacheSource::Sync]
    );
    assert_eq!(lookup_order(true, false), vec![CacheSource::Sync]);
    assert_eq!(lookup_order(false, true), vec![CacheSource::Sync]);
}

#[test]
fn listing_modes() {
    assert_eq!(determine_listing_mode(true, &None), ("all".to_string(), false));
    assert_eq!(determine_listing_mode(false, &None), ("stable".to_string(), true));
    let s = PackageSelector::parse("rust=1.*");
    assert_eq!(determine_listing_mode(false, &s), ("1.*".to_string(), false));
    let s = PackageSelector::parse("rust");
    assert_eq!(determine_listing_mode(false, &s), ("stable".to_string(), false));
    assert_eq!(determine_listing_mode(true, &s), ("all".to_string(), false));
}

#[test]
fn names_around_the_colon() {
    assert_eq!(before_colon("npm:left-pad"), "npm");
    assert_eq!(before_colon("rust"), "rust");
    assert_eq!(after_colon("npm:left-pad").as_deref(), Some("left-pad"));
    assert_eq!(after_colon("a:b:c").as_deref(), Some("b"));
    assert_eq!(after_colon("rust"), None);
}

#[test]
fn entry_details_of_package_and_manager() {
    let list = index();
    let v = entry("rust", &[1], "1", "", ReleaseType::Stable);
    let d = find_entry_details(&list, &v, &PackageSelector::parse("rust").unwrap()).unwrap();
    assert_eq!(d.filename, "rust2.star");
    assert_eq!(d.argument, "rust");
    assert!(!d.is_manager);
    let v = entry("npm:left-pad", &[1], "1", "", ReleaseType::Stable);
    let d = find_entry_details(&list, &v, &PackageSelector::parse("npm:left-pad").unwrap()).unwrap();
    assert_eq!(d.function_name, "discover_npm");
    assert_eq!(d.argument, "left-pad");
    assert!(d.is_manager);
    let d = find_entry_details(&list, &v, &PackageSelector::parse("left-pad").unwrap()).unwrap();
    assert_eq!(d.argument, "left-pad");
    let v = entry("cargo:serde", &[1], "1", "", ReleaseType::Stable);
    assert!(find_entry_details(&list, &v, &PackageSelector::parse("serde").unwrap()).is_none());
}

#[test]
fn concrete_version_is_the_one_with_the_cached_version() {
    let cached = entry("rust", &[1, 70, 0], "1.70.0", "old", ReleaseType::Stable);
    let fresh = rust_versions().versions;
    let c = concrete_version(&fresh, &cached).unwrap();
    assert_eq!(c.release_date, "2023-06-01");
    let other = entry("rust", &[9], "9", "", ReleaseType::Stable);
    assert!(concrete_version(&fresh, &other).is_none());
}

#[test]
fn a_name_is_looked_for_among_the_registrations_of_a_file() {
    let package = |name: &str| PackageEntry {
        name: name.to_string(),
        function_name: "f".to_string(),
        filename: "x.star".to_string(),
    };
    let manager = |name: &str| ManagerEntry {
        name: name.to_string(),
        function_name: "g".to_string(),
        filename: "x.star".to_string(),
    };
    let packages = vec![package("rust"), package("npm:left"), package("rust")];
    let managers = vec![manager("pip"), manager("npm"), manager("npm")];
    let target = |name: &str| pi_build::resolver::trial_target(&packages, &managers, name);

    assert_eq!(target("rust"), pi_build::resolver::TrialTarget::Package { index: 0 });
    assert_eq!(
        target("npm:typescript"),
        pi_build::resolver::TrialTarget::Manager { index: 1, sub_name: "typescript".to_string() }
    );
    // All that follows the first colon is asked for.
    assert_eq!(
        target("pip:a:b"),
        pi_build::resolver::TrialTarget::Manager { index: 0, sub_name: "a:b".to_string() }
    );
    // A manager goes before a package of the full name.
    assert_eq!(
        target("npm:left"),
        pi_build::resolver::TrialTarget::Manager { index: 1, sub_name: "left".to_string() }
    );
    assert_eq!(target("cargo:left"), pi_build::resolver::TrialTarget::NotFound);
    assert_eq!(target("pip"), pi_build::resolver::TrialTarget::NotFound);
    assert_eq!(target(""), pi_build::resolver::TrialTarget::NotFound);
    let only = vec![package("cargo:left")];
    assert_eq!(
        pi_build::resolver::trial_target(&only, &managers, "cargo:left"),
        pi_build::resolver::TrialTarget::Package { index: 0 }
    );
}

fn wide_index() -> PackageList {
    let mut list = index();
    for name in ["zig", "git"] {
        list.packages.push(PackageEntry {
            name: name.to_string(),
            function_name: format!("discover_{}", name),
            filename: format!("{}.star", name),
        });
    }
    list.initialize_maps();
    list
}

fn shown(items: &[pi_build::resolver::ListingItem]) -> Vec<String> {
    items
        .iter()
        .map(|item| match item {
            pi_build::resolver::ListingItem::Kept { entry, placeholder } => {
                format!("kept {} {}", entry.name, placeholder)
            }
            pi_build::resolver::ListingItem::Versions { request } => {
                format!("versions {}", request.package_name())
            }
            pi_build::resolver::ListingItem::ManagerLine { prefix } => format!("manager {}", prefix),
        })
        .collect()
}

#[test]
fn a_listing_without_selector_shows_what_the_disk_keeps() {
    let list = wide_index();
    assert!(list.is_sound());
    let plan = pi_build::resolver::listing_plan(&list, &None, false);
    assert_eq!(shown(&plan), vec!["kept git true", "kept rust true", "kept zig true"]);
    let plan = pi_build::resolver::listing_plan(&list, &None, true);
    assert_eq!(shown(&plan), vec!["kept git false", "kept rust false", "kept zig false"]);
    match &plan[1] {
        pi_build::resolver::ListingItem::Kept { entry, .. } => {
            assert_eq!(entry.function_name, "discover_rust_again")
        }
        other => panic!("unexpected item: {:?}", other),
    }
}

#[test]
fn a_listing_with_selector_asks_for_what_it_names() {
    let list = wide_index();
    let plan = |text: &str| {
        shown(&pi_build::resolver::listing_plan(&list, &PackageSelector::parse(text), false))
    };
    assert_eq!(plan("rust"), vec!["versions rust"]);
    assert_eq!(plan("rust=1.70"), vec!["versions rust"]);
    assert_eq!(plan("*"), vec!["versions git", "versions rust", "versions zig"]);
    assert!(plan("hare").is_empty());
    assert_eq!(plan("npm:typescript"), vec!["versions npm:typescript"]);
    assert!(plan("pip:requests").is_empty());

    let nameless = PackageSelector {
        recipe: None,
        prefix: Some("npm".to_string()),
        package: String::new(),
        version: None,
    };
    assert_eq!(
        shown(&pi_build::resolver::listing_plan(&list, &Some(nameless), false)),
        vec!["manager npm"]
    );
    let empty = PackageSelector { recipe: None, prefix: None, package: String::new(), version: None };
    assert!(pi_build::resolver::listing_plan(&list, &Some(empty), true).is_empty());
}
