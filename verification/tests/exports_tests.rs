use pi_build::config::Config;
use pi_build::error::{error_line, BuildError};
use pi_build::exports::{
    apply_filemap_entry, dependency_dirs, export_action, export_actions, glob_target,
    resolve_src_path, single_target, symlink_steps, EntryKind, ExportAction, FileMapOptions,
    FsAction,
};
use pi_build::paths::{cache_key, is_absolute, join_path, sanitize_name};
use pi_build::records::{Export, VersionEntry};
use pi_build::repository::{
    is_memory_key_of, is_recipe_file, is_version_file_of, memory_key, should_skip_repo,
    validate_new_repo, Repositories, Repository,
};
use pi_build::selector::PackageSelector;

fn options<'a>(src: &'a str, dest: &'a str) -> FileMapOptions<'a> {
    FileMapOptions {
        pkg_ctx: "main/rust=1.70.0",
        pkg_dir: "/p/rust-1.70.0-extracted",
        pilocal_dir: "/c/pilocals/proj",
        src_pattern: src,
        dest_rel: dest,
    }
}

#[test]
fn paths_join_and_sanitize() {
    assert_eq!(join_path("/a", "b"), "/a/b");
    assert_eq!(join_path("/a/", "b"), "/a/b");
    assert_eq!(join_path("/a", "/b"), "/b");
    assert_eq!(join_path("", "b"), "b");
    assert_eq!(join_path("/a", ""), "/a/");
    assert_eq!(join_path("a", "b/c"), "a/b/c");
    assert!(is_absolute("/x"));
    assert!(!is_absolute("x/"));
    assert!(!is_absolute(""));
    assert_eq!(sanitize_name("go:github.com/gin v1\\x"), "go_github.com_gin_v1_x");
    assert_eq!(sanitize_name("plain-1.0"), "plain-1.0");
    assert_eq!(cache_key("go:github.com/gin"), "go:github.com#gin");
}

#[test]
fn plan_of_a_single_link() {
    let p = apply_filemap_entry(options("bin/cargo", "bin/cargo"));
    assert_eq!(p.search_path, "/p/rust-1.70.0-extracted/bin/cargo");
    assert_eq!(p.dest_path, "/c/pilocals/proj/bin/cargo");
    assert!(!p.is_glob);
    assert!(!p.into_directory);
    assert_eq!(single_target(&p, false).unwrap(), "/c/pilocals/proj/bin/cargo");
    assert_eq!(single_target(&p, true).unwrap(), "/c/pilocals/proj/bin/cargo/cargo");
    let p = apply_filemap_entry(options("bin/cargo", "bin/"));
    assert!(p.into_directory);
    assert_eq!(single_target(&p, false).unwrap(), "/c/pilocals/proj/bin/cargo");
}

#[test]
fn plan_of_a_pattern() {
    let p = apply_filemap_entry(options("bin/*", "bin"));
    assert!(p.is_glob);
    assert_eq!(p.search_path, "/p/rust-1.70.0-extracted/bin/");
    assert_eq!(p.dest_path, "/c/pilocals/proj/bin");
    assert_eq!(glob_target(&p, "rustc"), "/c/pilocals/proj/bin/rustc");
    let p = apply_filemap_entry(options("/abs/lib/*", "lib"));
    assert_eq!(p.search_path, "/abs/lib/");
    let p = apply_filemap_entry(options("a*b", "x"));
    assert!(p.is_glob);
    assert_eq!(p.search_path, "/p/rust-1.70.0-extracted/a*b");
}

#[test]
fn a_source_without_a_name_cannot_be_linked_into_a_directory() {
    let p = apply_filemap_entry(options("/", "bin/"));
    match single_target(&p, false) {
        Err(BuildError::InvalidExportSource { path }) => assert_eq!(path, "/"),
        _ => panic!("the source has no file name"),
    }
    assert_eq!(resolve_src_path("/pkg", "rel"), "/pkg/rel");
    assert_eq!(resolve_src_path("/pkg", "/abs"), "/abs");
}

fn describe(a: &FsAction) -> String {
    match a {
        FsAction::CreateDirAll { path } => format!("mkdir {}", path),
        FsAction::RemoveTree { path } => format!("rmtree {}", path),
        FsAction::RemoveFile { path } => format!("rm {}", path),
        FsAction::Symlink { src, dest } => format!("ln {} {}", src, dest),
    }
}

#[test]
fn what_stands_at_the_destination_is_removed_first() {
    let steps = |kind| -> Vec<String> {
        symlink_steps("/p/bin/cargo", "/r/bin/cargo", kind).iter().map(describe).collect()
    };
    assert_eq!(steps(EntryKind::Missing), vec!["mkdir /r/bin", "ln /p/bin/cargo /r/bin/cargo"]);
    assert_eq!(
        steps(EntryKind::Directory),
        vec!["mkdir /r/bin", "rmtree /r/bin/cargo", "ln /p/bin/cargo /r/bin/cargo"]
    );
    assert_eq!(
        steps(EntryKind::Symlink),
        vec!["mkdir /r/bin", "rm /r/bin/cargo", "ln /p/bin/cargo /r/bin/cargo"]
    );
    assert_eq!(
        steps(EntryKind::File),
        vec!["mkdir /r/bin", "rm /r/bin/cargo", "ln /p/bin/cargo /r/bin/cargo"]
    );
    let top: Vec<String> = symlink_steps("/s", "/", EntryKind::Missing).iter().map(describe).collect();
    assert_eq!(top, vec!["ln /s /"]);
}

#[test]
fn actions_of_exports() {
    let exports = vec![
        Export::Link { src: "@PACKAGES_DIR/rust/bin/*".to_string(), dest: "bin".to_string() },
        Export::Path("share/doc".to_string()),
        Export::Env { key: "K".to_string(), val: "v".to_string() },
    ];
    let actions = export_actions("ctx", &exports, "/src", "/root", "/pk");
    assert_eq!(actions.len(), 3);
    match &actions[0] {
        ExportAction::Link(p) => {
            assert!(p.is_glob);
            assert_eq!(p.search_path, "/pk/rust/bin/");
            assert_eq!(p.dest_path, "/root/bin");
        }
        _ => panic!("a link is planned"),
    }
    assert!(matches!(&actions[1], ExportAction::MakeDir(d) if d == "/root/share/doc"));
    assert!(matches!(&actions[2], ExportAction::Nothing));
    assert!(matches!(
        export_action("ctx", &exports[1], "/src", "/root", "/pk"),
        ExportAction::MakeDir(_)
    ));
}

#[test]
fn directories_of_dependencies() {
    let dep = |links: &[&str]| VersionEntry {
        exports: links
            .iter()
            .map(|s| Export::Link { src: s.to_string(), dest: "bin".to_string() })
            .chain([Export::Path("/ignored/path".to_string())])
            .collect(),
        ..VersionEntry::default()
    };
    let deps = vec![
        dep(&["@PACKAGES_DIR/gcc/bin/gcc", "relative/thing", "@PACKAGES_DIR/gcc/bin/g++"]),
        dep(&["/opt/tool/run", "@PACKAGES_DIR/gcc/lib/libgcc.a", "/"]),
    ];
    assert_eq!(
        dependency_dirs(&deps, "/pk"),
        vec!["/pk/gcc/bin", "/opt/tool", "/pk/gcc/lib"]
    );
    assert!(dependency_dirs(&vec![], "/pk").is_empty());
}

#[test]
fn files_of_the_installation() {
    let c = Config::new("/home/u/.cache/pi", "/home/u/.config/pi", "/home/u/.local/state/pi", true);
    assert!(c.force);
    assert_eq!(c.cache_meta_dir, "/home/u/.cache/pi/meta");
    assert_eq!(c.cache_download_dir, "/home/u/.cache/pi/downloads");
    assert_eq!(c.cache_packages_dir, "/home/u/.cache/pi/packages");
    assert_eq!(c.cache_pilocals_dir, "/home/u/.cache/pi/pilocals");
    assert_eq!(c.repositories_file(), "/home/u/.config/pi/repositories.json");
    assert_eq!(c.package_cache_file("main"), "/home/u/.cache/pi/meta/packages-main.json");
    assert_eq!(
        c.version_cache_file("main", "go:a#b"),
        "/home/u/.cache/pi/meta/version-main-go:a#b.json"
    );
    assert_eq!(c.version_file_of("main", "go:a/b"), "/home/u/.cache/pi/meta/version-main-go:a#b.json");
    assert_eq!(c.pilocal_path("proj", Some(":gpu")), "/home/u/.cache/pi/pilocals/proj");
    assert!(c.is_inside_cave(Some("proj")));
    assert!(!c.is_inside_cave(None));
    let t = Config::new_test("/tmp/x");
    assert_eq!(t.cache_dir, "/tmp/x/cache");
    assert_eq!(t.config_dir, "/tmp/x/config");
    assert_eq!(t.state_dir, "/tmp/x/state");
    assert_eq!(t.cache_meta_dir, "/tmp/x/cache/meta");
    assert!(!t.force);
}

fn repos() -> Repositories {
    Repositories {
        repositories: vec![
            Repository::new("/repos/main".to_string(), "test-repo".to_string()),
            Repository::new("/repos/extra".to_string(), "extra".to_string()),
        ],
    }
}

#[test]
fn a_repository_is_registered_once() {
    assert!(validate_new_repo(&repos(), "new", "/repos/new").is_ok());
    match validate_new_repo(&repos(), "new", "/repos/main") {
        Err(BuildError::DuplicateRepositoryPath { path }) => assert_eq!(path, "/repos/main"),
        _ => panic!("the path is registered"),
    }
    match validate_new_repo(&repos(), "test-repo", "/repos/other") {
        Err(BuildError::DuplicateRepositoryName { name }) => assert_eq!(name, "test-repo"),
        _ => panic!("the name is registered"),
    }
    assert!(matches!(
        validate_new_repo(&repos(), "extra", "/repos/main"),
        Err(BuildError::DuplicateRepositoryPath { .. })
    ));
    assert!(validate_new_repo(&Repositories { repositories: vec![] }, "a", "/a").is_ok());
}

#[test]
fn a_selector_with_a_repository_skips_the_others() {
    let main = Repository::new("/repos/main".to_string(), "main".to_string());
    assert!(!should_skip_repo(&main, &PackageSelector::parse("rust").unwrap()));
    assert!(!should_skip_repo(&main, &PackageSelector::parse("main/rust").unwrap()));
    assert!(should_skip_repo(&main, &PackageSelector::parse("other/rust").unwrap()));
}

#[test]
fn cache_files_of_a_repository() {
    assert!(is_recipe_file("rust.star"));
    assert!(!is_recipe_file("rust.star.bak"));
    assert!(!is_recipe_file("star"));
    assert!(!is_recipe_file(".star"));
    assert!(is_recipe_file("a.star"));
    assert!(is_recipe_file("..star"));
    assert!(!is_recipe_file(""));
    assert!(is_version_file_of("main", "version-main-rust.json"));
    assert!(is_version_file_of("main", "version-main-.json"));
    assert!(!is_version_file_of("main", "version-mainline-rust.json"));
    assert!(!is_version_file_of("main", "version-main-rust.json.tmp"));
    assert!(!is_version_file_of("main", "packages-main.json"));
    assert_eq!(memory_key("main", "go:gin"), "main:go:gin");
    assert!(is_memory_key_of("main", "main:rust"));
    assert!(!is_memory_key_of("main", "mainline:rust"));
    assert!(!is_memory_key_of("main", "main"));
}

#[test]
fn error_lines_carry_the_package_context() {
    assert_eq!(
        error_line("main/rust=1.70.0", "checksum mismatch"),
        "[main/rust=1.70.0] checksum mismatch"
    );
}

#[test]
fn only_a_required_dependency_must_be_found() {
    let lookup = |name: &str, optional: bool, found: bool| pi_build::exports::DependencyLookup {
        dependency: pi_build::records::Dependency { name: name.to_string(), optional },
        record: if found {
            Some(VersionEntry { pkgname: name.to_string(), ..VersionEntry::default() })
        } else {
            None
        },
    };
    let names = |v: Vec<VersionEntry>| v.into_iter().map(|e| e.pkgname).collect::<Vec<_>>();

    let all = vec![lookup("gcc", false, true), lookup("ccache", true, false), lookup("make", true, true)];
    assert_eq!(names(pi_build::exports::present_dependencies(&all).unwrap()), vec!["gcc", "make"]);
    assert!(pi_build::exports::present_dependencies(&vec![]).unwrap().is_empty());

    let missing = vec![
        lookup("gcc", false, true),
        lookup("ccache", true, false),
        lookup("main/cmake=3", false, false),
        lookup("=1.0", false, false),
    ];
    match pi_build::exports::present_dependencies(&missing) {
        Err(BuildError::PackageNotFound { selector }) => assert_eq!(selector, "main/cmake=3"),
        other => panic!("unexpected result: {:?}", other),
    }
    let invalid = vec![lookup("=1.0", true, false), lookup("=2.0", false, false)];
    match pi_build::exports::present_dependencies(&invalid) {
        Err(BuildError::InvalidSelector { selector }) => assert_eq!(selector, "=2.0"),
        other => panic!("unexpected result: {:?}", other),
    }
}

#[test]
fn test_execute_repo_add_duplicate() {
    let mut config = Repositories { repositories: vec![] };
    // First add.
    config.register("/tmp/my-repo", "test-repo").unwrap();
    assert_eq!(config.repositories.len(), 1);
    assert_eq!(config.repositories[0].name, "test-repo");
    assert_eq!(config.repositories[0].path, "/tmp/my-repo");
    // Second add: the same path.
    assert!(matches!(
        config.register("/tmp/my-repo", "test-repo"),
        Err(BuildError::DuplicateRepositoryPath { path }) if path == "/tmp/my-repo"
    ));
    // The same name at another path.
    assert!(matches!(
        config.register("/tmp/my-repo-2", "test-repo"),
        Err(BuildError::DuplicateRepositoryName { name }) if name == "test-repo"
    ));
    assert_eq!(config.repositories.len(), 1);
    config.register("/tmp/my-repo-2", "other-repo").unwrap();
    assert_eq!(config.repositories.len(), 2);
    assert_eq!(config.repositories[1].name, "other-repo");
}

#[test]
fn a_pattern_links_every_entry_under_its_own_name() {
    let plan = apply_filemap_entry(options("bin/*", "bin"));
    let names = vec!["cargo".to_string(), "rustc".to_string()];
    let pairs = pi_build::exports::glob_links(&plan, &names);
    assert_eq!(
        pairs,
        vec![
            pi_build::exports::LinkPair {
                src: "/p/rust-1.70.0-extracted/bin/cargo".to_string(),
                dest: "/c/pilocals/proj/bin/cargo".to_string(),
            },
            pi_build::exports::LinkPair {
                src: "/p/rust-1.70.0-extracted/bin/rustc".to_string(),
                dest: "/c/pilocals/proj/bin/rustc".to_string(),
            },
        ]
    );
    assert!(pi_build::exports::glob_links(&plan, &vec![]).is_empty());
    // Linking again asks for the same links.
    assert_eq!(pi_build::exports::glob_links(&plan, &names), pairs);
    let again = symlink_steps(&pairs[0].src, &pairs[0].dest, EntryKind::Symlink);
    assert!(matches!(&again[1], FsAction::RemoveFile { path } if path == "/c/pilocals/proj/bin/cargo"));
    assert!(matches!(
        &again[2],
        FsAction::Symlink { src, dest }
            if src == "/p/rust-1.70.0-extracted/bin/cargo" && dest == "/c/pilocals/proj/bin/cargo"
    ));
}
