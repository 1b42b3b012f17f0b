use pi_build::cli::{
    clean_plan, is_command_allowed, log_level, uninstall_plan, CaveCommands, CleanPlan, Commands,
    DevelCommands, DiskCommands, LogLevel, PackageCommands, RepoCommands,
};
use pi_build::config::Config;
use pi_build::error::BuildError;
use pi_build::netcache::{download_next, Cache, DownloadAction, DownloadStage, Freshness};
use pi_build::pattern::Captured;
use pi_build::platform::{Arch, OS};
use pi_build::recipe::{
    extract, extract_function_name, extract_groups, Context, FlagDefault, VersionBuilder,
};
use pi_build::records::{Export, InstallStep};
use pi_build::text::{
    contains_string, from_chars, replace_str, split_chars, str_eq, to_chars,
};
use pi_build::textmap::TextMap;
use pi_build::version::ReleaseType;

fn builder() -> VersionBuilder {
    VersionBuilder::create_version(
        "rust".to_string(),
        "1.70.0".to_string(),
        Some("2023-06-01".to_string()),
        None,
    )
    .unwrap()
}

#[test]
fn a_builder_starts_empty_and_stable() {
    let b = builder();
    assert_eq!(b.pkgname, "rust");
    assert_eq!(b.version, "1.70.0");
    assert_eq!(b.release_date, "2023-06-01");
    assert_eq!(b.release_type, "stable");
    assert_eq!(b.stream, "");
    assert!(b.pipeline.is_empty() && b.exports.is_empty() && b.flags.is_empty());
    let b = VersionBuilder::create_version("p".to_string(), "1".to_string(), None, Some("LTS".to_string())).unwrap();
    assert_eq!(b.release_date, "");
    assert_eq!(b.release_type, "LTS");
    assert!(VersionBuilder::create_version("p".to_string(), "1".to_string(), None, Some("1.2-rc".to_string())).is_ok());
}

#[test]
fn an_unknown_release_type_fails_the_call() {
    match VersionBuilder::create_version("p".to_string(), "1".to_string(), None, Some("weekly".to_string())) {
        Err(BuildError::InvalidReleaseType { literal }) => assert_eq!(literal, "weekly"),
        _ => panic!("the release type is refused"),
    }
}

#[test]
fn a_record_lands_in_the_context_only_when_registered() {
    let mut ctx = Context::new(
        OS::Linux,
        Arch::X86_64,
        "recipes/rust.star".to_string(),
        "/m".to_string(),
        "/d".to_string(),
        "/p".to_string(),
        false,
    );
    let mut b = VersionBuilder::create_version(
        "rust".to_string(),
        "v1.70.0-beta.2".to_string(),
        None,
        Some("testing".to_string()),
    )
    .unwrap();
    b.set_stream("1.70".to_string());
    b.add_flag("docs".to_string(), "install the docs".to_string(), FlagDefault::Flag(false));
    b.fetch("https://h/rust.tar.gz".to_string(), Some("00".to_string()), None, Some("get".to_string()));
    b.extract(None, None);
    b.run("./install.sh".to_string(), Some("rust".to_string()), None);
    b.export_link("bin/*".to_string(), "bin".to_string());
    b.export_env("RUSTUP_HOME".to_string(), "$/rustup".to_string());
    b.export_path("share".to_string());
    b.add_build_dependency("gcc".to_string(), true);
    assert!(ctx.versions.is_empty());
    ctx.register(&b);
    assert_eq!(ctx.versions.len(), 1);
    let v = &ctx.versions[0];
    assert_eq!(v.pkgname, "rust");
    assert_eq!(v.version.raw, "v1.70.0-beta.2");
    assert_eq!(v.version.components, vec![1, 70, 0]);
    assert!(matches!(v.release_type, ReleaseType::Testing));
    assert_eq!(v.stream, "1.70");
    assert_eq!(v.pipeline.len(), 3);
    assert!(matches!(&v.pipeline[0], InstallStep::Fetch { name: Some(n), filename: None, .. } if n == "get"));
    assert!(matches!(&v.pipeline[2], InstallStep::Run { cwd: Some(c), .. } if c == "rust"));
    assert_eq!(v.exports.len(), 3);
    assert!(matches!(&v.exports[2], Export::Path(p) if p == "share"));
    assert_eq!(v.flags[0].default_value, "false");
    assert_eq!(v.build_dependencies[0].name, "gcc");
    assert!(v.build_dependencies[0].optional);
    b.run("later".to_string(), None, None);
    assert_eq!(ctx.versions[0].pipeline.len(), 3);
}

#[test]
fn registrations_carry_the_file_of_their_context() {
    let mut ctx = Context::new(
        OS::MacOS,
        Arch::Aarch64,
        "a.star".to_string(),
        "/m".to_string(),
        "/d".to_string(),
        "/p".to_string(),
        true,
    );
    ctx.add_package("^vlc".to_string(), "<function install_vlc>");
    ctx.add_manager("npm".to_string(), "<function pkg.mod.discover>");
    assert_eq!(ctx.packages.len(), 1);
    assert_eq!(ctx.packages[0].name, "^vlc");
    assert_eq!(ctx.packages[0].function_name, "install_vlc");
    assert_eq!(ctx.packages[0].filename, "a.star");
    assert_eq!(ctx.managers[0].function_name, "discover");
    let other = Context::new(
        OS::Linux,
        Arch::I686,
        "b.star".to_string(),
        "/m".to_string(),
        "/d".to_string(),
        "/p".to_string(),
        false,
    );
    assert!(other.packages.is_empty());
    let mut opts = TextMap::new();
    opts.insert("docs".to_string(), "true".to_string());
    let with = other.with_options(opts);
    assert_eq!(with.options.get_text("docs").as_deref(), Some("true"));
    assert_eq!(with.filename, "b.star");
}

#[test]
fn function_names() {
    assert_eq!(extract_function_name("<function install_vlc>"), "install_vlc");
    assert_eq!(extract_function_name("<function a.b.c>"), "c");
    assert_eq!(extract_function_name("<function open"), "open");
    assert_eq!(extract_function_name("plain"), "plain");
    assert_eq!(extract_function_name("mod.f>"), "f>");
    assert_eq!(extract_function_name("<function >"), "");
    assert_eq!(extract_function_name(""), "");
}

#[test]
fn flag_values_prefer_the_options() {
    let mut b = builder();
    b.add_flag("docs".to_string(), "".to_string(), FlagDefault::Flag(true));
    b.add_flag("profile".to_string(), "".to_string(), FlagDefault::Text("minimal".to_string()));
    b.add_flag("docs".to_string(), "".to_string(), FlagDefault::Text("later".to_string()));
    let mut options = TextMap::new();
    assert_eq!(b.flag_value(&options, "docs").as_deref(), Some("true"));
    assert_eq!(b.flag_value(&options, "profile").as_deref(), Some("minimal"));
    assert_eq!(b.flag_value(&options, "unknown"), None);
    options.insert("profile".to_string(), "complete".to_string());
    options.insert("extra".to_string(), "x".to_string());
    assert_eq!(b.flag_value(&options, "profile").as_deref(), Some("complete"));
    assert_eq!(b.flag_value(&options, "extra").as_deref(), Some("x"));
}

#[test]
fn extract_gives_the_groups() {
    let (ok, groups) = extract("([a-z]+)-([0-9.]+)", "python-3.9").unwrap();
    assert!(ok);
    assert_eq!(groups, vec!["python", "3.9"]);
    let (ok, groups) = extract("(abc)", "def").unwrap();
    assert!(!ok);
    assert_eq!(groups, vec![""]);
    let (ok, groups) = extract("(a)|(b)", "b").unwrap();
    assert!(ok);
    assert_eq!(groups, vec!["", "b"]);
    let (ok, groups) = extract("plain", "some plain text").unwrap();
    assert!(ok);
    assert!(groups.is_empty());
    match extract("(unclosed", "x") {
        Err(BuildError::InvalidPattern { pattern }) => assert_eq!(pattern, "(unclosed"),
        _ => panic!("the expression does not compile"),
    }
}

#[test]
fn groups_of_a_search_outcome() {
    let found = Captured::Match(vec![Some("ab".to_string()), None, Some("b".to_string())]);
    assert_eq!(extract_groups("p", &found).unwrap(), (true, vec!["".to_string(), "b".to_string()]));
    assert_eq!(extract_groups("p", &Captured::NoMatch(3)).unwrap(), (false, vec!["".to_string(), "".to_string()]));
    assert_eq!(extract_groups("p", &Captured::NoMatch(0)).unwrap(), (false, vec![]));
    assert_eq!(extract_groups("p", &Captured::Match(vec![])).unwrap(), (true, vec![]));
    assert!(extract_groups("p", &Captured::Invalid).is_err());
}

#[test]
fn platforms() {
    assert_eq!(OS::parse("linux"), Some(OS::Linux));
    assert_eq!(OS::parse("Darwin"), Some(OS::MacOS));
    assert_eq!(OS::parse("macos"), Some(OS::MacOS));
    assert_eq!(OS::parse("WINDOWS"), Some(OS::Windows));
    assert_eq!(OS::parse("plan9"), None);
    assert_eq!(OS::MacOS.name(), "macos");
    assert_eq!(Arch::parse("amd64"), Some(Arch::X86_64));
    assert_eq!(Arch::parse("x86_64"), Some(Arch::X86_64));
    assert_eq!(Arch::parse("arm64"), Some(Arch::Aarch64));
    assert_eq!(Arch::parse("x86"), Some(Arch::I686));
    assert_eq!(Arch::parse("riscv"), None);
    assert_eq!(Arch::I686.name(), "i686");
    assert_eq!(Arch::Aarch64.name(), "aarch64");
}

#[test]
fn addresses_become_file_names() {
    let c = Cache::new("/c/meta".to_string(), 3600);
    assert_eq!(
        c.get_path("https://example.org/a/b?x=1&y=2"),
        "/c/meta/https_example.org_a_b_x_1_y_2"
    );
    assert_eq!(c.get_path("host:8080/p"), "/c/meta/host_8080_p");
    assert_eq!(c.get_path("a:///b"), "/c/meta/a__b");
}

#[test]
fn entries_live_for_their_time() {
    let c = Cache::new("/c".to_string(), 3600);
    assert_eq!(c.freshness(10_000, 10_000), Freshness::Fresh);
    assert_eq!(c.freshness(13_600, 10_000), Freshness::Fresh);
    assert_eq!(c.freshness(13_601, 10_000), Freshness::Expired);
    assert_eq!(c.freshness(9_999, 10_000), Freshness::ClockError);
}

#[test]
fn the_network_is_reached_only_after_a_second_miss_under_the_lock() {
    let start = DownloadStage::Start;
    let locked = DownloadStage::Locked;
    let text = || Some("payload".to_string());
    assert!(matches!(download_next(false, start, text()), DownloadAction::Return(t) if t == "payload"));
    assert!(matches!(download_next(false, start, None), DownloadAction::Lock));
    assert!(matches!(download_next(false, locked, text()), DownloadAction::Return(t) if t == "payload"));
    assert!(matches!(download_next(false, locked, None), DownloadAction::Fetch));
    assert!(matches!(download_next(true, start, text()), DownloadAction::Lock));
    assert!(matches!(download_next(true, locked, text()), DownloadAction::Fetch));
}

#[test]
fn commands_inside_an_entered_workspace() {
    let read_only = [
        Commands::Version,
        Commands::Repo { command: RepoCommands::List { name: None } },
        Commands::Package { command: PackageCommands::List { selector: None, all: false } },
        Commands::Package { command: PackageCommands::Info { selector: "rust".to_string() } },
        Commands::Package { command: PackageCommands::Resolve { queries: vec![] } },
        Commands::Cave { command: CaveCommands::Info },
    ];
    let writing = [
        Commands::Repo { command: RepoCommands::Add { path: ".".to_string() } },
        Commands::Repo { command: RepoCommands::Sync { name: None } },
        Commands::Package { command: PackageCommands::Sync { selector: None } },
        Commands::Cave { command: CaveCommands::Init },
        Commands::Cave { command: CaveCommands::Add { args: vec![] } },
        Commands::Cave { command: CaveCommands::Rem { args: vec![] } },
        Commands::Cave { command: CaveCommands::Resolve { variant: None } },
        Commands::Cave { command: CaveCommands::Build { variant: None } },
        Commands::Cave { command: CaveCommands::Run { variant: None, command: vec![] } },
        Commands::Disk { command: DiskCommands::Info },
        Commands::Disk { command: DiskCommands::Uninstall { confirm: true } },
        Commands::Devel { command: DevelCommands::Test { filename: "a".to_string(), pkg: None } },
    ];
    for c in read_only.iter() {
        assert!(is_command_allowed(true, c));
        assert!(is_command_allowed(false, c));
    }
    for c in writing.iter() {
        assert!(!is_command_allowed(true, c));
        assert!(is_command_allowed(false, c));
    }
}

#[test]
fn log_levels() {
    assert_eq!(log_level(false, false, false), LogLevel::Info);
    assert_eq!(log_level(true, false, false), LogLevel::Error);
    assert_eq!(log_level(true, true, false), LogLevel::Debug);
    assert_eq!(log_level(true, true, true), LogLevel::Trace);
}

#[test]
fn cleaning_and_uninstalling() {
    let c = Config::new("/c", "/cfg", "/st", false);
    assert!(matches!(clean_plan(&c, false, false, false, false, false, false, true), CleanPlan::Explain));
    assert!(matches!(
        clean_plan(&c, true, false, false, false, true, false, false),
        CleanPlan::NeedsConfirmation
    ));
    match clean_plan(&c, true, false, true, true, false, true, true) {
        CleanPlan::Remove(dirs) => assert_eq!(dirs, vec!["/c/meta", "/c/packages", "/c/downloads", "/st"]),
        _ => panic!("directories are removed"),
    }
    match clean_plan(&c, false, true, false, false, false, false, false) {
        CleanPlan::Remove(dirs) => assert_eq!(dirs, vec!["/c/pilocals"]),
        _ => panic!("directories are removed"),
    }
    assert_eq!(uninstall_plan(&c, false), None);
    assert_eq!(uninstall_plan(&c, true).unwrap(), vec!["/cfg", "/c", "/st"]);
}

#[test]
fn text_helpers() {
    assert_eq!(to_chars("héllo"), vec!['h', 'é', 'l', 'l', 'o']);
    assert_eq!(from_chars(&vec!['a', 'ß', 'c']), "aßc");
    assert!(str_eq("same", "same"));
    assert!(!str_eq("same", "Same"));
    assert_eq!(replace_str("a.b.c", ".", "::"), "a::b::c");
    assert_eq!(replace_str("aaa", "aa", "b"), "ba");
    assert_eq!(replace_str("abc", "", "x"), "abc");
    assert_eq!(replace_str("abc", "abcd", "x"), "abc");
    let parts: Vec<String> = split_chars(&to_chars("a,,b,"), ',').iter().map(from_chars).collect();
    assert_eq!(parts, vec!["a", "", "b", ""]);
    assert_eq!(split_chars(&to_chars(""), ',').len(), 1);
    assert!(contains_string(&vec!["x".to_string(), "y".to_string()], "y"));
    assert!(!contains_string(&vec![], "y"));
}

#[test]
fn a_failed_fetch_leaves_nothing_in_the_cache() {
    let ok = pi_build::netcache::after_fetch(Some("payload".to_string()));
    assert_eq!(ok.text, "payload");
    assert!(ok.keep);
    let failed = pi_build::netcache::after_fetch(None);
    assert_eq!(failed.text, "");
    assert!(!failed.keep);
}

#[test]
fn a_context_is_named_after_its_file() {
    let named = |file: &str| {
        Context::new(
            OS::Linux,
            Arch::X86_64,
            file.to_string(),
            "/m".to_string(),
            "/d".to_string(),
            "/p".to_string(),
            false,
        )
        .display_name()
    };
    assert_eq!(named("recipes/rust.star"), "rust");
    assert_eq!(named("/repo/recipes/node.star:exec"), "node");
    assert_eq!(named("plain"), "plain");
    assert_eq!(named("archive.tar.gz"), "archive.tar");
    assert_eq!(named(".."), "..");
    assert_eq!(named(""), "");
}

#[test]
fn test_extract() {
    let (ok, groups) = pi_build::recipe::extract(r"([a-z]+)-([0-9.]+)", "python-3.9").unwrap();
    assert!(ok);
    assert_eq!(groups, vec!["python", "3.9"]);
    let (ok2, groups2) = pi_build::recipe::extract(r"(abc)", "def").unwrap();
    assert!(!ok2);
    assert_eq!(groups2, vec![""]);
}

#[test]
fn an_unknown_host_counts_as_linux_on_x86_64() {
    assert_eq!(OS::of_host("macos"), OS::MacOS);
    assert_eq!(OS::of_host("Windows"), OS::Windows);
    assert_eq!(OS::of_host("freebsd"), OS::Linux);
    assert_eq!(OS::of_host(""), OS::Linux);
    assert_eq!(Arch::of_host("aarch64"), Arch::Aarch64);
    assert_eq!(Arch::of_host("x86"), Arch::I686);
    assert_eq!(Arch::of_host("riscv64"), Arch::X86_64);
}

#[test]
fn downloaded_text_is_kept_with_the_downloads() {
    let ctx = Context::new(
        OS::Linux,
        Arch::X86_64,
        "a.star".to_string(),
        "/c/meta".to_string(),
        "/c/downloads".to_string(),
        "/c/packages".to_string(),
        false,
    );
    let cache = ctx.download_cache();
    assert_eq!(cache.dir, "/c/downloads");
    assert_eq!(cache.ttl_secs, 3600);
    assert_eq!(cache.get_path("https://x.org/a?b=1"), "/c/downloads/https_x.org_a_b_1");
}
