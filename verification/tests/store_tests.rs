use pi_build::error::BuildError;
use pi_build::fingerprint::{hash_to_string, to_hex};
use pi_build::pipeline::{
    collect_env, fetch_name, output_name, plan_step, resolve_packages_dir, resolve_step, run_dir,
    BuildDirs, BuildFlags, PipelineState, StepAction, StepEvent,
};
use pi_build::records::{Export, InstallStep, VersionEntry};
use pi_build::store::{BuildCache, PackageBuildCache, StepResult};
use pi_build::textmap::TextMap;
use pi_build::version::StructuredVersion;

fn outcome(hash: &str, status: &str, path: &str) -> StepResult {
    StepResult {
        name: None,
        step_hash: hash.to_string(),
        timestamp: "2024-01-01T00:00:00Z".to_string(),
        output_path: Some(path.to_string()),
        status: status.to_string(),
    }
}

fn store() -> BuildCache {
    BuildCache::new("/home/u/.cache/pi")
}

#[test]
fn store_paths() {
    let s = store();
    assert_eq!(s.cache_dir, "/home/u/.cache/pi/builds");
    assert_eq!(s.get_file_path("go:github.com/gin"), "/home/u/.cache/pi/builds/go_github.com_gin.json");
    assert_eq!(s.get_file_path("my pkg\\x"), "/home/u/.cache/pi/builds/my_pkg_x.json");
}

#[test]
fn lookup_is_a_hit_only_for_fingerprint_and_success() {
    let s = store();
    let mut c = PackageBuildCache::new();
    assert!(s.get_step_result(&c, "1.0", 0, "abc").is_none());
    s.update_step_result(&mut c, "1.0", 0, outcome("abc", "Success", "/out/0"));
    let hit = s.get_step_result(&c, "1.0", 0, "abc").unwrap();
    assert_eq!(hit.output_path.as_deref(), Some("/out/0"));
    assert_eq!(hit.step_hash, "abc");
    assert!(s.get_step_result(&c, "1.0", 0, "abd").is_none());
    assert!(s.get_step_result(&c, "1.0", 1, "abc").is_none());
    assert!(s.get_step_result(&c, "2.0", 0, "abc").is_none());
    s.update_step_result(&mut c, "1.0", 0, outcome("abc", "Failed", "/out/0"));
    assert!(s.get_step_result(&c, "1.0", 0, "abc").is_none());
}

#[test]
fn writing_past_the_end_fills_the_gap() {
    let s = store();
    let mut c = PackageBuildCache::new();
    s.update_step_result(&mut c, "1.0", 3, outcome("h3", "Success", "/out/3"));
    let steps = &c.versions.get("1.0").unwrap().steps;
    assert_eq!(steps.len(), 4);
    for i in 0..3 {
        assert_eq!(steps[i].status, "Skipped");
        assert_eq!(steps[i].step_hash, "unknown");
        assert_eq!(steps[i].timestamp, "");
        assert!(steps[i].output_path.is_none());
        assert!(steps[i].name.is_none());
    }
    assert_eq!(steps[3].step_hash, "h3");
    assert!(s.get_step_result(&c, "1.0", 1, "unknown").is_none());
    s.update_step_result(&mut c, "1.0", 1, outcome("h1", "Success", "/out/1"));
    let steps = &c.versions.get("1.0").unwrap().steps;
    assert_eq!(steps.len(), 4);
    assert_eq!(steps[1].step_hash, "h1");
    assert_eq!(steps[3].step_hash, "h3");
    s.update_step_result(&mut c, "1.0", 4, outcome("h4", "Success", "/out/4"));
    assert_eq!(c.versions.get("1.0").unwrap().steps.len(), 5);
}

#[test]
fn writing_twice_changes_nothing() {
    let s = store();
    let mut c = PackageBuildCache::new();
    s.update_step_result(&mut c, "1.0", 2, outcome("h", "Success", "/o"));
    let once: Vec<(String, String)> = c.versions.get("1.0").unwrap().steps.iter()
        .map(|r| (r.step_hash.clone(), r.status.clone())).collect();
    s.update_step_result(&mut c, "1.0", 2, outcome("h", "Success", "/o"));
    let twice: Vec<(String, String)> = c.versions.get("1.0").unwrap().steps.iter()
        .map(|r| (r.step_hash.clone(), r.status.clone())).collect();
    assert_eq!(once, twice);
}

fn run_step(command: &str) -> InstallStep {
    InstallStep::Run { name: None, command: command.to_string(), cwd: None }
}

#[test]
fn fingerprint_depends_on_every_input() {
    let base = InstallStep::Fetch {
        name: None,
        url: "https://example.org/a.tar.gz".to_string(),
        checksum: None,
        filename: None,
    };
    let same = InstallStep::Fetch {
        name: None,
        url: "https://example.org/a.tar.gz".to_string(),
        checksum: None,
        filename: None,
    };
    assert_eq!(hash_to_string(&base), hash_to_string(&same));
    let named = InstallStep::Fetch {
        name: Some("get".to_string()),
        url: "https://example.org/a.tar.gz".to_string(),
        checksum: None,
        filename: None,
    };
    let with_sum = InstallStep::Fetch {
        name: None,
        url: "https://example.org/a.tar.gz".to_string(),
        checksum: Some("".to_string()),
        filename: None,
    };
    let with_file = InstallStep::Fetch {
        name: None,
        url: "https://example.org/a.tar.gz".to_string(),
        checksum: None,
        filename: Some("".to_string()),
    };
    let all = [
        hash_to_string(&base),
        hash_to_string(&named),
        hash_to_string(&with_sum),
        hash_to_string(&with_file),
        hash_to_string(&run_step("make")),
        hash_to_string(&run_step("make install")),
        hash_to_string(&InstallStep::Extract { name: None, format: None }),
    ];
    for i in 0..all.len() {
        for j in 0..all.len() {
            if i != j {
                assert_ne!(all[i], all[j]);
            }
        }
        assert!(!all[i].is_empty());
        assert!(all[i].chars().all(|c| c.is_ascii_hexdigit() && !c.is_ascii_uppercase()));
        assert!(all[i].len() <= 16);
    }
}

#[test]
fn hexadecimal_numbers() {
    assert_eq!(to_hex(0), "0");
    assert_eq!(to_hex(9), "9");
    assert_eq!(to_hex(10), "a");
    assert_eq!(to_hex(255), "ff");
    assert_eq!(to_hex(4096), "1000");
    assert_eq!(to_hex(u64::MAX), "ffffffffffffffff");
    assert_eq!(to_hex(0xdead_beef), "deadbeef");
}

fn dirs() -> BuildDirs {
    BuildDirs {
        download_dir: "/c/downloads".to_string(),
        packages_dir: "/c/packages".to_string(),
    }
}

fn rust() -> VersionEntry {
    VersionEntry {
        pkgname: "rust".to_string(),
        version: StructuredVersion { components: vec![1, 70, 0], raw: "1.70.0".to_string() },
        pipeline: vec![
            InstallStep::Fetch {
                name: Some("download".to_string()),
                url: "https://static.example.org/dist/rust-1.70.0.tar.gz".to_string(),
                checksum: Some("a".repeat(64)),
                filename: None,
            },
            InstallStep::Extract { name: None, format: None },
            InstallStep::Run {
                name: Some("install".to_string()),
                command: "./install.sh --prefix=@PACKAGES_DIR/rust".to_string(),
                cwd: Some("rust-1.70.0".to_string()),
            },
        ],
        exports: vec![Export::Link { src: "bin/*".to_string(), dest: "bin".to_string() }],
        ..VersionEntry::default()
    }
}

const NORMAL: BuildFlags = BuildFlags { force: false, rebuild: false };

fn build_once(
    flags: BuildFlags,
    cache: &mut PackageBuildCache,
    version: &VersionEntry,
    downloaded: bool,
) -> Vec<String> {
    let s = store();
    let d = dirs();
    let mut state = PipelineState::new();
    let mut log = Vec::new();
    for i in 0..version.pipeline.len() {
        let plan = plan_step(flags, &d, &state, &s, cache, version, i).unwrap();
        let event = match &plan.action {
            StepAction::Reuse { .. } => {
                log.push(format!("reuse {}", i));
                StepEvent::Reused
            }
            StepAction::Fetch { url, dest, .. } => {
                log.push(format!("fetch {} -> {}", url, dest));
                StepEvent::Fetched { downloaded }
            }
            StepAction::Extract { archive, dest } => {
                log.push(format!("extract {} -> {}", archive, dest));
                StepEvent::Extracted
            }
            StepAction::Run { command, cwd } => {
                log.push(format!("run {} in {}", command, cwd));
                StepEvent::Ran { exit: 0 }
            }
        };
        state.complete_step(&s, cache, version, i, &plan, event, "now").unwrap();
    }
    log.push(format!("root {}", state.source_root(&d, version)));
    log
}

#[test]
fn fresh_install_fetches_extracts_and_runs() {
    let mut cache = PackageBuildCache::new();
    let log = build_once(NORMAL, &mut cache, &rust(), true);
    assert_eq!(
        log,
        vec![
            "fetch https://static.example.org/dist/rust-1.70.0.tar.gz -> /c/downloads/rust-1.70.0.tar.gz",
            "extract /c/downloads/rust-1.70.0.tar.gz -> /c/packages/rust-1.70.0-extracted",
            "run ./install.sh --prefix=/c/packages/rust in /c/packages/rust-1.70.0-extracted/rust-1.70.0",
            "root /c/packages/rust-1.70.0-extracted/rust-1.70.0",
        ]
    );
    let steps = &cache.versions.get("1.70.0").unwrap().steps;
    assert_eq!(steps.len(), 3);
    assert_eq!(steps[0].name.as_deref(), Some("download"));
    assert_eq!(steps[2].status, "Success");
    assert_eq!(steps[2].timestamp, "now");
}

#[test]
fn rebuilding_with_nothing_changed_runs_nothing() {
    let mut cache = PackageBuildCache::new();
    build_once(NORMAL, &mut cache, &rust(), true);
    let log = build_once(NORMAL, &mut cache, &rust(), false);
    assert_eq!(
        log,
        vec![
            "fetch https://static.example.org/dist/rust-1.70.0.tar.gz -> /c/downloads/rust-1.70.0.tar.gz",
            "reuse 1",
            "reuse 2",
            "root /c/packages/rust-1.70.0-extracted/rust-1.70.0",
        ]
    );
}

#[test]
fn a_changed_command_runs_again_and_earlier_steps_are_reused() {
    let mut cache = PackageBuildCache::new();
    build_once(NORMAL, &mut cache, &rust(), true);
    let mut edited = rust();
    edited.pipeline.push(InstallStep::Run { name: None, command: "true".to_string(), cwd: None });
    build_once(NORMAL, &mut cache, &edited, false);
    edited.pipeline[2] = InstallStep::Run {
        name: Some("install".to_string()),
        command: "./install.sh --prefix=@PACKAGES_DIR/rust --verbose".to_string(),
        cwd: Some("rust-1.70.0".to_string()),
    };
    let log = build_once(NORMAL, &mut cache, &edited, false);
    assert!(log[0].starts_with("fetch "));
    assert_eq!(log[1], "reuse 1");
    assert!(log[2].starts_with("run ./install.sh --prefix=/c/packages/rust --verbose"));
    assert!(log[3].starts_with("run true"));
}

#[test]
fn a_download_that_used_the_network_makes_later_steps_run() {
    let mut cache = PackageBuildCache::new();
    build_once(NORMAL, &mut cache, &rust(), true);
    let log = build_once(NORMAL, &mut cache, &rust(), true);
    assert!(log[1].starts_with("extract "));
    assert!(log[2].starts_with("run "));
}

#[test]
fn forced_and_rebuild_runs_ignore_the_store() {
    let mut cache = PackageBuildCache::new();
    build_once(NORMAL, &mut cache, &rust(), true);
    let log = build_once(BuildFlags { force: true, rebuild: false }, &mut cache, &rust(), false);
    assert!(log[1].starts_with("extract "));
    let log = build_once(BuildFlags { force: false, rebuild: true }, &mut cache, &rust(), false);
    assert!(log[1].starts_with("extract "));
    assert!(log[2].starts_with("run "));
}

#[test]
fn extract_without_input_is_an_error() {
    let v = VersionEntry {
        pkgname: "p".to_string(),
        pipeline: vec![InstallStep::Extract { name: None, format: None }],
        ..VersionEntry::default()
    };
    let cache = PackageBuildCache::new();
    let r = plan_step(NORMAL, &dirs(), &PipelineState::new(), &store(), &cache, &v, 0);
    assert!(matches!(r, Err(BuildError::MissingInput { step: 0 })));
}

#[test]
fn a_failed_command_is_not_recorded() {
    let v = VersionEntry {
        pkgname: "p".to_string(),
        version: StructuredVersion { components: vec![1], raw: "1".to_string() },
        pipeline: vec![run_step("exit 3")],
        ..VersionEntry::default()
    };
    let s = store();
    let mut cache = PackageBuildCache::new();
    let mut state = PipelineState::new();
    let plan = plan_step(NORMAL, &dirs(), &state, &s, &cache, &v, 0).unwrap();
    match &plan.action {
        StepAction::Run { command, cwd } => {
            assert_eq!(command, "exit 3");
            assert_eq!(cwd, "/c/packages/p-1");
        }
        _ => panic!("a command is run"),
    }
    let r = state.complete_step(&s, &mut cache, &v, 0, &plan, StepEvent::Ran { exit: 3 }, "t");
    match r {
        Err(BuildError::SandboxFailed { command, exit }) => {
            assert_eq!(command, "exit 3");
            assert_eq!(exit, 3);
        }
        _ => panic!("the failure is reported"),
    }
    assert!(cache.versions.get("1").is_none());
    assert!(state.recomputed);
    assert_eq!(state.source_root(&dirs(), &v), "/c/packages/p-1");
}

#[test]
fn step_helpers() {
    assert_eq!(resolve_packages_dir("a @PACKAGES_DIR b @PACKAGES_DIR", "/p"), "a /p b /p");
    assert_eq!(resolve_packages_dir("nothing", "/p"), "nothing");
    let r = resolve_step(&run_step("ls @PACKAGES_DIR"), "/p");
    assert!(matches!(r, InstallStep::Run { ref command, .. } if command == "ls /p"));
    let f = InstallStep::Fetch {
        name: None,
        url: "@PACKAGES_DIR".to_string(),
        checksum: None,
        filename: None,
    };
    assert!(matches!(resolve_step(&f, "/p"), InstallStep::Fetch { ref url, .. } if url == "@PACKAGES_DIR"));
    assert_eq!(fetch_name("https://h/a/b.zip", &None), "b.zip");
    assert_eq!(fetch_name("https://h/a/b.zip", &Some("c.zip".to_string())), "c.zip");
    assert_eq!(fetch_name("https://h/a/", &None), "");
    assert_eq!(fetch_name("plain", &None), "plain");
    assert_eq!(output_name("go:gin", "1 0"), "go_gin-1_0");
    assert_eq!(run_dir("/base", &None), "/base");
    assert_eq!(run_dir("/base", &Some("sub".to_string())), "/base/sub");
    assert_eq!(run_dir("/base", &Some("/abs".to_string())), "/base");
}

#[test]
fn environment_takes_the_env_exports_in_order() {
    let mut env = TextMap::new();
    env.insert("KEEP".to_string(), "1".to_string());
    let exports = vec![
        Export::Env { key: "A".to_string(), val: "first".to_string() },
        Export::Link { src: "x".to_string(), dest: "y".to_string() },
        Export::Path("lib".to_string()),
        Export::Env { key: "A".to_string(), val: "second".to_string() },
        Export::Env { key: "B".to_string(), val: "b".to_string() },
    ];
    collect_env(&mut env, &exports);
    assert_eq!(env.get_text("A").as_deref(), Some("second"));
    assert_eq!(env.get_text("B").as_deref(), Some("b"));
    assert_eq!(env.get_text("KEEP").as_deref(), Some("1"));
    assert_eq!(env.len(), 3);
}
