use pi_build::enter::{
    bind_rules, env_ops, inner_root, prepare_sandbox, resolve_value, sandbox_hostname,
    search_front, DependencyDir, SandboxOptions,
};
use pi_build::sandbox::{add_first, lead, BindPair, BindType, Bubblewrap, EnvOp};
use pi_build::textmap::TextMap;

fn strings(v: &[&str]) -> Vec<String> {
    v.iter().map(|s| s.to_string()).collect()
}

#[test]
fn bind_type_options() {
    assert_eq!(BindType::Bind.as_str(), "--bind");
    assert_eq!(BindType::BindTry.as_str(), "--bind-try");
    assert_eq!(BindType::DevBind.as_str(), "--dev-bind");
    assert_eq!(BindType::DevBindTry.as_str(), "--dev-bind-try");
    assert_eq!(BindType::RoBind.as_str(), "--ro-bind");
    assert_eq!(BindType::RoBindTry.as_str(), "--ro-bind-try");
    assert_eq!(BindType::Proc.as_str(), "--proc");
    assert_eq!(BindType::Dev.as_str(), "--dev");
    assert_eq!(BindType::Tmpfs.as_str(), "--tmpfs");
    assert_eq!(BindType::Dir.as_str(), "--dir");
    assert!(BindType::Bind.writes_host());
    assert!(BindType::DevBindTry.writes_host());
    assert!(!BindType::RoBind.writes_host());
    assert!(!BindType::Tmpfs.writes_host());
}

#[test]
fn add_first_puts_new_entries_in_front() {
    assert_eq!(add_first("", "/a"), "/a");
    assert_eq!(add_first("/usr/bin:/bin", "/a"), "/a:/usr/bin:/bin");
    assert_eq!(add_first("/usr/bin:/bin", "/bin"), "/usr/bin:/bin");
    assert_eq!(add_first(":/x::/y:", "/z"), "/z:/x:/y");
    assert_eq!(add_first(":/x::/y:", "/y"), "/x:/y");
    assert_eq!(add_first("/x", "/usr/bin:/bin"), "/usr/bin:/bin:/x");
}

#[test]
fn arguments_come_in_order() {
    let inherited =
        vec![("Z".to_string(), "26".to_string()), ("A".to_string(), "1".to_string())];
    let mut b = Bubblewrap::new(&inherited);
    b.add_flag("--unshare-pid");
    b.add_bind(BindType::RoBind, "/usr");
    b.add_virtual(BindType::Tmpfs, "/tmp");
    b.add_map_bind(BindType::Bind, "/state/home", "/home/u");
    b.add_binds(BindType::RoBind, &strings(&["/etc", "/bin"]));
    b.set_env("M", "13");
    b.unset_env("Z");
    b.set_hostname("box");
    b.set_cwd("/work");
    b.set_command("/bin/bash", &strings(&["-c", "echo hi"]));
    assert_eq!(
        b.build_args(),
        strings(&[
            "--unshare-pid",
            "--ro-bind", "/bin", "/bin",
            "--ro-bind", "/etc", "/etc",
            "--bind", "/state/home", "/home/u",
            "--tmpfs", "/tmp",
            "--ro-bind", "/usr", "/usr",
            "--setenv", "A", "1",
            "--setenv", "M", "13",
            "--unsetenv", "Z",
            "--hostname", "box",
            "--chdir", "/work",
            "--", "/bin/bash", "-c", "echo hi",
        ])
    );
}

#[test]
fn a_later_mount_replaces_an_earlier_one_at_the_same_target() {
    let mut b = Bubblewrap::new(&vec![]);
    b.add_bind(BindType::RoBind, "/data");
    b.add_map_bind(BindType::Bind, "/elsewhere", "/data");
    assert_eq!(b.build_args(), strings(&["--bind", "/elsewhere", "/data"]));
    b.add_virtual(BindType::Tmpfs, "/data");
    assert_eq!(b.build_args(), strings(&["--tmpfs", "/data"]));
    b.add_pair(&BindPair {
        cave_target: "/data".to_string(),
        host_source: Some("/x".to_string()),
        bind_type: BindType::DevBind,
    });
    assert_eq!(b.build_args(), strings(&["--dev-bind", "/x", "/data"]));
}

#[test]
fn without_a_command_nothing_follows_the_options() {
    let b = Bubblewrap::new(&vec![("A".to_string(), "1".to_string()), ("A".to_string(), "2".to_string())]);
    assert_eq!(b.build_args(), strings(&["--setenv", "A", "2"]));
}

#[test]
fn environment_operations() {
    let mut b = Bubblewrap::new(&vec![("PATH".to_string(), "/usr/bin:/bin".to_string())]);
    b.add_env_first("PATH", "/opt/bin");
    b.add_env_first("PATH", "/bin");
    b.add_env_first("LIBS", "/lib");
    assert_eq!(b.envs.get_text("PATH").as_deref(), Some("/opt/bin:/usr/bin:/bin"));
    assert_eq!(b.envs.get_text("LIBS").as_deref(), Some("/lib"));
    b.apply_env_ops(&vec![
        EnvOp::Assign { name: "X".to_string(), value: "1".to_string() },
        EnvOp::AddFirst { name: "X".to_string(), entry: "0".to_string() },
        EnvOp::Assign { name: "LIBS".to_string(), value: "".to_string() },
    ]);
    assert_eq!(b.envs.get_text("X").as_deref(), Some("0:1"));
    assert_eq!(b.envs.get_text("LIBS").as_deref(), Some(""));
    b.unset_env("X");
    assert!(b.envs.get_text("X").is_none());
    assert_eq!(b.unsets, strings(&["X"]));
}

fn options() -> SandboxOptions {
    let mut package_envs = TextMap::new();
    package_envs.insert("RUSTUP_HOME".to_string(), "$/rustup".to_string());
    package_envs.insert("EDITOR".to_string(), "vi".to_string());
    let mut cave_envs = TextMap::new();
    cave_envs.insert("EDITOR".to_string(), "@HOME/bin/ed $ @PACKAGES_DIR".to_string());
    SandboxOptions {
        inherited_env: vec![
            ("PATH".to_string(), "/usr/local/bin:/usr/bin".to_string()),
            ("TERM".to_string(), "xterm".to_string()),
        ],
        host_home: "/home/u".to_string(),
        user: "u".to_string(),
        hostname: "box.example.org".to_string(),
        cave_name: "proj".to_string(),
        workspace: "/work/proj".to_string(),
        cave_home: "/state/proj".to_string(),
        composition_root: "/cache/pilocals/proj".to_string(),
        cache_dir: "/cache".to_string(),
        cache_present: true,
        config_dir: "/config".to_string(),
        config_present: false,
        packages_dir: "/cache/packages".to_string(),
        lib64_present: true,
        runtime_dir: Some("/run/user/1000".to_string()),
        variant: Some(":gpu".to_string()),
        package_envs,
        cave_envs,
        writable_pilocal: false,
        dependency_dirs: vec![
            DependencyDir { path: "/cache/packages/gcc".to_string(), exists: true, has_bin: true },
            DependencyDir { path: "/cache/packages/gone".to_string(), exists: false, has_bin: true },
            DependencyDir { path: "/cache/packages/hdrs".to_string(), exists: true, has_bin: false },
        ],
    }
}

#[test]
fn sandbox_of_a_workspace() {
    let b = prepare_sandbox(&options());
    assert_eq!(b.flags, strings(&["--unshare-pid", "--unshare-uts", "--die-with-parent"]));
    assert_eq!(b.hostname.as_deref(), Some("box-proj-gpu.example.org"));
    let mounts: Vec<(String, Option<String>, BindType)> = b
        .binds
        .entries
        .iter()
        .map(|(k, p)| {
            assert_eq!(k, &p.cave_target);
            (p.cave_target.clone(), p.host_source.clone(), p.bind_type)
        })
        .collect();
    let same = |p: &str, t: BindType| (p.to_string(), Some(p.to_string()), t);
    assert_eq!(
        mounts,
        vec![
            same("/bin", BindType::RoBind),
            same("/cache", BindType::RoBind),
            same("/cache/packages/gcc", BindType::RoBind),
            same("/cache/packages/hdrs", BindType::RoBind),
            ("/dev".to_string(), None, BindType::Dev),
            same("/etc", BindType::RoBind),
            ("/home/u".to_string(), Some("/state/proj".to_string()), BindType::Bind),
            (
                "/home/u/.pilocal".to_string(),
                Some("/cache/pilocals/proj".to_string()),
                BindType::RoBind
            ),
            same("/lib", BindType::RoBind),
            same("/lib64", BindType::RoBind),
            ("/proc".to_string(), None, BindType::Proc),
            ("/run".to_string(), None, BindType::Tmpfs),
            same("/run/user/1000", BindType::Bind),
            same("/sbin", BindType::RoBind),
            same("/sys", BindType::RoBind),
            ("/tmp".to_string(), None, BindType::Tmpfs),
            same("/usr", BindType::RoBind),
            same("/work/proj", BindType::Bind),
        ]
    );
    let env = |k: &str| b.envs.get_text(k);
    assert_eq!(env("HOME").as_deref(), Some("/home/u"));
    assert_eq!(env("USER").as_deref(), Some("u"));
    assert_eq!(env("PI_WORKSPACE").as_deref(), Some("/work/proj"));
    assert_eq!(env("PI_CAVE").as_deref(), Some("proj"));
    assert_eq!(env("XDG_RUNTIME_DIR").as_deref(), Some("/run/user/1000"));
    assert_eq!(env("TERM").as_deref(), Some("xterm"));
    assert_eq!(
        env("PATH").as_deref(),
        Some("/home/u/.pilocal/bin:/home/u/.cargo/bin:/home/u/.mix/escripts:/home/u/.local/bin:/usr/bin:/bin:/cache/packages/gcc/bin:/usr/local/bin")
    );
    assert_eq!(env("RUSTUP_HOME").as_deref(), Some("/home/u/.pilocal/rustup"));
    assert_eq!(env("EDITOR").as_deref(), Some("/home/u/bin/ed /home/u/.pilocal /cache/packages"));
    assert!(b.executable.is_none());
    assert!(b.unsets.is_empty());
}

#[test]
fn a_build_sandbox_may_write_the_composition_root() {
    let mut o = options();
    o.writable_pilocal = true;
    o.runtime_dir = None;
    o.lib64_present = false;
    o.config_present = true;
    o.variant = None;
    o.hostname = "solo".to_string();
    let b = prepare_sandbox(&o);
    assert_eq!(b.hostname.as_deref(), Some("solo-proj"));
    let root = b.binds.get("/home/u/.pilocal").unwrap();
    assert_eq!(root.bind_type, BindType::Bind);
    assert!(b.binds.get("/lib64").is_none());
    assert_eq!(b.binds.get("/config").unwrap().bind_type, BindType::RoBind);
    assert!(b.envs.get_text("XDG_RUNTIME_DIR").is_none());
    for (_, p) in b.binds.entries.iter() {
        if p.bind_type.writes_host() {
            let src = p.host_source.as_deref().unwrap();
            assert!(src == "/work/proj" || src == "/state/proj" || src == "/cache/pilocals/proj");
        }
    }
}

#[test]
fn rule_lists() {
    let o = options();
    let rules = bind_rules(&o);
    assert_eq!(rules.len(), 18);
    assert_eq!(rules[0].cave_target, "/usr");
    assert_eq!(rules[2].cave_target, "/lib64");
    assert_eq!(rules[17].cave_target, "/cache/packages/hdrs");
    let ops = env_ops(&o);
    assert_eq!(ops.len(), 1 + 1 + 5 + 2 + 1);
    assert!(matches!(&ops[0], EnvOp::Assign { name, .. } if name == "XDG_RUNTIME_DIR"));
    assert!(matches!(&ops[1], EnvOp::AddFirst { entry, .. } if entry == "/cache/packages/gcc/bin"));
    assert!(matches!(&ops[6], EnvOp::Lead { name, entries } if name == "PATH" && entries.len() == 6));
    assert!(matches!(&ops[9], EnvOp::Assign { name, value } if name == "EDITOR" && value == "/home/u/bin/ed /home/u/.pilocal /cache/packages"));
}

#[test]
fn placeholders_are_resolved_in_order() {
    assert_eq!(inner_root("/home/u"), "/home/u/.pilocal");
    assert_eq!(resolve_value("$/bin:$", "/r", "/h", "/p"), "/r/bin:/r");
    assert_eq!(resolve_value("@HOME/.x:@PACKAGES_DIR/y", "/r", "/h", "/p"), "/h/.x:/p/y");
    assert_eq!(resolve_value("plain", "/r", "/h", "/p"), "plain");
    assert_eq!(resolve_value("$$", "/r", "/h", "/p"), "/r/r");
    assert_eq!(resolve_value("$", "@HOME", "/h", "/p"), "/h");
}

#[test]
fn host_names() {
    assert_eq!(sandbox_hostname("box", "proj", &None), "box-proj");
    assert_eq!(sandbox_hostname("box", "proj", &Some("gpu".to_string())), "box-proj-gpu");
    assert_eq!(sandbox_hostname("box.lan", "proj", &Some(":gpu".to_string())), "box-proj-gpu.lan");
    assert_eq!(sandbox_hostname("a.b.c", "w", &None), "a-w.b.c");
    assert_eq!(sandbox_hostname("", "w", &None), "-w");
}

#[test]
fn only_an_exit_code_of_zero_is_success() {
    let mut bwrap = Bubblewrap::new(&vec![]);
    bwrap.set_command("/bin/make", &strings(&["install"]));
    assert!(bwrap.check_exit(Some(0)).is_ok());
    match bwrap.check_exit(Some(2)) {
        Err(pi_build::error::BuildError::SandboxFailed { command, exit }) => {
            assert_eq!(command, "/bin/make");
            assert_eq!(exit, 2);
        }
        other => panic!("unexpected result: {:?}", other),
    }
    match bwrap.check_exit(None) {
        Err(pi_build::error::BuildError::SandboxFailed { command, exit }) => {
            assert_eq!(command, "/bin/make");
            assert_eq!(exit, -1);
        }
        other => panic!("unexpected result: {:?}", other),
    }
    assert_eq!(Bubblewrap::program(), "/usr/bin/bwrap");
}

#[test]
fn the_search_path_is_led_whatever_the_invoker_has() {
    let front = "/h/.pilocal/bin:/h/.cargo/bin:/h/.mix/escripts:/h/.local/bin:/usr/bin:/bin";
    let path_with = |inherited: Option<&str>| {
        let mut o = options();
        o.host_home = "/h".to_string();
        o.dependency_dirs = vec![];
        o.inherited_env = inherited.iter().map(|p| ("PATH".to_string(), p.to_string())).collect();
        prepare_sandbox(&o).envs.get_text("PATH").unwrap()
    };
    assert_eq!(path_with(None), front);
    assert_eq!(path_with(Some("")), front);
    // What the invoker has already does not keep its place.
    assert_eq!(path_with(Some("/h/.cargo/bin")), front);
    assert_eq!(path_with(Some("/bin:/usr/bin:/h/.local/bin:/h/.pilocal/bin")), front);
    assert_eq!(path_with(Some("/opt/x:/h/.cargo/bin:/opt/y")), format!("{}:/opt/x:/opt/y", front));
    // Nothing stands twice, and empty parts are dropped.
    assert_eq!(path_with(Some("/opt/x::/opt/x:/usr/bin:")), format!("{}:/opt/x", front));
    assert_eq!(
        search_front("/home/u"),
        vec![
            "/home/u/.pilocal/bin",
            "/home/u/.cargo/bin",
            "/home/u/.mix/escripts",
            "/home/u/.local/bin",
            "/usr/bin",
            "/bin",
        ]
    );
}

#[test]
fn a_list_is_led_by_entries() {
    let entries = strings(&["/a", "/b"]);
    assert_eq!(lead("", &entries), "/a:/b");
    assert_eq!(lead("/b:/c:/a", &entries), "/a:/b:/c");
    assert_eq!(lead("/c::/d:/c", &entries), "/a:/b:/c:/d");
    assert_eq!(lead("/x:/y", &vec![]), "/x:/y");
    let mut b = Bubblewrap::new(&vec![("LIBS".to_string(), "/l2:/l1".to_string())]);
    b.lead_env("LIBS", &strings(&["/l1"]));
    b.lead_env("NEW", &strings(&["/n"]));
    assert_eq!(b.envs.get_text("LIBS").as_deref(), Some("/l1:/l2"));
    assert_eq!(b.envs.get_text("NEW").as_deref(), Some("/n"));
}
