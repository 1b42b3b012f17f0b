use pi_build::cave::{
    ancestry_candidates, first_existing, is_variant_arg, remove_package, split_run_args,
    split_variant_args, variant_name, Cave,
};
use pi_build::error::BuildError;
use pi_build::settings::{extract_options, union_into, CaveSettings, OptionValue, PackageOptions};
use pi_build::textmap::{SortedMap, TextMap};

fn strings(v: &[&str]) -> Vec<String> {
    v.iter().map(|s| s.to_string()).collect()
}

fn text_map(pairs: &[(&str, &str)]) -> TextMap {
    let mut m = TextMap::new();
    for (k, v) in pairs {
        m.insert(k.to_string(), v.to_string());
    }
    m
}

fn options(pairs: &[(&str, &str, OptionValue)]) -> SortedMap<PackageOptions> {
    let mut all: SortedMap<PackageOptions> = SortedMap::new();
    for (pkg, key, value) in pairs {
        let mut inner = match all.get(pkg) {
            Some(m) => m.clone(),
            None => SortedMap::new(),
        };
        inner.insert(key.to_string(), value.clone());
        all.insert(pkg.to_string(), inner);
    }
    all
}

fn defaults() -> CaveSettings {
    CaveSettings {
        packages: strings(&["rust=1.70.0", "git"]),
        set: text_map(&[("EDITOR", "vi"), ("CC", "gcc"), ("DEBUG", "1")]),
        unset: strings(&["LD_PRELOAD"]),
        options: options(&[
            ("rust", "profile", OptionValue::Text("minimal".to_string())),
            ("rust", "docs", OptionValue::Flag(false)),
            ("git", "jobs", OptionValue::Other("4".to_string())),
        ]),
    }
}

fn gpu() -> CaveSettings {
    CaveSettings {
        packages: strings(&["cuda=12.0", "git", "cuda=12.0"]),
        set: text_map(&[("CC", "nvcc"), ("CUDA", "1"), ("TMP", "x")]),
        unset: strings(&["DEBUG", "TMP", "LD_PRELOAD"]),
        options: options(&[
            ("rust", "docs", OptionValue::Flag(true)),
            ("cuda", "arch", OptionValue::Text("sm_90".to_string())),
        ]),
    }
}

fn option_text(s: &CaveSettings, pkg: &str, key: &str) -> Option<String> {
    s.options.get(pkg).and_then(|m| m.get(key)).map(|v| v.as_text())
}

#[test]
fn merge_lays_a_variant_over_the_defaults() {
    let mut s = defaults();
    s.merge(&gpu());
    assert_eq!(s.packages, strings(&["rust=1.70.0", "git", "cuda=12.0"]));
    assert_eq!(s.unset, strings(&["LD_PRELOAD", "DEBUG", "TMP"]));
    assert_eq!(s.set.get_text("EDITOR").as_deref(), Some("vi"));
    assert_eq!(s.set.get_text("CC").as_deref(), Some("nvcc"));
    assert_eq!(s.set.get_text("CUDA").as_deref(), Some("1"));
    assert!(s.set.get_text("DEBUG").is_none());
    assert!(s.set.get_text("TMP").is_none());
    assert_eq!(s.set.len(), 3);
    assert_eq!(option_text(&s, "rust", "profile").as_deref(), Some("minimal"));
    assert_eq!(option_text(&s, "rust", "docs").as_deref(), Some("true"));
    assert_eq!(option_text(&s, "git", "jobs").as_deref(), Some("4"));
    assert_eq!(option_text(&s, "cuda", "arch").as_deref(), Some("sm_90"));
    assert!(option_text(&s, "cuda", "docs").is_none());
}

#[test]
fn merge_with_nothing_changes_nothing_but_repetitions() {
    let mut s = defaults();
    s.merge(&CaveSettings::new());
    assert_eq!(s.packages, strings(&["rust=1.70.0", "git"]));
    assert_eq!(s.set.len(), 3);
    let mut e = CaveSettings::new();
    e.merge(&gpu());
    assert_eq!(e.packages, strings(&["cuda=12.0", "git"]));
    assert_eq!(e.set.get_text("CC").as_deref(), Some("nvcc"));
    assert!(e.set.get_text("TMP").is_none());
}

#[test]
fn merged_lists_hold_nothing_twice() {
    let mut s = CaveSettings::new();
    s.packages = strings(&["a", "b", "a", "c", "b"]);
    s.unset = strings(&["X", "X"]);
    let mut over = CaveSettings::new();
    over.packages = strings(&["c", "d", "d", "a"]);
    over.unset = strings(&["Y", "X"]);
    s.merge(&over);
    assert_eq!(s.packages, strings(&["a", "b", "c", "d"]));
    assert_eq!(s.unset, strings(&["X", "Y"]));
}

#[test]
fn union_keeps_first_occurrences() {
    let mut list = strings(&["a", "b", "a"]);
    union_into(&mut list, &strings(&["c", "b", "c", "d"]));
    assert_eq!(list, strings(&["a", "b", "a", "c", "d"]));
}

#[test]
fn options_as_a_recipe_sees_them() {
    let all = defaults().options;
    let rust = extract_options(&all, "rust");
    assert_eq!(rust.get_text("profile").as_deref(), Some("minimal"));
    assert_eq!(rust.get_text("docs").as_deref(), Some("false"));
    assert_eq!(rust.len(), 2);
    assert_eq!(extract_options(&all, "git").get_text("jobs").as_deref(), Some("4"));
    assert_eq!(extract_options(&all, "none").len(), 0);
    assert_eq!(OptionValue::Flag(true).as_text(), "true");
}

fn cave() -> Cave {
    let mut c = Cave::new("/work/proj".to_string(), "/state/proj".to_string());
    c.settings = defaults();
    c.variants.insert("gpu".to_string(), gpu());
    c
}

#[test]
fn a_new_workspace_is_named_after_its_directory() {
    let c = Cave::new("/work/proj".to_string(), "/state/proj".to_string());
    assert_eq!(c.name, "proj");
    assert_eq!(c.workspace, "/work/proj");
    assert_eq!(c.homedir, "/state/proj");
    assert!(c.settings.packages.is_empty());
    assert_eq!(c.variants.len(), 0);
    assert_eq!(Cave::new("/".to_string(), "/h".to_string()).name, "default");
    assert_eq!(Cave::filename(), "pi.cave.json");
}

#[test]
fn effective_settings_without_variant_are_the_defaults() {
    let s = cave().get_effective_settings(None).unwrap();
    assert_eq!(s.packages, strings(&["rust=1.70.0", "git"]));
    assert_eq!(s.set.get_text("CC").as_deref(), Some("gcc"));
    assert_eq!(s.unset, strings(&["LD_PRELOAD"]));
}

#[test]
fn effective_settings_with_variant_add_its_packages() {
    let c = cave();
    for name in [":gpu", "gpu"] {
        let s = c.get_effective_settings(Some(name)).unwrap();
        assert_eq!(s.packages, strings(&["rust=1.70.0", "git", "cuda=12.0"]));
        assert_eq!(s.set.get_text("CC").as_deref(), Some("nvcc"));
    }
    let again = c.get_effective_settings(None).unwrap();
    assert_eq!(again.packages, strings(&["rust=1.70.0", "git"]));
}

#[test]
fn an_unknown_variant_is_an_error() {
    match cave().get_effective_settings(Some(":tpu")) {
        Err(BuildError::VariantNotFound { name }) => assert_eq!(name, "tpu"),
        _ => panic!("the variant does not exist"),
    }
}

#[test]
fn adding_and_removing_packages() {
    let mut c = cave();
    assert!(c.add_package(None, "zig"));
    assert!(!c.add_package(None, "git"));
    assert_eq!(c.settings.packages, strings(&["rust=1.70.0", "git", "zig"]));
    assert!(c.add_package(Some(":gpu"), "nccl"));
    assert_eq!(
        c.variants.get("gpu").unwrap().packages,
        strings(&["cuda=12.0", "git", "cuda=12.0", "nccl"])
    );
    assert!(c.add_package(Some(":arm"), "qemu"));
    assert_eq!(c.variants.get("arm").unwrap().packages, strings(&["qemu"]));
    assert_eq!(c.variants.len(), 2);
    let mut list = strings(&["a", "b", "a", "c"]);
    assert!(remove_package(&mut list, "a"));
    assert_eq!(list, strings(&["b", "c"]));
    assert!(!remove_package(&mut list, "zz"));
    assert_eq!(list, strings(&["b", "c"]));
}

#[test]
fn arguments_with_a_leading_variant() {
    assert!(is_variant_arg(":gpu"));
    assert!(is_variant_arg(":"));
    assert!(!is_variant_arg("gpu"));
    assert!(!is_variant_arg(""));
    assert_eq!(variant_name(":gpu"), "gpu");
    assert_eq!(variant_name("gpu"), "gpu");
    assert_eq!(variant_name("::x"), ":x");
    assert_eq!(
        split_variant_args(&strings(&[":gpu", "a", "b"])),
        (Some(":gpu".to_string()), strings(&["a", "b"]))
    );
    assert_eq!(split_variant_args(&strings(&["a", ":b"])), (None, strings(&["a", ":b"])));
    assert_eq!(split_variant_args(&vec![]), (None, vec![]));
    assert_eq!(
        split_run_args(Some(":gpu".to_string()), strings(&["make"])),
        (Some(":gpu".to_string()), strings(&["make"]))
    );
    assert_eq!(
        split_run_args(Some("make".to_string()), strings(&["-j4"])),
        (None, strings(&["make", "-j4"]))
    );
    assert_eq!(split_run_args(None, strings(&["ls"])), (None, strings(&["ls"])));
}

#[test]
fn the_manifest_is_looked_for_upwards() {
    assert_eq!(
        ancestry_candidates("/work/proj/src"),
        strings(&[
            "/work/proj/src/pi.cave.json",
            "/work/proj/pi.cave.json",
            "/work/pi.cave.json",
            "/pi.cave.json",
        ])
    );
    assert_eq!(ancestry_candidates("/"), strings(&["/pi.cave.json"]));
    assert_eq!(ancestry_candidates("a/b"), strings(&["a/b/pi.cave.json", "a/pi.cave.json", "pi.cave.json"]));
    assert_eq!(first_existing(&vec![false, true, true]), Some(1));
    assert_eq!(first_existing(&vec![false, false]), None);
    assert_eq!(first_existing(&vec![]), None);
}

#[test]
fn a_selector_is_removed_from_the_settings_or_from_a_variant() {
    let mut c = Cave::new("/w/proj".to_string(), "/h".to_string());
    c.add_package(None, "git");
    c.add_package(None, "zig");
    c.add_package(Some(":gpu"), "cuda");
    assert!(c.is_sound());
    assert_eq!(c.rem_package(None, "git").unwrap(), true);
    assert_eq!(c.rem_package(None, "git").unwrap(), false);
    assert_eq!(c.settings.packages, vec!["zig"]);
    assert_eq!(c.rem_package(Some(":gpu"), "cuda").unwrap(), true);
    assert_eq!(c.rem_package(Some("gpu"), "cuda").unwrap(), false);
    assert!(c.variants.get("gpu").unwrap().packages.is_empty());
    assert_eq!(c.settings.packages, vec!["zig"]);
    match c.rem_package(Some(":arm"), "zig") {
        Err(pi_build::error::BuildError::VariantNotFound { name }) => assert_eq!(name, "arm"),
        other => panic!("unexpected result: {:?}", other),
    }
    assert!(c.variants.get("arm").is_none());
    assert_eq!(c.settings.packages, vec!["zig"]);
}

#[test]
fn maps_out_of_order_are_told_apart() {
    let mut m = TextMap::new();
    assert!(m.is_ordered());
    m.insert("b".to_string(), "2".to_string());
    m.insert("a".to_string(), "1".to_string());
    m.insert("c".to_string(), "3".to_string());
    assert!(m.is_ordered());
    m.entries.swap(0, 2);
    assert!(!m.is_ordered());
    let twice = TextMap {
        entries: vec![("a".to_string(), "1".to_string()), ("a".to_string(), "2".to_string())],
    };
    assert!(!twice.is_ordered());

    let mut c = Cave::new("/w/proj".to_string(), "/h".to_string());
    assert!(c.is_sound());
    c.settings.set = twice;
    assert!(!c.is_sound());
    let mut s = CaveSettings::new();
    assert!(s.is_sound());
    s.set.entries.push(("z".to_string(), "1".to_string()));
    s.set.entries.push(("y".to_string(), "2".to_string()));
    assert!(!s.is_sound());
}

#[test]
fn adding_to_a_variant_changes_nothing_but_its_packages() {
    let mut c = Cave::new("/w/proj".to_string(), "/h".to_string());
    let mut gpu = CaveSettings::new();
    gpu.packages.push("cuda".to_string());
    gpu.set.insert("CUDA_HOME".to_string(), "$/cuda".to_string());
    gpu.unset.push("CC".to_string());
    c.variants.insert("gpu".to_string(), gpu);
    c.settings.unset.push("LD_PRELOAD".to_string());

    assert!(c.add_package(Some(":gpu"), "nccl"));
    let gpu = c.variants.get("gpu").unwrap();
    assert_eq!(gpu.packages, vec!["cuda", "nccl"]);
    assert_eq!(gpu.set.get_text("CUDA_HOME").as_deref(), Some("$/cuda"));
    assert_eq!(gpu.unset, vec!["CC"]);
    assert_eq!(gpu.options.len(), 0);
    assert_eq!(c.name, "proj");
    assert_eq!(c.workspace, "/w/proj");
    assert_eq!(c.homedir, "/h");
    assert_eq!(c.settings.unset, vec!["LD_PRELOAD"]);
    assert!(c.settings.packages.is_empty());

    assert!(c.add_package(Some("arm"), "qemu"));
    let arm = c.variants.get("arm").unwrap();
    assert_eq!(arm.packages, vec!["qemu"]);
    assert_eq!(arm.set.len(), 0);
    assert!(arm.unset.is_empty());
    assert_eq!(arm.options.len(), 0);
}
