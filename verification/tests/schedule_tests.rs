use pi_build::deps::DependencyResolver;
use pi_build::error::BuildError;
use pi_build::records::{Dependency, VersionEntry};
use pi_build::schedule::{topological_sort, ResolvedSet};

fn package(name: &str, deps: &[&str]) -> VersionEntry {
    VersionEntry {
        pkgname: name.to_string(),
        build_dependencies: deps
            .iter()
            .map(|d| Dependency { name: d.to_string(), optional: false })
            .collect(),
        ..VersionEntry::default()
    }
}

fn resolved(graph: &[(&str, &[&str])]) -> ResolvedSet {
    let mut set = ResolvedSet::new();
    for (name, deps) in graph {
        set.insert(name.to_string(), package(name, deps), "main".to_string());
    }
    set
}

fn position(order: &[String], name: &str) -> usize {
    order.iter().position(|n| n == name).unwrap()
}

#[test]
fn order_puts_dependencies_first() {
    let set = resolved(&[
        ("app", &["lib", "tool"]),
        ("lib", &["base"]),
        ("tool", &["base"]),
        ("base", &[]),
    ]);
    let order = topological_sort(&set).unwrap();
    assert_eq!(order.len(), 4);
    assert!(position(&order, "base") < position(&order, "lib"));
    assert!(position(&order, "base") < position(&order, "tool"));
    assert!(position(&order, "lib") < position(&order, "app"));
    assert!(position(&order, "tool") < position(&order, "app"));
    assert_eq!(order, vec!["base", "lib", "tool", "app"]);
}

#[test]
fn order_of_independent_packages_follows_the_set() {
    let set = resolved(&[("a", &[]), ("b", &[]), ("c", &[])]);
    assert_eq!(topological_sort(&set).unwrap(), vec!["a", "b", "c"]);
}

#[test]
fn order_of_nothing_is_empty() {
    assert!(topological_sort(&ResolvedSet::new()).unwrap().is_empty());
}

#[test]
fn order_lists_unresolved_dependencies_as_leaves() {
    let set = resolved(&[("a", &["ghost"])]);
    assert_eq!(topological_sort(&set).unwrap(), vec!["ghost", "a"]);
}

#[test]
fn cycle_of_two_is_reported_with_both() {
    let set = resolved(&[("a", &["b"]), ("b", &["a"])]);
    match topological_sort(&set) {
        Err(BuildError::CircularDependency { nodes }) => {
            assert_eq!(nodes.len(), 2);
            assert!(nodes.contains(&"a".to_string()));
            assert!(nodes.contains(&"b".to_string()));
        }
        other => panic!("expected a cycle, got {:?}", other),
    }
}

#[test]
fn self_dependency_is_a_cycle() {
    let set = resolved(&[("a", &["a"])]);
    match topological_sort(&set) {
        Err(BuildError::CircularDependency { nodes }) => assert_eq!(nodes, vec!["a"]),
        other => panic!("expected a cycle, got {:?}", other),
    }
}

#[test]
fn cycle_behind_a_chain_walks_only_the_cycle() {
    let set = resolved(&[("top", &["x"]), ("x", &["y"]), ("y", &["z"]), ("z", &["x"])]);
    match topological_sort(&set) {
        Err(BuildError::CircularDependency { nodes }) => {
            assert_eq!(nodes, vec!["x", "y", "z"]);
        }
        other => panic!("expected a cycle, got {:?}", other),
    }
}

#[test]
fn resolved_set_replaces_by_selector() {
    let mut set = ResolvedSet::new();
    set.insert("a".to_string(), package("a", &["x"]), "one".to_string());
    set.insert("b".to_string(), package("b", &[]), "one".to_string());
    set.insert("a".to_string(), package("a", &["y"]), "two".to_string());
    assert_eq!(set.entries.len(), 2);
    assert!(set.contains_key("a"));
    assert!(!set.contains_key("c"));
    assert_eq!(set.get("a").unwrap().repo_name, "two");
    assert_eq!(set.get("a").unwrap().version.build_dependencies[0].name, "y");
    assert!(set.get("zz").is_none());
}

#[test]
fn resolver_follows_dependencies_until_closed() {
    let recipes: Vec<(&str, Vec<&str>)> = vec![
        ("app", vec!["lib", "tool"]),
        ("lib", vec!["base"]),
        ("tool", vec!["base", "lib"]),
        ("base", vec![]),
    ];
    let mut r = DependencyResolver::new(&vec!["app".to_string(), "app".to_string()]);
    let mut asked = Vec::new();
    while let Some(q) = r.next_query() {
        asked.push(q.clone());
        let deps = &recipes.iter().find(|(n, _)| *n == q).unwrap().1;
        r.supply(q.clone(), package(&q, deps), "main".to_string());
    }
    assert_eq!(asked, vec!["app", "lib", "tool", "base"]);
    assert!(r.is_done());
    let order = topological_sort(&r.resolved).unwrap();
    assert_eq!(order, vec!["base", "lib", "tool", "app"]);
}

#[test]
fn variant_extends_the_build_order() {
    let recipes: Vec<(&str, Vec<&str>)> =
        vec![("rust=1.70.0", vec![]), ("cuda=12.0", vec!["rust=1.70.0"])];
    let build = |packages: Vec<String>| {
        let mut r = DependencyResolver::new(&packages);
        while let Some(q) = r.next_query() {
            let deps = &recipes.iter().find(|(n, _)| *n == q).unwrap().1;
            r.supply(q.clone(), package(&q, deps), "main".to_string());
        }
        topological_sort(&r.resolved).unwrap()
    };
    assert_eq!(build(vec!["rust=1.70.0".to_string()]), vec!["rust=1.70.0"]);
    assert_eq!(
        build(vec!["rust=1.70.0".to_string(), "cuda=12.0".to_string()]),
        vec!["rust=1.70.0", "cuda=12.0"]
    );
}

#[test]
fn a_build_makes_the_root_and_then_builds_in_order() {
    let mut set = pi_build::schedule::ResolvedSet::new();
    let entry = |name: &str, deps: &[&str]| pi_build::records::VersionEntry {
        pkgname: name.to_string(),
        build_dependencies: deps
            .iter()
            .map(|d| pi_build::records::Dependency { name: d.to_string(), optional: false })
            .collect(),
        ..pi_build::records::VersionEntry::default()
    };
    set.insert("app".to_string(), entry("app", &["lib"]), "main".to_string());
    set.insert("lib".to_string(), entry("lib", &[]), "main".to_string());
    let plan = pi_build::course::build_plan(&set, "/c/pilocals/w").unwrap();
    assert_eq!(
        plan,
        vec![
            pi_build::course::BuildAction::MakeRoot { path: "/c/pilocals/w".to_string() },
            pi_build::course::BuildAction::BuildPackage { query: "lib".to_string() },
            pi_build::course::BuildAction::BuildPackage { query: "app".to_string() },
        ]
    );
    let empty = pi_build::schedule::ResolvedSet::new();
    assert_eq!(
        pi_build::course::build_plan(&empty, "/r").unwrap(),
        vec![pi_build::course::BuildAction::MakeRoot { path: "/r".to_string() }]
    );
}

#[test]
fn a_cycle_ends_the_build_before_its_first_action() {
    let mut set = pi_build::schedule::ResolvedSet::new();
    let entry = |name: &str, dep: &str| pi_build::records::VersionEntry {
        pkgname: name.to_string(),
        build_dependencies: vec![pi_build::records::Dependency {
            name: dep.to_string(),
            optional: false,
        }],
        ..pi_build::records::VersionEntry::default()
    };
    set.insert("a".to_string(), entry("a", "b"), "main".to_string());
    set.insert("b".to_string(), entry("b", "a"), "main".to_string());
    match pi_build::course::build_plan(&set, "/c/pilocals/w") {
        Err(pi_build::error::BuildError::CircularDependency { nodes }) => {
            assert!(nodes.contains(&"a".to_string()));
            assert!(nodes.contains(&"b".to_string()));
        }
        other => panic!("unexpected result: {:?}", other),
    }
}
