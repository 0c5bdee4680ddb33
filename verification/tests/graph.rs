use must::error::Error;
use must::graph::Dag;
use must::map::OrdMap;

fn deps(pairs: &[(&str, &[&str])]) -> OrdMap<Vec<String>> {
    let mut m = OrdMap::new();
    for (k, v) in pairs {
        m.insert(k.to_string(), v.iter().map(|s| s.to_string()).collect());
    }
    m
}

#[test]
fn test_topo_sort_simple() {
    let dag = Dag::new(deps(&[("a", &[]), ("b", &["a"]), ("c", &["b"])]));
    let order = dag.topo_sort().unwrap();
    let a = order.iter().position(|x| x == "a").unwrap();
    let b = order.iter().position(|x| x == "b").unwrap();
    let c = order.iter().position(|x| x == "c").unwrap();
    assert!(a < b && b < c);
}

#[test]
fn test_waves() {
    let dag = Dag::new(deps(&[
        ("codegen", &[]),
        ("serve", &[]),
        ("build", &["codegen"]),
        ("test", &["codegen"]),
        ("release", &["build", "test", "serve"]),
    ]));
    let waves = dag.waves().unwrap();
    assert_eq!(waves.len(), 3);
    // Wave 1: codegen, serve (independent)
    assert!(waves[0].contains(&"codegen".to_string()));
    assert!(waves[0].contains(&"serve".to_string()));
    // Wave 2: build, test
    assert!(waves[1].contains(&"build".to_string()));
    assert!(waves[1].contains(&"test".to_string()));
    // Wave 3: release
    assert_eq!(waves[2], vec!["release".to_string()]);
}

#[test]
fn test_cycle_detection() {
    let dag = Dag::new(deps(&[("a", &["b"]), ("b", &["c"]), ("c", &["a"])]));
    let result = dag.topo_sort();
    match result {
        Err(Error::CycleDetected { cycle }) => assert!(
            ["a -> b -> c -> a", "b -> c -> a -> b", "c -> a -> b -> c"].contains(&cycle.as_str()),
            "{cycle}"
        ),
        other => panic!("expected a cycle, got {other:?}"),
    }
}

#[test]
fn stuck_nodes_listed_without_a_cycle() {
    // `b` names no recipe: no cycle, so the stuck nodes are listed.
    let dag = Dag::new(deps(&[("a", &["b"]), ("c", &["a"])]));
    match dag.topo_sort() {
        Err(Error::CycleDetected { cycle }) => assert_eq!(cycle, "a -> c"),
        other => panic!("expected stuck nodes, got {other:?}"),
    }
}

#[test]
fn waves_are_in_name_order() {
    let dag = Dag::new(deps(&[("zeta", &[]), ("alpha", &[]), ("mid", &["zeta", "alpha"])]));
    let waves = dag.waves().unwrap();
    assert_eq!(waves, vec![vec!["alpha".to_string(), "zeta".to_string()], vec!["mid".to_string()]]);
}

#[test]
fn cycle_is_reported_along_its_edges() {
    let dag = Dag::new(deps(&[("a", &["b"]), ("b", &["c"]), ("c", &["a"]), ("d", &[])]));
    match dag.waves() {
        Err(Error::CycleDetected { cycle }) => assert_eq!(cycle, "a -> b -> c -> a"),
        _ => panic!("expected a cycle"),
    }
}

#[test]
fn missing_dep_reports_the_stuck_nodes() {
    let dag = Dag::new(deps(&[("a", &["ghost"]), ("b", &["a"]), ("c", &[])]));
    match dag.topo_sort() {
        Err(Error::CycleDetected { cycle }) => assert_eq!(cycle, "a -> b"),
        _ => panic!("expected an error"),
    }
}

#[test]
fn self_dependency_is_a_cycle() {
    let dag = Dag::new(deps(&[("a", &["a"])]));
    match dag.waves() {
        Err(Error::CycleDetected { cycle }) => assert_eq!(cycle, "a -> a"),
        _ => panic!("expected a cycle"),
    }
}

#[test]
fn reachable_from_follows_deps_in_topo_order() {
    let dag = Dag::new(deps(&[
        ("codegen", &[]),
        ("serve", &[]),
        ("build", &["codegen"]),
        ("test", &["build"]),
        ("docs", &[]),
    ]));
    let r = dag.reachable_from("test").unwrap();
    assert_eq!(r, vec!["codegen".to_string(), "build".to_string(), "test".to_string()]);
    assert!(dag.reachable_from("nope").unwrap().is_empty());
}

#[test]
fn empty_graph_has_no_waves() {
    let dag = Dag::new(OrdMap::new());
    assert!(dag.waves().unwrap().is_empty());
    assert!(dag.topo_sort().unwrap().is_empty());
}

#[test]
fn reachable_is_topo_order_filtered() {
    let dag = Dag::new(deps(&[
        ("app", &["lib", "gen"]),
        ("lib", &["gen"]),
        ("gen", &[]),
        ("docs", &[]),
        ("bench", &["lib"]),
    ]));
    let order = dag.topo_sort().unwrap();
    let reach = dag.reachable_from("lib").unwrap();
    let closure = ["lib", "gen"];
    let filtered: Vec<String> = order.into_iter().filter(|n| closure.contains(&n.as_str())).collect();
    assert_eq!(reach, filtered);
}
