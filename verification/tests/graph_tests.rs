use incremental_build::DependencyGraph;

#[test]
fn idempotent_edges() {
    let mut g = DependencyGraph::new();
    g.add_dependency(&"a".to_string(), &"b".to_string());
    g.add_dependency(&"a".to_string(), &"b".to_string());
    let deps = g.get_dependents(&"b".to_string());
    assert_eq!(deps, vec!["a".to_string()]);
}

#[test]
fn direct_dependents_only() {
    let mut g = DependencyGraph::new();
    g.add_dependency(&"a".to_string(), &"b".to_string());
    g.add_dependency(&"b".to_string(), &"c".to_string());
    let deps = g.get_dependents(&"c".to_string());
    assert_eq!(deps, vec!["b".to_string()]);
    let deps_b = g.get_dependents(&"b".to_string());
    assert_eq!(deps_b, vec!["a".to_string()]);
}

#[test]
fn unknown_id_has_no_dependents() {
    let mut g = DependencyGraph::new();
    g.add_node("a".to_string());
    assert!(g.get_dependents(&"never-seen".to_string()).is_empty());
    assert!(g.get_dependents(&"a".to_string()).is_empty());
}

#[test]
fn add_node_is_idempotent() {
    let mut g = DependencyGraph::new();
    g.add_node("a".to_string());
    g.add_node("a".to_string());
    g.add_dependency(&"b".to_string(), &"a".to_string());
    assert_eq!(g.get_dependents(&"a".to_string()), vec!["b".to_string()]);
}

#[test]
fn two_dependents_most_recent_first() {
    let mut g = DependencyGraph::new();
    g.add_dependency(&"a".to_string(), &"c".to_string());
    g.add_dependency(&"b".to_string(), &"c".to_string());
    let deps = g.get_dependents(&"c".to_string());
    assert_eq!(deps, vec!["b".to_string(), "a".to_string()]);
}

#[test]
fn self_loop_is_legal() {
    let mut g = DependencyGraph::new();
    g.add_dependency(&"a".to_string(), &"a".to_string());
    assert_eq!(g.get_dependents(&"a".to_string()), vec!["a".to_string()]);
}
