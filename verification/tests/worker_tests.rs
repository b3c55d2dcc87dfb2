use incremental_build::{NativeWorker, Resolver};

#[test]
fn default_pool_size_is_four() {
    let w = NativeWorker::new(None);
    assert_eq!(w.pool_size, 4);
    let w8 = NativeWorker::new(Some(8));
    assert_eq!(w8.pool_size, 8);
}

#[test]
fn transform_output_names_file_then_source() {
    let mut w = NativeWorker::new(None);
    let out = w.process_file("a.js".to_string(), Some(b"hello".to_vec()));
    assert_eq!(out, "/* a.js */ hello");
}

#[test]
fn unreadable_file_yields_error_text() {
    let mut w = NativeWorker::new(None);
    let out = w.process_file("missing.js".to_string(), None);
    assert_eq!(out, "Error: Could not read missing.js");
    assert_eq!(w.transform_calls, 0);
}

#[test]
fn unchanged_bytes_hit_the_cache() {
    let mut w = NativeWorker::new(None);
    let out1 = w.process_file("a.js".to_string(), Some(b"hello".to_vec()));
    assert_eq!(w.transform_calls, 1);
    let out2 = w.process_file("a.js".to_string(), Some(b"hello".to_vec()));
    assert_eq!(out2, out1);
    assert_eq!(w.transform_calls, 1);
}

#[test]
fn changed_bytes_recompute() {
    let mut w = NativeWorker::new(None);
    let out1 = w.process_file("a.js".to_string(), Some(b"old".to_vec()));
    assert_eq!(out1, "/* a.js */ old");
    let out2 = w.process_file("a.js".to_string(), Some(b"new".to_vec()));
    assert_eq!(out2, "/* a.js */ new");
    assert_eq!(w.transform_calls, 2);
}

#[test]
fn batch_outputs_keep_input_order() {
    let mut w = NativeWorker::new(None);
    let paths = vec!["p1".to_string(), "p2".to_string(), "p3".to_string()];
    let contents = vec![
        Some(b"one".to_vec()),
        Some(b"two".to_vec()),
        Some(b"three".to_vec()),
    ];
    let outs = w.process_batch(paths, contents);
    assert_eq!(
        outs,
        vec![
            "/* p1 */ one".to_string(),
            "/* p2 */ two".to_string(),
            "/* p3 */ three".to_string(),
        ]
    );
}

#[test]
fn batch_continues_past_unreadable_files() {
    let mut w = NativeWorker::new(None);
    let paths = vec!["good".to_string(), "bad".to_string()];
    let contents = vec![Some(b"src".to_vec()), None];
    let outs = w.process_batch(paths, contents);
    assert_eq!(outs[0], "/* good */ src");
    assert_eq!(outs[1], "Error: Could not read bad");
}

#[test]
fn invalidate_is_cache_only() {
    let mut w = NativeWorker::new(None);
    w.process_file("a".to_string(), Some(b"src a".to_vec()));
    w.process_file("b".to_string(), Some(b"src b".to_vec()));
    w.graph.add_dependency(&"a".to_string(), &"b".to_string());
    w.invalidate("b".to_string());
    assert_eq!(
        w.graph.get_dependents(&"b".to_string()),
        vec!["a".to_string()]
    );
    assert_eq!(w.transform_calls, 2);
    w.process_file("b".to_string(), Some(b"src b".to_vec()));
    assert_eq!(w.transform_calls, 3);
}

#[test]
fn rebuild_reports_self_and_direct_dependents() {
    let mut w = NativeWorker::new(None);
    w.process_file("a".to_string(), Some(b"import b".to_vec()));
    w.process_file("b".to_string(), Some(b"src b".to_vec()));
    w.graph.add_dependency(&"a".to_string(), &"b".to_string());
    let affected = w.rebuild("b".to_string());
    assert_eq!(affected, vec!["b".to_string(), "a".to_string()]);
    assert_eq!(w.transform_calls, 2);
    w.process_file("a".to_string(), Some(b"import b".to_vec()));
    assert_eq!(w.transform_calls, 3);
}

#[test]
fn rebuild_of_unknown_path_reports_only_itself() {
    let mut w = NativeWorker::new(None);
    let affected = w.rebuild("never-seen".to_string());
    assert_eq!(affected, vec!["never-seen".to_string()]);
}

#[test]
fn cache_stats_report_entry_count() {
    let mut w = NativeWorker::new(None);
    assert_eq!(w.get_cache_stats(), "Cache size: 0");
    w.process_file("a".to_string(), Some(b"x".to_vec()));
    w.process_file("b".to_string(), Some(b"y".to_vec()));
    assert_eq!(w.get_cache_stats(), "Cache size: 2");
    w.clear_cache();
    assert_eq!(w.get_cache_stats(), "Cache size: 0");
}

#[test]
fn clear_cache_forces_recompute() {
    let mut w = NativeWorker::new(None);
    w.process_file("a".to_string(), Some(b"x".to_vec()));
    w.clear_cache();
    w.process_file("a".to_string(), Some(b"x".to_vec()));
    assert_eq!(w.transform_calls, 2);
}

#[test]
fn resolver_joins_referrer_and_specifier() {
    let r = Resolver::new();
    assert_eq!(r.resolve("b.js", "src/a.js"), Some("src/a.js/b.js".to_string()));
}

#[test]
fn worker_delegates_resolution() {
    let w = NativeWorker::new(None);
    let resolved = w.resolve_dependency("src/a.js".to_string(), "b.js".to_string());
    assert_eq!(resolved, Some("src/a.js/b.js".to_string()));
}

#[test]
fn lossy_decoding_replaces_invalid_bytes() {
    let mut w = NativeWorker::new(None);
    let out = w.process_file("bin".to_string(), Some(vec![0xff, 0xfe]));
    assert_eq!(out, "/* bin */ \u{fffd}\u{fffd}");
}

#[test]
fn end_to_end_change_propagation() {
    let mut w = NativeWorker::new(None);
    w.process_file("a".to_string(), Some(b"import b".to_vec()));
    w.process_file("b".to_string(), Some(b"v1".to_vec()));
    w.graph.add_dependency(&"a".to_string(), &"b".to_string());
    let out_b2 = w.process_file("b".to_string(), Some(b"v2".to_vec()));
    assert_eq!(out_b2, "/* b */ v2");
    let affected = w.rebuild("b".to_string());
    assert_eq!(affected, vec!["b".to_string(), "a".to_string()]);
    let calls_before = w.transform_calls;
    w.process_file("a".to_string(), Some(b"import b".to_vec()));
    assert_eq!(w.transform_calls, calls_before + 1);
}
