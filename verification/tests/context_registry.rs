use coraldesk::tools::context_registry::{ContextRegistry, MAX_ENTRIES, MAX_ENTRY_CHARS};

fn put(registry: &mut ContextRegistry, agent: &str, task: &str, output: &str) -> u32 {
    registry.register(agent.to_string(), task.to_string(), output.to_string())
}

#[test]
fn test_register_and_get() {
    let mut registry = ContextRegistry::new();
    let id1 = put(&mut registry, "coder", "implement login", "fn login() {}");
    let id2 = put(&mut registry, "critic", "review login", "looks good");

    assert_eq!(id1, 1);
    assert_eq!(id2, 2);

    let entry = registry.get(1).unwrap();
    assert_eq!(entry.agent, "coder");
    assert_eq!(entry.output, "fn login() {}");

    assert!(registry.get(99).is_none());
}

#[test]
fn test_resolve_refs() {
    let mut registry = ContextRegistry::new();
    put(&mut registry, "architect", "design API", "use REST");
    put(&mut registry, "coder", "implement API", "fn api() {}");
    put(&mut registry, "critic", "review API", "all fine");

    let (combined, missing) = registry.resolve_refs(&[1, 3]);
    assert!(missing.is_empty());
    assert!(combined.contains("[Context #1]"));
    assert!(combined.contains("use REST"));
    assert!(combined.contains("[Context #3]"));
    assert!(combined.contains("all fine"));
    assert!(!combined.contains("fn api()"));
    assert_eq!(
        combined,
        "[Context #1] (from architect — design API)\nuse REST\n\n\
         [Context #3] (from critic — review API)\nall fine"
    );
}

#[test]
fn test_resolve_refs_with_missing() {
    let mut registry = ContextRegistry::new();
    put(&mut registry, "coder", "task", "output");

    let (_, missing) = registry.resolve_refs(&[1, 5, 10]);
    assert_eq!(missing, vec![5, 10]);
}

#[test]
fn references_keep_their_order_and_repeat() {
    let mut registry = ContextRegistry::new();
    put(&mut registry, "a", "s", "x");
    put(&mut registry, "b", "t", "y");
    let (combined, missing) = registry.resolve_refs(&[2, 7, 1, 7, 2]);
    assert_eq!(
        combined,
        "[Context #2] (from b — t)\ny\n\n[Context #1] (from a — s)\nx\n\n[Context #2] (from b — t)\ny"
    );
    assert_eq!(missing, vec![7, 7]);
    let (nothing, none) = registry.resolve_refs(&[]);
    assert_eq!(nothing, "");
    assert!(none.is_empty());
}

#[test]
fn test_fifo_eviction() {
    let mut registry = ContextRegistry::new();
    for i in 0..(MAX_ENTRIES + 5) {
        put(
            &mut registry,
            "agent",
            &format!("task {i}"),
            &format!("output {i}"),
        );
    }

    assert_eq!(registry.len(), MAX_ENTRIES);
    assert!(registry.get(1).is_none());
    assert!(registry.get(5).is_none());
    assert!(registry.get(6).is_some());
    let last = registry.get((MAX_ENTRIES + 5) as u32).unwrap();
    assert_eq!(last.output, format!("output {}", MAX_ENTRIES + 4));
    assert_eq!(registry.list_summaries()[0].0, 6);
}

#[test]
fn test_list_summaries() {
    let mut registry = ContextRegistry::new();
    put(&mut registry, "architect", "design module", "output1");
    put(&mut registry, "coder", "implement module", "output2");

    let summaries = registry.list_summaries();
    assert_eq!(summaries.len(), 2);
    assert_eq!(summaries[0].0, 1);
    assert_eq!(summaries[0].1, "architect");
    assert_eq!(summaries[1].0, 2);
    assert_eq!(summaries[1].1, "coder");
    assert_eq!(summaries[1].2, "implement module");
}

#[test]
fn long_tasks_are_cut_in_summaries() {
    let mut registry = ContextRegistry::new();
    registry.register_at("a".into(), "t".repeat(120), "o".into(), 17);
    registry.register_at("a".into(), "t".repeat(121), "o".into(), 18);
    assert!(registry.can_list());
    let summaries = registry.list_summaries();
    assert_eq!(summaries[0], (1, "a".to_string(), "t".repeat(120), 17));
    assert_eq!(
        summaries[1],
        (2, "a".to_string(), format!("{}...", "t".repeat(120)), 18)
    );
}

#[test]
fn task_that_cannot_be_cut_cannot_be_listed() {
    let mut registry = ContextRegistry::new();
    registry.register_at("a".into(), format!("{}é", "t".repeat(119)), "o".into(), 0);
    assert!(!registry.can_list());
    let mut other = ContextRegistry::new();
    other.register_at("a".into(), format!("{}éx", "t".repeat(118)), "o".into(), 0);
    assert!(other.can_list());
    assert_eq!(
        other.list_summaries()[0].2,
        format!("{}é...", "t".repeat(118))
    );
}

#[test]
fn test_truncation() {
    let mut registry = ContextRegistry::new();
    let long_output = "x".repeat(MAX_ENTRY_CHARS + 1000);
    put(&mut registry, "agent", "task", &long_output);

    let entry = registry.get(1).unwrap();
    assert!(entry.output.len() <= MAX_ENTRY_CHARS + 20);
    assert!(entry.output.ends_with("... [truncated]"));
    assert_eq!(
        entry.output,
        format!("{}\n... [truncated]", "x".repeat(MAX_ENTRY_CHARS))
    );
}

#[test]
fn longest_output_is_kept_whole() {
    let mut registry = ContextRegistry::new();
    let output = "é".repeat(MAX_ENTRY_CHARS);
    put(&mut registry, "agent", "task", &output);
    assert_eq!(registry.get(1).unwrap().output, output);
}

#[test]
fn registry_begins_empty() {
    let mut registry = ContextRegistry::default();
    assert!(registry.is_empty());
    assert_eq!(registry.len(), 0);
    assert!(registry.get(0).is_none());
    put(&mut registry, "agent", "task", "output");
    assert!(!registry.is_empty());
}

#[test]
fn entries_bear_the_time_of_the_clock() {
    let mut registry = ContextRegistry::new();
    put(&mut registry, "agent", "task", "output");
    // 2024-01-01T00:00:00Z
    assert!(registry.get(1).unwrap().created_at > 1_704_067_200);
}
