use ferrous_di::labeled_scopes::{ChildScope, LabeledScope, LabeledScopeExt, LabeledScopeRegistry};

/// A scope with nothing in it; children are fresh scopes.
struct PlainScope;

impl ChildScope for PlainScope {
    fn create_child(&self) -> Self {
        PlainScope
    }
}

/// A provider of plain scopes.
struct Provider;

impl LabeledScopeExt<PlainScope> for Provider {
    fn create_labeled_scope(&self, label: &'static str) -> LabeledScope<PlainScope> {
        LabeledScope::new(PlainScope, label)
    }
}

fn build() -> Provider {
    Provider
}

#[test]
fn test_labeled_scope_creation() {
    let provider = build();
    let scope = provider.create_labeled_scope("test_workflow");
    assert_eq!(scope.label(), "test_workflow");
    assert_eq!(scope.depth(), 0);
    assert!(scope.parent().is_none());
}

#[test]
fn test_scope_forking() {
    let provider = build();
    let workflow = provider.create_labeled_scope("workflow");
    let run = workflow.fork("run_001");
    let node = run.fork("transform");

    assert_eq!(workflow.label(), "workflow");
    assert_eq!(run.label(), "run_001");
    assert_eq!(node.label(), "transform");

    assert_eq!(workflow.depth(), 0);
    assert_eq!(run.depth(), 1);
    assert_eq!(node.depth(), 2);
}

#[test]
fn test_full_path() {
    let provider = build();
    let scope = provider.create_labeled_scope("workflow").fork("run_001").fork("transform_node");
    assert_eq!(scope.full_path(), "workflow/run_001/transform_node");
}

#[test]
fn test_ancestors() {
    let provider = build();
    let scope = provider.create_labeled_scope("workflow").fork("run_001").fork("transform");
    let ancestors = scope.ancestors();
    assert_eq!(ancestors, vec!["workflow", "run_001", "transform"]);
}

#[test]
fn test_find_ancestor() {
    let provider = build();
    let workflow = provider.create_labeled_scope("workflow");
    let run = workflow.fork("run_001");
    let node = run.fork("transform");

    let found_workflow = node.find_ancestor("workflow").unwrap();
    assert_eq!(found_workflow.label(), "workflow");

    let found_run = node.find_ancestor("run_001").unwrap();
    assert_eq!(found_run.label(), "run_001");

    assert!(node.find_ancestor("nonexistent").is_none());
}

#[test]
fn test_is_ancestor_of() {
    let provider = build();
    let workflow = provider.create_labeled_scope("workflow");
    let run = workflow.fork("run");
    let node = run.fork("node");

    assert!(workflow.is_ancestor_of(&node));
    assert!(run.is_ancestor_of(&node));
    assert!(node.is_ancestor_of(&node));
    assert!(!node.is_ancestor_of(&workflow));
}

#[test]
fn test_scope_metadata() {
    let provider = build();
    let scope = provider.create_labeled_scope("workflow").fork("run_001");
    let metadata = scope.metadata();
    assert_eq!(metadata.label, "run_001");
    assert_eq!(metadata.depth, 1);
    assert_eq!(metadata.full_path, "workflow/run_001");
    assert_eq!(metadata.ancestors, vec!["workflow", "run_001"]);
    assert_eq!(metadata.parent_label, Some("workflow"));
}

#[test]
fn test_scope_registry() {
    let mut registry = LabeledScopeRegistry::new();
    let provider = build();

    let scope1 = provider.create_labeled_scope("workflow_1");
    let scope2 = provider.create_labeled_scope("workflow_2");

    registry.register(&scope1);
    registry.register(&scope2);

    assert_eq!(registry.active_count(), 2);

    let active = registry.active_scopes();
    assert_eq!(active.len(), 2);

    registry.unregister(&scope1);
    assert_eq!(registry.active_count(), 1);

    registry.clear();
    assert_eq!(registry.active_count(), 0);
}

#[test]
fn test_registry_find_operations() {
    let mut registry = LabeledScopeRegistry::new();
    let provider = build();

    let workflow1 = provider.create_labeled_scope("workflow");
    let workflow2 = provider.create_labeled_scope("another_workflow");
    let run1 = workflow1.fork("run");

    registry.register(&workflow1);
    registry.register(&workflow2);
    registry.register(&run1);

    let workflows = registry.find_by_label("workflow");
    assert_eq!(workflows.len(), 1);

    let runs = registry.find_by_label("run");
    assert_eq!(runs.len(), 1);

    let depth_0 = registry.find_by_depth(0);
    assert_eq!(depth_0.len(), 2);

    let depth_1 = registry.find_by_depth(1);
    assert_eq!(depth_1.len(), 1);
}
