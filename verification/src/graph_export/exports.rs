//! Convenience functions for quick graph exports with default options.
use vstd::prelude::*;
use crate::error::DiResult;
use crate::graph_export::{
    GraphBuilder, ExportFormat, ExportOptions, DependencyGraph, is_fresh_graph, default_export,
};

verus! {

/// Exports the container's dependency graph as JSON.
pub fn to_json() -> (r: DiResult<String>)
    ensures
        exists|g: DependencyGraph| is_fresh_graph(g, false) && default_export(g, ExportFormat::Json, Seq::empty(), r),
{
    let b = GraphBuilder::new();
    let r = b.build_and_export_default(ExportFormat::Json);
    assert(b.options().type_filter@ =~= Seq::<String>::empty());
    r
}

/// Exports the container's dependency graph as YAML.
pub fn to_yaml() -> (r: DiResult<String>)
    ensures
        exists|g: DependencyGraph| is_fresh_graph(g, false) && default_export(g, ExportFormat::Yaml, Seq::empty(), r),
{
    let b = GraphBuilder::new();
    let r = b.build_and_export_default(ExportFormat::Yaml);
    assert(b.options().type_filter@ =~= Seq::<String>::empty());
    r
}

/// Exports the container's dependency graph as DOT format.
pub fn to_dot() -> (r: DiResult<String>)
    ensures
        exists|g: DependencyGraph| is_fresh_graph(g, false) && default_export(g, ExportFormat::Dot, Seq::empty(), r),
{
    let b = GraphBuilder::new();
    let r = b.build_and_export_default(ExportFormat::Dot);
    assert(b.options().type_filter@ =~= Seq::<String>::empty());
    r
}

/// Exports the container's dependency graph as Mermaid format.
pub fn to_mermaid() -> (r: DiResult<String>)
    ensures
        exists|g: DependencyGraph| is_fresh_graph(g, false) && default_export(g, ExportFormat::Mermaid, Seq::empty(), r),
{
    let b = GraphBuilder::new();
    let r = b.build_and_export_default(ExportFormat::Mermaid);
    assert(b.options().type_filter@ =~= Seq::<String>::empty());
    r
}

/// Exports with custom options.
pub fn with_options(format: ExportFormat, options: ExportOptions) -> (r: DiResult<String>)
    ensures
        exists|g: DependencyGraph| is_fresh_graph(g, options.include_layout)
            && default_export(g, format, options.type_filter@, r),
{
    GraphBuilder::new().with_options(options).build_and_export_default(format)
}

} // verus!
