//! A schema compiler for nested path spaces.
//!
//! A schema describes a tree of named segments; each segment may bind typed
//! parameters and either branches into further named segments or terminates
//! in a typed leaf value. This crate turns such a schema into a family of
//! strongly-typed accessor declarations: for every segment a `Path`, an
//! optional `Prefix`, a `Key`, a `Params` bundle and child-selector unions,
//! each in a lightweight (borrowing) and an owned representation.
//!
//! The pipeline runs in three verified stages: the semantic tree builder
//! (`syntax` input into an `ir` tree, decomposing parameter lists into
//! chains of single-parameter nodes), the duplicate resolver (pruning
//! sibling name collisions in place), and the type-family generator
//! (emitting the declaration families as plain data for a renderer).

pub mod builder;
pub mod generate;
pub mod ir;
pub mod output;
pub mod resolve;
pub mod syntax;

use vstd::prelude::*;

verus! {

/// The verified pipeline behind the schema macro: builds the semantic
/// tree, resolves duplicate sibling names, and generates the declaration
/// families. The caller renders the declarations into source text and
/// reports the diagnostics.
pub fn schema_internal(input: &syntax::Input, settings: ir::Settings) -> (r: (
    output::ModuleOutput,
    Vec<ir::Diagnostic>,
))
    ensures
        r.0@ == generate::spec_module(
            resolve::pruned_node(builder::built_root(input@)),
            true,
            settings.names@,
            settings.extensions.clap,
        ),
        ir::diagnostic_views(r.1@) == resolve::pruned_diags(builder::built_root(input@)),
{
    let (compiled, diags) = ir::Ir::from_input(input, settings);
    proof {
        builder::lemma_built_root_named(input@);
        resolve::lemma_pruned_named(builder::built_root(input@));
        assert(generate::generable(compiled.root@, true));
    }
    let out = compiled.generate();
    (out, diags)
}

} // verus!
