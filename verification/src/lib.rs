//! A compiler for a small JSON-encoded imperative language ("jsonlang"),
//! lowering it to a textual stack-machine module (WebAssembly text).
//!
//! The pipeline runs in seven stages, each consuming the previous
//! stage's representation and producing a new one: control-flow
//! desugaring, scope resolution, type-polarity fixup, operator
//! polyfilling (with the embedded CORDIC math library spliced in for
//! exponentiation), expression flattening, branch labeling, and final
//! text emission.  [`compile`] runs them all; every stage is also public
//! on its own, with a contract equating its result with a mathematical
//! specification of the transformation.
use vstd::prelude::*;

pub mod error;
pub mod seq_util;
pub mod jsonlang;
pub mod control_simplification;
pub mod variable_analysis;
pub mod fixup_types;
pub mod polyfill_ops;
pub mod cordic_polyfill;
pub mod collapse_expressions;
pub mod assign_labels;
pub mod codegen;

verus! {

/// What compiling a whole source program returns: the module text, or
/// the first stage failure.
pub open spec fn compile_spec(p: crate::jsonlang::JsonLangView) -> Result<
    Seq<char>,
    crate::error::CompileError,
> {
    match crate::control_simplification::simplify_top_seq_spec(p.statements) {
        Err(err) => Err(err),
        Ok(sim) => match crate::variable_analysis::analyze_top_spec(
            crate::variable_analysis::analysis_empty_spec(),
            sim,
        ) {
            Err(err) => Err(err),
            Ok(analyzed) => {
                let fixed = crate::fixup_types::fix_analysis_spec(analyzed);
                match crate::polyfill_ops::polyfill_ops_spec(fixed) {
                    Err(err) => Err(err),
                    Ok(filled) => {
                        let flat = crate::collapse_expressions::collapse_spec(filled);
                        match crate::assign_labels::assign_labels_spec(flat) {
                            Err(err) => Err(err),
                            Ok(labeled) => crate::codegen::emit_program_spec(labeled),
                        }
                    },
                }
            },
        },
    }
}

/// Compiles one source program to its module text, through every stage
/// of the pipeline.
pub fn compile(program: crate::jsonlang::JsonLang) -> (r: Result<
    String,
    crate::error::CompileError,
>)
    ensures
        (match r {
            Ok(s) => compile_spec(crate::jsonlang::program_view(program)) == Ok::<
                Seq<char>,
                crate::error::CompileError,
            >(s@),
            Err(err) => compile_spec(crate::jsonlang::program_view(program)) == Err::<
                Seq<char>,
                crate::error::CompileError,
            >(err),
        }),
{
    let simplified = match crate::control_simplification::top_simplify_control_structures(
        program,
    ) {
        Ok(v) => v,
        Err(err) => return Err(err),
    };
    let analyzed = match crate::variable_analysis::top_analyze_variables(simplified) {
        Ok(a) => a,
        Err(err) => return Err(err),
    };
    let fixed = crate::fixup_types::fix_types(analyzed);
    let filled = match crate::polyfill_ops::polyfill_ops(fixed) {
        Ok(a) => a,
        Err(err) => return Err(err),
    };
    let flat = crate::collapse_expressions::collapse_expressions(filled);
    let labeled = match crate::assign_labels::assign_labels(flat) {
        Ok(a) => a,
        Err(err) => return Err(err),
    };
    crate::codegen::emit_wasm(labeled)
}


/// The function-table completeness of the pipeline: for any source
/// program that reaches the branch labeler, the name table handed to
/// the emitter maps one name to every dense function index and no two
/// names to one index — the block reservation of the splice indices
/// makes a collision between the synthesized helpers impossible.
pub proof fn lemma_pipeline_table_injective(p: crate::jsonlang::JsonLangView)
    ensures
        (match crate::control_simplification::simplify_top_seq_spec(p.statements) {
            Ok(sim) => match crate::variable_analysis::analyze_top_spec(
                crate::variable_analysis::analysis_empty_spec(),
                sim,
            ) {
                Ok(analyzed) => match crate::polyfill_ops::polyfill_ops_spec(
                    crate::fixup_types::fix_analysis_spec(analyzed),
                ) {
                    Ok(filled) => match crate::assign_labels::assign_labels_spec(
                        crate::collapse_expressions::collapse_spec(filled),
                    ) {
                        Ok(labeled) => crate::variable_analysis::scope_dense_indices(
                            labeled.funcname_map,
                        ) && crate::variable_analysis::scope_names_unique(labeled.funcname_map),
                        Err(_) => true,
                    },
                    Err(_) => true,
                },
                Err(_) => true,
            },
            Err(_) => true,
        }),
{
    if let Ok(sim) = crate::control_simplification::simplify_top_seq_spec(p.statements) {
        let empty = crate::variable_analysis::analysis_empty_spec();
        crate::variable_analysis::lemma_analyze_top_table_wf(empty, sim);
        if let Ok(analyzed) = crate::variable_analysis::analyze_top_spec(empty, sim) {
            let fixed = crate::fixup_types::fix_analysis_spec(analyzed);
            crate::polyfill_ops::lemma_reserved_free_table_wf(fixed.funcname_map);
            crate::polyfill_ops::lemma_polyfill_ops_table_injective(fixed);
        }
    }
}

} // verus!
