use vstd::prelude::*;

pub mod text;
pub mod ty;
pub mod subst;
pub mod registry;
pub mod generics;
pub mod unify_laws;
pub mod tyops;
pub mod channels;
pub mod ast;
pub mod desugar;
pub mod desugar_laws;
pub mod cycle;
pub mod log_template;
pub mod tast;
pub mod ascription;
pub mod dot_access;
pub mod action_call;
pub mod constructors;
pub mod module_checks;
pub mod apply;
pub mod format;
pub mod const_eval;
pub mod expr_utils;
pub mod suggest;
pub mod guards;
pub mod dict_args;
pub mod log_synthesis;
pub mod directives;
pub mod directives_laws;

verus! {
}
