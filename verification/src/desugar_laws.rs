//! What the desugaring passes guarantee of their output.

use vstd::prelude::*;

use crate::ast::{
    SExpr, Span, SpecExpr, SpecGuardClause, SpecSpanned,
    SpecWithBinding,
};
use crate::desugar::{
    is_first_hole, spec_apply_pipe, spec_count_holes, spec_desugar_holes, spec_desugar_holes_guards,
    spec_desugar_holes_arms, spec_desugar_holes_select_arms, spec_desugar_holes_seq,
    spec_desugar_holes_withs, spec_desugar_pipes, spec_desugar_pipes_arms,
    spec_desugar_pipes_guards, spec_desugar_pipes_select_arms, spec_desugar_pipes_seq,
    spec_desugar_pipes_withs, spec_desugar_pipes_bopt, spec_desugar_holes_bopt, spec_filled_arg, spec_hole_ident, spec_hole_lambda,
    spec_is_hole_or_ascribed, spec_peel_grouping, lemma_no_holes, spec_desugar_holes_args, spec_lone_hole,
};

verus! {

/// No `|>` occurs anywhere in `e`.
pub open spec fn spec_no_pipe(e: SExpr) -> bool
    decreases e,
{
    match e.node {
        SpecExpr::Pipe { .. } => false,
        SpecExpr::PipeFallback { lhs, rhs } => spec_no_pipe(*lhs) && spec_no_pipe(*rhs),
        SpecExpr::Apply { callee, args } => spec_no_pipe(*callee) && (forall|i: int| 0 <= i < args.len() ==> spec_no_pipe(#[trigger] args[i])),
        SpecExpr::Let { name: _, value } => spec_no_pipe(*value),
        SpecExpr::Var { name: _, value } => spec_no_pipe(*value),
        SpecExpr::Lambda { patterns: _, body, guards, with_bindings } => spec_no_pipe(*body) && (forall|i: int| 0 <= i < guards.len() ==> (match #[trigger] guards[i].condition { Some(c) => spec_no_pipe(c), None => true }) && spec_no_pipe(guards[i].body)) && (forall|i: int| 0 <= i < with_bindings.len() ==> spec_no_pipe(#[trigger] with_bindings[i].value)),
        SpecExpr::Match { scrutinee, arms } => spec_no_pipe(*scrutinee) && (forall|i: int| 0 <= i < arms.len() ==> (match #[trigger] arms[i].guard { Some(c) => spec_no_pipe(c), None => true }) && spec_no_pipe(arms[i].body)),
        SpecExpr::TypeAscription { expr, ty: _ } => spec_no_pipe(*expr),
        SpecExpr::Grouping { inner } => spec_no_pipe(*inner),
        SpecExpr::Tuple { elements } => (forall|i: int| 0 <= i < elements.len() ==> spec_no_pipe(#[trigger] elements[i])),
        SpecExpr::ActionCall { callee: _, args } => spec_no_pipe(*args),
        SpecExpr::Return(inner) => spec_no_pipe(*inner),
        SpecExpr::Loop { body } => (forall|i: int| 0 <= i < body.len() ==> spec_no_pipe(#[trigger] body[i])),
        SpecExpr::Block { stmts } => (forall|i: int| 0 <= i < stmts.len() ==> spec_no_pipe(#[trigger] stmts[i])),
        SpecExpr::Question(inner) => spec_no_pipe(*inner),
        SpecExpr::Reassign { name: _, value } => spec_no_pipe(*value),
        SpecExpr::DotAccess { expr, index: _ } => spec_no_pipe(*expr),
        SpecExpr::ListLit { elements } => (forall|i: int| 0 <= i < elements.len() ==> spec_no_pipe(#[trigger] elements[i])),
        SpecExpr::ArrayLit { elements } => (forall|i: int| 0 <= i < elements.len() ==> spec_no_pipe(#[trigger] elements[i])),
        SpecExpr::RangeLit { start, step, end, inclusive: _ } => spec_no_pipe(*start) && spec_no_pipe(*step) && spec_no_pipe(*end),
        SpecExpr::ForIn { var_name: _, iterable, body } => spec_no_pipe(*iterable) && (forall|i: int| 0 <= i < body.len() ==> spec_no_pipe(#[trigger] body[i])),
        SpecExpr::In { item, collection } => spec_no_pipe(*item) && spec_no_pipe(*collection),
        SpecExpr::ChannelSend { channel, value } => spec_no_pipe(*channel) && spec_no_pipe(*value),
        SpecExpr::ChannelRecv { channel, bind_name: _ } => spec_no_pipe(*channel),
        SpecExpr::Select { arms, timeout_ms, timeout_body } => (forall|i: int| 0 <= i < arms.len() ==> spec_no_pipe(#[trigger] arms[i].channel) && spec_no_pipe(arms[i].body)) && (match timeout_ms { Some(x) => spec_no_pipe(*x), None => true }) && (match timeout_body { Some(x) => spec_no_pipe(*x), None => true }),
        _ => true,
    }
}

pub open spec fn spec_no_pipe_seq(s: Seq<SExpr>) -> bool
{
    forall|i: int| 0 <= i < s.len() ==> spec_no_pipe(#[trigger] s[i])
}

pub open spec fn spec_no_pipe_opt(o: Option<SExpr>) -> bool
{
    match o {
        Some(x) => spec_no_pipe(x),
        None => true,
    }
}

pub open spec fn spec_no_pipe_guards(s: Seq<SpecGuardClause>) -> bool
{
    forall|i: int| 0 <= i < s.len() ==> spec_no_pipe_opt(#[trigger] s[i].condition) && spec_no_pipe(s[i].body)
}

pub open spec fn spec_no_pipe_withs(s: Seq<SpecWithBinding>) -> bool
{
    forall|i: int| 0 <= i < s.len() ==> spec_no_pipe(#[trigger] s[i].value)
}

/// No hole is left in `e`, bare or ascribed; a `|>` counts as settled,
/// since the hole pass does not enter it.
pub open spec fn spec_hole_free(e: SExpr) -> bool
    decreases e,
{
    match e.node {
        SpecExpr::Hole => false,
        SpecExpr::Pipe { .. } => true,
        SpecExpr::PipeFallback { lhs, rhs } => spec_hole_free(*lhs) && spec_hole_free(*rhs),
        SpecExpr::Apply { callee, args } => spec_hole_free(*callee) && (forall|i: int| 0 <= i < args.len() ==> spec_hole_free(#[trigger] args[i])),
        SpecExpr::Let { name: _, value } => spec_hole_free(*value),
        SpecExpr::Var { name: _, value } => spec_hole_free(*value),
        SpecExpr::Lambda { patterns: _, body, guards, with_bindings } => spec_hole_free(*body) && (forall|i: int| 0 <= i < guards.len() ==> (match #[trigger] guards[i].condition { Some(c) => spec_hole_free(c), None => true }) && spec_hole_free(guards[i].body)) && (forall|i: int| 0 <= i < with_bindings.len() ==> spec_hole_free(#[trigger] with_bindings[i].value)),
        SpecExpr::Match { scrutinee, arms } => spec_hole_free(*scrutinee) && (forall|i: int| 0 <= i < arms.len() ==> (match #[trigger] arms[i].guard { Some(c) => spec_hole_free(c), None => true }) && spec_hole_free(arms[i].body)),
        SpecExpr::TypeAscription { expr, ty: _ } => spec_hole_free(*expr),
        SpecExpr::Grouping { inner } => spec_hole_free(*inner),
        SpecExpr::Tuple { elements } => (forall|i: int| 0 <= i < elements.len() ==> spec_hole_free(#[trigger] elements[i])),
        SpecExpr::ActionCall { callee: _, args } => spec_hole_free(*args),
        SpecExpr::Return(inner) => spec_hole_free(*inner),
        SpecExpr::Loop { body } => (forall|i: int| 0 <= i < body.len() ==> spec_hole_free(#[trigger] body[i])),
        SpecExpr::Block { stmts } => (forall|i: int| 0 <= i < stmts.len() ==> spec_hole_free(#[trigger] stmts[i])),
        SpecExpr::Question(inner) => spec_hole_free(*inner),
        SpecExpr::Reassign { name: _, value } => spec_hole_free(*value),
        SpecExpr::DotAccess { expr, index: _ } => spec_hole_free(*expr),
        SpecExpr::ListLit { elements } => (forall|i: int| 0 <= i < elements.len() ==> spec_hole_free(#[trigger] elements[i])),
        SpecExpr::ArrayLit { elements } => (forall|i: int| 0 <= i < elements.len() ==> spec_hole_free(#[trigger] elements[i])),
        SpecExpr::RangeLit { start, step, end, inclusive: _ } => spec_hole_free(*start) && spec_hole_free(*step) && spec_hole_free(*end),
        SpecExpr::ForIn { var_name: _, iterable, body } => spec_hole_free(*iterable) && (forall|i: int| 0 <= i < body.len() ==> spec_hole_free(#[trigger] body[i])),
        SpecExpr::In { item, collection } => spec_hole_free(*item) && spec_hole_free(*collection),
        SpecExpr::ChannelSend { channel, value } => spec_hole_free(*channel) && spec_hole_free(*value),
        SpecExpr::ChannelRecv { channel, bind_name: _ } => spec_hole_free(*channel),
        SpecExpr::Select { arms, timeout_ms, timeout_body } => (forall|i: int| 0 <= i < arms.len() ==> spec_hole_free(#[trigger] arms[i].channel) && spec_hole_free(arms[i].body)) && (match timeout_ms { Some(x) => spec_hole_free(*x), None => true }) && (match timeout_body { Some(x) => spec_hole_free(*x), None => true }),
        _ => true,
    }
}

pub open spec fn spec_hole_free_seq(s: Seq<SExpr>) -> bool
{
    forall|i: int| 0 <= i < s.len() ==> spec_hole_free(#[trigger] s[i])
}

pub open spec fn spec_hole_free_opt(o: Option<SExpr>) -> bool
{
    match o {
        Some(x) => spec_hole_free(x),
        None => true,
    }
}

pub open spec fn spec_hole_free_guards(s: Seq<SpecGuardClause>) -> bool
{
    forall|i: int| 0 <= i < s.len() ==> spec_hole_free_opt(#[trigger] s[i].condition) && spec_hole_free(s[i].body)
}

pub open spec fn spec_hole_free_withs(s: Seq<SpecWithBinding>) -> bool
{
    forall|i: int| 0 <= i < s.len() ==> spec_hole_free(#[trigger] s[i].value)
}

/// After the pipe pass no `|>` is left, whatever the input.
#[verifier::spinoff_prover]
#[verifier::rlimit(50)]
pub proof fn law_desugar_pipes_removes_pipes(e: SExpr)
    ensures
        spec_no_pipe(spec_desugar_pipes(e)),
    decreases e,
{
    match e.node {
        SpecExpr::Pipe { lhs, rhs } => {
            law_desugar_pipes_removes_pipes(*lhs);
            law_desugar_pipes_removes_pipes(*rhs);
            lemma_apply_pipe_no_pipe(
                spec_desugar_pipes(*lhs),
                spec_desugar_pipes(*rhs),
                e.span,
            );
        },
        SpecExpr::PipeFallback { lhs, rhs } => {
            law_desugar_pipes_removes_pipes(*lhs);
            law_desugar_pipes_removes_pipes(*rhs);
            assert(spec_no_pipe(spec_desugar_pipes(e)));
        },
        SpecExpr::Apply { callee, args } => {
            law_desugar_pipes_removes_pipes(*callee);
            assert(spec_desugar_pipes_seq(args).len() == args.len());
            assert forall|i: int| 0 <= i < args.len() implies spec_no_pipe(#[trigger] spec_desugar_pipes_seq(args)[i]) by {
                law_desugar_pipes_removes_pipes(args[i]);
            }
            assert(spec_no_pipe(spec_desugar_pipes(e)));
        },
        SpecExpr::Let { name: _, value } => {
            law_desugar_pipes_removes_pipes(*value);
            assert(spec_no_pipe(spec_desugar_pipes(e)));
        },
        SpecExpr::Var { name: _, value } => {
            law_desugar_pipes_removes_pipes(*value);
            assert(spec_no_pipe(spec_desugar_pipes(e)));
        },
        SpecExpr::Lambda { patterns: _, body, guards, with_bindings } => {
            law_desugar_pipes_removes_pipes(*body);
            assert(spec_desugar_pipes_guards(guards).len() == guards.len());
            assert forall|i: int| 0 <= i < guards.len() implies spec_no_pipe_opt(#[trigger] spec_desugar_pipes_guards(guards)[i].condition)
                && spec_no_pipe(spec_desugar_pipes_guards(guards)[i].body) by {
                match guards[i].condition {
                    Some(c) => law_desugar_pipes_removes_pipes(c),
                    None => {},
                }
                law_desugar_pipes_removes_pipes(guards[i].body);
            }
            assert(spec_desugar_pipes_withs(with_bindings).len() == with_bindings.len());
            assert forall|i: int| 0 <= i < with_bindings.len() implies spec_no_pipe(#[trigger] spec_desugar_pipes_withs(with_bindings)[i].value) by {
                law_desugar_pipes_removes_pipes(with_bindings[i].value);
            }
            assert(spec_no_pipe(spec_desugar_pipes(e)));
        },
        SpecExpr::Match { scrutinee, arms } => {
            law_desugar_pipes_removes_pipes(*scrutinee);
            assert(spec_desugar_pipes_arms(arms).len() == arms.len());
            assert forall|i: int| 0 <= i < arms.len() implies spec_no_pipe_opt(#[trigger] spec_desugar_pipes_arms(arms)[i].guard)
                && spec_no_pipe(spec_desugar_pipes_arms(arms)[i].body) by {
                match arms[i].guard {
                    Some(c) => law_desugar_pipes_removes_pipes(c),
                    None => {},
                }
                law_desugar_pipes_removes_pipes(arms[i].body);
            }
            assert(spec_no_pipe(spec_desugar_pipes(e)));
        },
        SpecExpr::TypeAscription { expr, ty: _ } => {
            law_desugar_pipes_removes_pipes(*expr);
            assert(spec_no_pipe(spec_desugar_pipes(e)));
        },
        SpecExpr::Grouping { inner } => {
            law_desugar_pipes_removes_pipes(*inner);
            assert(spec_no_pipe(spec_desugar_pipes(e)));
        },
        SpecExpr::Tuple { elements } => {
            assert(spec_desugar_pipes_seq(elements).len() == elements.len());
            assert forall|i: int| 0 <= i < elements.len() implies spec_no_pipe(#[trigger] spec_desugar_pipes_seq(elements)[i]) by {
                law_desugar_pipes_removes_pipes(elements[i]);
            }
            assert(spec_no_pipe(spec_desugar_pipes(e)));
        },
        SpecExpr::ActionCall { callee: _, args } => {
            law_desugar_pipes_removes_pipes(*args);
            assert(spec_no_pipe(spec_desugar_pipes(e)));
        },
        SpecExpr::Return(inner) => {
            law_desugar_pipes_removes_pipes(*inner);
            assert(spec_no_pipe(spec_desugar_pipes(e)));
        },
        SpecExpr::Loop { body } => {
            assert(spec_desugar_pipes_seq(body).len() == body.len());
            assert forall|i: int| 0 <= i < body.len() implies spec_no_pipe(#[trigger] spec_desugar_pipes_seq(body)[i]) by {
                law_desugar_pipes_removes_pipes(body[i]);
            }
            assert(spec_no_pipe(spec_desugar_pipes(e)));
        },
        SpecExpr::Block { stmts } => {
            assert(spec_desugar_pipes_seq(stmts).len() == stmts.len());
            assert forall|i: int| 0 <= i < stmts.len() implies spec_no_pipe(#[trigger] spec_desugar_pipes_seq(stmts)[i]) by {
                law_desugar_pipes_removes_pipes(stmts[i]);
            }
            assert(spec_no_pipe(spec_desugar_pipes(e)));
        },
        SpecExpr::Question(inner) => {
            law_desugar_pipes_removes_pipes(*inner);
            assert(spec_no_pipe(spec_desugar_pipes(e)));
        },
        SpecExpr::Reassign { name: _, value } => {
            law_desugar_pipes_removes_pipes(*value);
            assert(spec_no_pipe(spec_desugar_pipes(e)));
        },
        SpecExpr::DotAccess { expr, index: _ } => {
            law_desugar_pipes_removes_pipes(*expr);
            assert(spec_no_pipe(spec_desugar_pipes(e)));
        },
        SpecExpr::ListLit { elements } => {
            assert(spec_desugar_pipes_seq(elements).len() == elements.len());
            assert forall|i: int| 0 <= i < elements.len() implies spec_no_pipe(#[trigger] spec_desugar_pipes_seq(elements)[i]) by {
                law_desugar_pipes_removes_pipes(elements[i]);
            }
            assert(spec_no_pipe(spec_desugar_pipes(e)));
        },
        SpecExpr::ArrayLit { elements } => {
            assert(spec_desugar_pipes_seq(elements).len() == elements.len());
            assert forall|i: int| 0 <= i < elements.len() implies spec_no_pipe(#[trigger] spec_desugar_pipes_seq(elements)[i]) by {
                law_desugar_pipes_removes_pipes(elements[i]);
            }
            assert(spec_no_pipe(spec_desugar_pipes(e)));
        },
        SpecExpr::RangeLit { start, step, end, inclusive: _ } => {
            law_desugar_pipes_removes_pipes(*start);
            law_desugar_pipes_removes_pipes(*step);
            law_desugar_pipes_removes_pipes(*end);
            assert(spec_no_pipe(spec_desugar_pipes(e)));
        },
        SpecExpr::ForIn { var_name: _, iterable, body } => {
            law_desugar_pipes_removes_pipes(*iterable);
            assert(spec_desugar_pipes_seq(body).len() == body.len());
            assert forall|i: int| 0 <= i < body.len() implies spec_no_pipe(#[trigger] spec_desugar_pipes_seq(body)[i]) by {
                law_desugar_pipes_removes_pipes(body[i]);
            }
            assert(spec_no_pipe(spec_desugar_pipes(e)));
        },
        SpecExpr::In { item, collection } => {
            law_desugar_pipes_removes_pipes(*item);
            law_desugar_pipes_removes_pipes(*collection);
            assert(spec_no_pipe(spec_desugar_pipes(e)));
        },
        SpecExpr::ChannelSend { channel, value } => {
            law_desugar_pipes_removes_pipes(*channel);
            law_desugar_pipes_removes_pipes(*value);
            assert(spec_no_pipe(spec_desugar_pipes(e)));
        },
        SpecExpr::ChannelRecv { channel, bind_name: _ } => {
            law_desugar_pipes_removes_pipes(*channel);
            assert(spec_no_pipe(spec_desugar_pipes(e)));
        },
        SpecExpr::Select { arms, timeout_ms, timeout_body } => {
            assert(spec_desugar_pipes_select_arms(arms).len() == arms.len());
            assert forall|i: int| 0 <= i < arms.len() implies spec_no_pipe(#[trigger] spec_desugar_pipes_select_arms(arms)[i].channel)
                && spec_no_pipe(spec_desugar_pipes_select_arms(arms)[i].body) by {
                law_desugar_pipes_removes_pipes(arms[i].channel);
                law_desugar_pipes_removes_pipes(arms[i].body);
            }
            match timeout_ms {
                Some(x) => {
                    law_desugar_pipes_removes_pipes(*x);
                    assert(spec_desugar_pipes_bopt(timeout_ms) == Some(Box::new(spec_desugar_pipes(*x))));
                },
                None => {},
            }
            match timeout_body {
                Some(x) => {
                    law_desugar_pipes_removes_pipes(*x);
                    assert(spec_desugar_pipes_bopt(timeout_body) == Some(Box::new(spec_desugar_pipes(*x))));
                },
                None => {},
            }
            assert(spec_no_pipe(spec_desugar_pipes(e)));
        },
        _ => {},
    }
}

/// The hole pass introduces no `|>`.
#[verifier::spinoff_prover]
#[verifier::rlimit(50)]
pub proof fn law_desugar_holes_keeps_no_pipe(e: SExpr)
    requires
        spec_no_pipe(e),
    ensures
        spec_no_pipe(spec_desugar_holes(e)),
    decreases e,
{
    match e.node {
        SpecExpr::Hole => { lemma_lone_hole(e); },
        SpecExpr::Pipe { .. } => {},
        SpecExpr::PipeFallback { lhs, rhs } => {
            law_desugar_holes_keeps_no_pipe(*lhs);
            law_desugar_holes_keeps_no_pipe(*rhs);
            assert(spec_no_pipe(spec_desugar_holes(e)));
        },
        SpecExpr::Apply { callee, args } => {
            law_desugar_holes_keeps_no_pipe(*callee);
            assert forall|i: int| 0 <= i < args.len() implies spec_no_pipe(
                #[trigger] spec_desugar_holes_args(args)[i],
            ) by {
                if !spec_is_hole_or_ascribed(args[i].node) {
                    law_desugar_holes_keeps_no_pipe(args[i]);
                }
            }
            lemma_hole_lambda_no_pipe(spec_desugar_holes(*callee), spec_desugar_holes_args(args), e.span);
        },
        SpecExpr::Let { name: _, value } => {
            law_desugar_holes_keeps_no_pipe(*value);
            assert(spec_no_pipe(spec_desugar_holes(e)));
        },
        SpecExpr::Var { name: _, value } => {
            law_desugar_holes_keeps_no_pipe(*value);
            assert(spec_no_pipe(spec_desugar_holes(e)));
        },
        SpecExpr::Lambda { patterns: _, body, guards, with_bindings } => {
            law_desugar_holes_keeps_no_pipe(*body);
            assert(spec_desugar_holes_guards(guards).len() == guards.len());
            assert forall|i: int| 0 <= i < guards.len() implies spec_no_pipe_opt(#[trigger] spec_desugar_holes_guards(guards)[i].condition)
                && spec_no_pipe(spec_desugar_holes_guards(guards)[i].body) by {
                match guards[i].condition {
                    Some(c) => law_desugar_holes_keeps_no_pipe(c),
                    None => {},
                }
                law_desugar_holes_keeps_no_pipe(guards[i].body);
            }
            assert(spec_desugar_holes_withs(with_bindings).len() == with_bindings.len());
            assert forall|i: int| 0 <= i < with_bindings.len() implies spec_no_pipe(#[trigger] spec_desugar_holes_withs(with_bindings)[i].value) by {
                law_desugar_holes_keeps_no_pipe(with_bindings[i].value);
            }
            assert(spec_no_pipe(spec_desugar_holes(e)));
        },
        SpecExpr::Match { scrutinee, arms } => {
            law_desugar_holes_keeps_no_pipe(*scrutinee);
            assert(spec_desugar_holes_arms(arms).len() == arms.len());
            assert forall|i: int| 0 <= i < arms.len() implies spec_no_pipe_opt(#[trigger] spec_desugar_holes_arms(arms)[i].guard)
                && spec_no_pipe(spec_desugar_holes_arms(arms)[i].body) by {
                match arms[i].guard {
                    Some(c) => law_desugar_holes_keeps_no_pipe(c),
                    None => {},
                }
                law_desugar_holes_keeps_no_pipe(arms[i].body);
            }
            assert(spec_no_pipe(spec_desugar_holes(e)));
        },
        SpecExpr::TypeAscription { expr, ty: _ } => {
            if expr.node is Hole {
                lemma_lone_hole(e);
            } else {
                law_desugar_holes_keeps_no_pipe(*expr);
                assert(spec_no_pipe(spec_desugar_holes(e)));
            }
        },
        SpecExpr::Grouping { inner } => {
            law_desugar_holes_keeps_no_pipe(*inner);
            assert(spec_no_pipe(spec_desugar_holes(e)));
        },
        SpecExpr::Tuple { elements } => {
            assert(spec_desugar_holes_seq(elements).len() == elements.len());
            assert forall|i: int| 0 <= i < elements.len() implies spec_no_pipe(#[trigger] spec_desugar_holes_seq(elements)[i]) by {
                law_desugar_holes_keeps_no_pipe(elements[i]);
            }
            assert(spec_no_pipe(spec_desugar_holes(e)));
        },
        SpecExpr::ActionCall { callee: _, args } => {
            law_desugar_holes_keeps_no_pipe(*args);
            assert(spec_no_pipe(spec_desugar_holes(e)));
        },
        SpecExpr::Return(inner) => {
            law_desugar_holes_keeps_no_pipe(*inner);
            assert(spec_no_pipe(spec_desugar_holes(e)));
        },
        SpecExpr::Loop { body } => {
            assert(spec_desugar_holes_seq(body).len() == body.len());
            assert forall|i: int| 0 <= i < body.len() implies spec_no_pipe(#[trigger] spec_desugar_holes_seq(body)[i]) by {
                law_desugar_holes_keeps_no_pipe(body[i]);
            }
            assert(spec_no_pipe(spec_desugar_holes(e)));
        },
        SpecExpr::Block { stmts } => {
            assert(spec_desugar_holes_seq(stmts).len() == stmts.len());
            assert forall|i: int| 0 <= i < stmts.len() implies spec_no_pipe(#[trigger] spec_desugar_holes_seq(stmts)[i]) by {
                law_desugar_holes_keeps_no_pipe(stmts[i]);
            }
            assert(spec_no_pipe(spec_desugar_holes(e)));
        },
        SpecExpr::Question(inner) => {
            law_desugar_holes_keeps_no_pipe(*inner);
            assert(spec_no_pipe(spec_desugar_holes(e)));
        },
        SpecExpr::Reassign { name: _, value } => {
            law_desugar_holes_keeps_no_pipe(*value);
            assert(spec_no_pipe(spec_desugar_holes(e)));
        },
        SpecExpr::DotAccess { expr, index: _ } => {
            law_desugar_holes_keeps_no_pipe(*expr);
            assert(spec_no_pipe(spec_desugar_holes(e)));
        },
        SpecExpr::ListLit { elements } => {
            assert(spec_desugar_holes_seq(elements).len() == elements.len());
            assert forall|i: int| 0 <= i < elements.len() implies spec_no_pipe(#[trigger] spec_desugar_holes_seq(elements)[i]) by {
                law_desugar_holes_keeps_no_pipe(elements[i]);
            }
            assert(spec_no_pipe(spec_desugar_holes(e)));
        },
        SpecExpr::ArrayLit { elements } => {
            assert(spec_desugar_holes_seq(elements).len() == elements.len());
            assert forall|i: int| 0 <= i < elements.len() implies spec_no_pipe(#[trigger] spec_desugar_holes_seq(elements)[i]) by {
                law_desugar_holes_keeps_no_pipe(elements[i]);
            }
            assert(spec_no_pipe(spec_desugar_holes(e)));
        },
        SpecExpr::RangeLit { start, step, end, inclusive: _ } => {
            law_desugar_holes_keeps_no_pipe(*start);
            if !(step.node is Hole) {
                law_desugar_holes_keeps_no_pipe(*step);
            } else {
                assert(spec_no_pipe(SpecSpanned { node: SpecExpr::DefaultStep, span: step.span }));
            }
            law_desugar_holes_keeps_no_pipe(*end);
            assert(spec_no_pipe(spec_desugar_holes(e)));
        },
        SpecExpr::ForIn { var_name: _, iterable, body } => {
            law_desugar_holes_keeps_no_pipe(*iterable);
            assert(spec_desugar_holes_seq(body).len() == body.len());
            assert forall|i: int| 0 <= i < body.len() implies spec_no_pipe(#[trigger] spec_desugar_holes_seq(body)[i]) by {
                law_desugar_holes_keeps_no_pipe(body[i]);
            }
            assert(spec_no_pipe(spec_desugar_holes(e)));
        },
        SpecExpr::In { item, collection } => {
            law_desugar_holes_keeps_no_pipe(*item);
            law_desugar_holes_keeps_no_pipe(*collection);
            assert(spec_no_pipe(spec_desugar_holes(e)));
        },
        SpecExpr::ChannelSend { channel, value } => {
            law_desugar_holes_keeps_no_pipe(*channel);
            law_desugar_holes_keeps_no_pipe(*value);
            assert(spec_no_pipe(spec_desugar_holes(e)));
        },
        SpecExpr::ChannelRecv { channel, bind_name: _ } => {
            law_desugar_holes_keeps_no_pipe(*channel);
            assert(spec_no_pipe(spec_desugar_holes(e)));
        },
        SpecExpr::Select { arms, timeout_ms, timeout_body } => {
            assert(spec_desugar_holes_select_arms(arms).len() == arms.len());
            assert forall|i: int| 0 <= i < arms.len() implies spec_no_pipe(#[trigger] spec_desugar_holes_select_arms(arms)[i].channel)
                && spec_no_pipe(spec_desugar_holes_select_arms(arms)[i].body) by {
                law_desugar_holes_keeps_no_pipe(arms[i].channel);
                law_desugar_holes_keeps_no_pipe(arms[i].body);
            }
            match timeout_ms {
                Some(x) => {
                    law_desugar_holes_keeps_no_pipe(*x);
                    assert(spec_desugar_holes_bopt(timeout_ms) == Some(Box::new(spec_desugar_holes(*x))));
                },
                None => {},
            }
            match timeout_body {
                Some(x) => {
                    law_desugar_holes_keeps_no_pipe(*x);
                    assert(spec_desugar_holes_bopt(timeout_body) == Some(Box::new(spec_desugar_holes(*x))));
                },
                None => {},
            }
            assert(spec_no_pipe(spec_desugar_holes(e)));
        },
        _ => {},
    }
}

/// The hole pass leaves no hole, whatever the input (a `|>`, which it
/// does not enter, is left as it is).
#[verifier::spinoff_prover]
#[verifier::rlimit(50)]
pub proof fn law_desugar_holes_removes_holes(e: SExpr)
    ensures
        spec_hole_free(spec_desugar_holes(e)),
    decreases e,
{
    match e.node {
        SpecExpr::Hole => { lemma_lone_hole(e); },
        SpecExpr::Pipe { .. } => {},
        SpecExpr::PipeFallback { lhs, rhs } => {
            law_desugar_holes_removes_holes(*lhs);
            law_desugar_holes_removes_holes(*rhs);
            assert(spec_hole_free(spec_desugar_holes(e)));
        },
        SpecExpr::Apply { callee, args } => {
            law_desugar_holes_removes_holes(*callee);
            assert forall|i: int| 0 <= i < args.len() implies spec_is_hole_or_ascribed(
                #[trigger] spec_desugar_holes_args(args)[i].node,
            ) || spec_hole_free(spec_desugar_holes_args(args)[i]) by {
                if !spec_is_hole_or_ascribed(args[i].node) {
                    law_desugar_holes_removes_holes(args[i]);
                }
            }
            lemma_hole_lambda_hole_free(spec_desugar_holes(*callee), spec_desugar_holes_args(args), e.span);
        },
        SpecExpr::Let { name: _, value } => {
            law_desugar_holes_removes_holes(*value);
            assert(spec_hole_free(spec_desugar_holes(e)));
        },
        SpecExpr::Var { name: _, value } => {
            law_desugar_holes_removes_holes(*value);
            assert(spec_hole_free(spec_desugar_holes(e)));
        },
        SpecExpr::Lambda { patterns: _, body, guards, with_bindings } => {
            law_desugar_holes_removes_holes(*body);
            assert(spec_desugar_holes_guards(guards).len() == guards.len());
            assert forall|i: int| 0 <= i < guards.len() implies spec_hole_free_opt(#[trigger] spec_desugar_holes_guards(guards)[i].condition)
                && spec_hole_free(spec_desugar_holes_guards(guards)[i].body) by {
                match guards[i].condition {
                    Some(c) => law_desugar_holes_removes_holes(c),
                    None => {},
                }
                law_desugar_holes_removes_holes(guards[i].body);
            }
            assert(spec_desugar_holes_withs(with_bindings).len() == with_bindings.len());
            assert forall|i: int| 0 <= i < with_bindings.len() implies spec_hole_free(#[trigger] spec_desugar_holes_withs(with_bindings)[i].value) by {
                law_desugar_holes_removes_holes(with_bindings[i].value);
            }
            assert(spec_hole_free(spec_desugar_holes(e)));
        },
        SpecExpr::Match { scrutinee, arms } => {
            law_desugar_holes_removes_holes(*scrutinee);
            assert(spec_desugar_holes_arms(arms).len() == arms.len());
            assert forall|i: int| 0 <= i < arms.len() implies spec_hole_free_opt(#[trigger] spec_desugar_holes_arms(arms)[i].guard)
                && spec_hole_free(spec_desugar_holes_arms(arms)[i].body) by {
                match arms[i].guard {
                    Some(c) => law_desugar_holes_removes_holes(c),
                    None => {},
                }
                law_desugar_holes_removes_holes(arms[i].body);
            }
            assert(spec_hole_free(spec_desugar_holes(e)));
        },
        SpecExpr::TypeAscription { expr, ty: _ } => {
            if expr.node is Hole {
                lemma_lone_hole(e);
            } else {
                law_desugar_holes_removes_holes(*expr);
                assert(spec_hole_free(spec_desugar_holes(e)));
            }
        },
        SpecExpr::Grouping { inner } => {
            law_desugar_holes_removes_holes(*inner);
            assert(spec_hole_free(spec_desugar_holes(e)));
        },
        SpecExpr::Tuple { elements } => {
            assert(spec_desugar_holes_seq(elements).len() == elements.len());
            assert forall|i: int| 0 <= i < elements.len() implies spec_hole_free(#[trigger] spec_desugar_holes_seq(elements)[i]) by {
                law_desugar_holes_removes_holes(elements[i]);
            }
            assert(spec_hole_free(spec_desugar_holes(e)));
        },
        SpecExpr::ActionCall { callee: _, args } => {
            law_desugar_holes_removes_holes(*args);
            assert(spec_hole_free(spec_desugar_holes(e)));
        },
        SpecExpr::Return(inner) => {
            law_desugar_holes_removes_holes(*inner);
            assert(spec_hole_free(spec_desugar_holes(e)));
        },
        SpecExpr::Loop { body } => {
            assert(spec_desugar_holes_seq(body).len() == body.len());
            assert forall|i: int| 0 <= i < body.len() implies spec_hole_free(#[trigger] spec_desugar_holes_seq(body)[i]) by {
                law_desugar_holes_removes_holes(body[i]);
            }
            assert(spec_hole_free(spec_desugar_holes(e)));
        },
        SpecExpr::Block { stmts } => {
            assert(spec_desugar_holes_seq(stmts).len() == stmts.len());
            assert forall|i: int| 0 <= i < stmts.len() implies spec_hole_free(#[trigger] spec_desugar_holes_seq(stmts)[i]) by {
                law_desugar_holes_removes_holes(stmts[i]);
            }
            assert(spec_hole_free(spec_desugar_holes(e)));
        },
        SpecExpr::Question(inner) => {
            law_desugar_holes_removes_holes(*inner);
            assert(spec_hole_free(spec_desugar_holes(e)));
        },
        SpecExpr::Reassign { name: _, value } => {
            law_desugar_holes_removes_holes(*value);
            assert(spec_hole_free(spec_desugar_holes(e)));
        },
        SpecExpr::DotAccess { expr, index: _ } => {
            law_desugar_holes_removes_holes(*expr);
            assert(spec_hole_free(spec_desugar_holes(e)));
        },
        SpecExpr::ListLit { elements } => {
            assert(spec_desugar_holes_seq(elements).len() == elements.len());
            assert forall|i: int| 0 <= i < elements.len() implies spec_hole_free(#[trigger] spec_desugar_holes_seq(elements)[i]) by {
                law_desugar_holes_removes_holes(elements[i]);
            }
            assert(spec_hole_free(spec_desugar_holes(e)));
        },
        SpecExpr::ArrayLit { elements } => {
            assert(spec_desugar_holes_seq(elements).len() == elements.len());
            assert forall|i: int| 0 <= i < elements.len() implies spec_hole_free(#[trigger] spec_desugar_holes_seq(elements)[i]) by {
                law_desugar_holes_removes_holes(elements[i]);
            }
            assert(spec_hole_free(spec_desugar_holes(e)));
        },
        SpecExpr::RangeLit { start, step, end, inclusive: _ } => {
            law_desugar_holes_removes_holes(*start);
            if !(step.node is Hole) {
                law_desugar_holes_removes_holes(*step);
            } else {
                assert(spec_hole_free(SpecSpanned { node: SpecExpr::DefaultStep, span: step.span }));
            }
            law_desugar_holes_removes_holes(*end);
            assert(spec_hole_free(spec_desugar_holes(e)));
        },
        SpecExpr::ForIn { var_name: _, iterable, body } => {
            law_desugar_holes_removes_holes(*iterable);
            assert(spec_desugar_holes_seq(body).len() == body.len());
            assert forall|i: int| 0 <= i < body.len() implies spec_hole_free(#[trigger] spec_desugar_holes_seq(body)[i]) by {
                law_desugar_holes_removes_holes(body[i]);
            }
            assert(spec_hole_free(spec_desugar_holes(e)));
        },
        SpecExpr::In { item, collection } => {
            law_desugar_holes_removes_holes(*item);
            law_desugar_holes_removes_holes(*collection);
            assert(spec_hole_free(spec_desugar_holes(e)));
        },
        SpecExpr::ChannelSend { channel, value } => {
            law_desugar_holes_removes_holes(*channel);
            law_desugar_holes_removes_holes(*value);
            assert(spec_hole_free(spec_desugar_holes(e)));
        },
        SpecExpr::ChannelRecv { channel, bind_name: _ } => {
            law_desugar_holes_removes_holes(*channel);
            assert(spec_hole_free(spec_desugar_holes(e)));
        },
        SpecExpr::Select { arms, timeout_ms, timeout_body } => {
            assert(spec_desugar_holes_select_arms(arms).len() == arms.len());
            assert forall|i: int| 0 <= i < arms.len() implies spec_hole_free(#[trigger] spec_desugar_holes_select_arms(arms)[i].channel)
                && spec_hole_free(spec_desugar_holes_select_arms(arms)[i].body) by {
                law_desugar_holes_removes_holes(arms[i].channel);
                law_desugar_holes_removes_holes(arms[i].body);
            }
            match timeout_ms {
                Some(x) => {
                    law_desugar_holes_removes_holes(*x);
                    assert(spec_desugar_holes_bopt(timeout_ms) == Some(Box::new(spec_desugar_holes(*x))));
                },
                None => {},
            }
            match timeout_body {
                Some(x) => {
                    law_desugar_holes_removes_holes(*x);
                    assert(spec_desugar_holes_bopt(timeout_body) == Some(Box::new(spec_desugar_holes(*x))));
                },
                None => {},
            }
            assert(spec_hole_free(spec_desugar_holes(e)));
        },
        _ => {},
    }
}

proof fn lemma_peel_no_pipe(r: SExpr)
    requires
        spec_no_pipe(r),
    ensures
        spec_no_pipe(spec_peel_grouping(r)),
    decreases r,
{
    match r.node {
        SpecExpr::Grouping { inner } => lemma_peel_no_pipe(*inner),
        _ => {},
    }
}

proof fn lemma_apply_pipe_no_pipe(l: SExpr, r: SExpr, span: Span)
    requires
        spec_no_pipe(l),
        spec_no_pipe(r),
    ensures
        spec_no_pipe(spec_apply_pipe(l, r, span)),
{
    lemma_peel_no_pipe(r);
    let core = spec_peel_grouping(r);
    match core.node {
        SpecExpr::Apply { callee, args } => {
            if exists|k: int| is_first_hole(args, k) {
                let k = choose|k: int| is_first_hole(args, k);
                let a2 = args.update(k, l);
                assert forall|i: int| 0 <= i < a2.len() implies spec_no_pipe(#[trigger] a2[i]) by {
                    if i != k {
                        assert(a2[i] == args[i]);
                    }
                }
            } else {
                let a2 = seq![l] + args;
                assert forall|i: int| 0 <= i < a2.len() implies spec_no_pipe(#[trigger] a2[i]) by {
                    if i > 0 {
                        assert(a2[i] == args[i - 1]);
                    }
                }
            }
        },
        SpecExpr::Ident { name } => {
            let a2 = seq![l];
            assert(spec_no_pipe(a2[0]));
        },
        _ => {
            let a2 = seq![l];
            assert(spec_no_pipe(a2[0]));
        },
    }
}

proof fn lemma_filled_arg(args: Seq<SExpr>, j: int)
    requires
        0 <= j < args.len(),
        spec_is_hole_or_ascribed(args[j].node),
    ensures
        spec_no_pipe(spec_filled_arg(args, j)),
        spec_hole_free(spec_filled_arg(args, j)),
        !spec_is_hole_or_ascribed(spec_filled_arg(args, j).node),
{
    let ident = spec_hole_ident(spec_count_holes(args.take(j)));
    assert(spec_no_pipe(ident) && spec_hole_free(ident));
    match args[j].node {
        SpecExpr::TypeAscription { ty, .. } => {
            assert(spec_filled_arg(args, j).node == SpecExpr::TypeAscription {
                expr: Box::new(ident),
                ty,
            });
        },
        _ => {},
    }
}

proof fn lemma_hole_lambda_no_pipe(callee: SExpr, args: Seq<SExpr>, span: Span)
    requires
        spec_no_pipe(callee),
        spec_no_pipe_seq(args),
    ensures
        spec_no_pipe(spec_hole_lambda(callee, args, span)),
{
    if spec_count_holes(args) > 0 {
        let filled = Seq::new(args.len(), |j: int| spec_filled_arg(args, j));
        assert forall|j: int| 0 <= j < filled.len() implies spec_no_pipe(#[trigger] filled[j]) by {
            if spec_is_hole_or_ascribed(args[j].node) {
                lemma_filled_arg(args, j);
            }
        }
        let body = SpecSpanned {
            node: SpecExpr::Apply { callee: Box::new(callee), args: filled },
            span,
        };
        assert(spec_no_pipe(body));
        assert(spec_no_pipe_guards(Seq::<SpecGuardClause>::empty()));
        assert(spec_no_pipe_withs(Seq::<SpecWithBinding>::empty()));
    }
}

proof fn lemma_hole_lambda_hole_free(callee: SExpr, args: Seq<SExpr>, span: Span)
    requires
        spec_hole_free(callee),
        forall|i: int| 0 <= i < args.len() ==> spec_is_hole_or_ascribed(#[trigger] args[i].node) || spec_hole_free(args[i]),
    ensures
        spec_hole_free(spec_hole_lambda(callee, args, span)),
{
    if spec_count_holes(args) == 0 {
        lemma_no_holes(args);
        assert(spec_hole_free_seq(args));
    } else {
        let filled = Seq::new(args.len(), |j: int| spec_filled_arg(args, j));
        assert forall|j: int| 0 <= j < filled.len() implies spec_hole_free(#[trigger] filled[j]) by {
            if spec_is_hole_or_ascribed(args[j].node) {
                lemma_filled_arg(args, j);
            }
        }
        let body = SpecSpanned {
            node: SpecExpr::Apply { callee: Box::new(callee), args: filled },
            span,
        };
        assert(spec_hole_free(body));
        assert(spec_hole_free_guards(Seq::<SpecGuardClause>::empty()));
        assert(spec_hole_free_withs(Seq::<SpecWithBinding>::empty()));
    }
}

/// A lone hole becomes a lambda without `|>` and without holes.
proof fn lemma_lone_hole(e: SExpr)
    requires
        spec_is_hole_or_ascribed(e.node),
    ensures
        spec_no_pipe(spec_lone_hole(e)),
        spec_hole_free(spec_lone_hole(e)),
{
    let ident = spec_hole_ident(0);
    assert(spec_no_pipe(ident) && spec_hole_free(ident));
    let r = spec_lone_hole(e);
    match e.node {
        SpecExpr::TypeAscription { ty, .. } => {
            let body = SpecSpanned { node: SpecExpr::TypeAscription { expr: Box::new(ident), ty }, span: e.span };
            assert(spec_no_pipe(body) && spec_hole_free(body));
        },
        _ => {},
    }
    assert(spec_no_pipe_guards(Seq::<SpecGuardClause>::empty()));
    assert(spec_no_pipe_withs(Seq::<SpecWithBinding>::empty()));
    assert(spec_hole_free_guards(Seq::<SpecGuardClause>::empty()));
    assert(spec_hole_free_withs(Seq::<SpecWithBinding>::empty()));
}

/// A hole-free expression is no hole.
proof fn lemma_hole_free_not_hole(x: SExpr)
    requires
        spec_hole_free(x),
    ensures
        !spec_is_hole_or_ascribed(x.node),
{
    match x.node {
        SpecExpr::TypeAscription { expr, .. } => {
            assert(spec_hole_free(*expr));
        },
        _ => {},
    }
}

/// The result of [`crate::desugar::desugar`] holds no `|>` and no hole.
pub proof fn law_desugar_output(e: SExpr)
    ensures
        spec_no_pipe(spec_desugar_holes(spec_desugar_pipes(e))),
        spec_hole_free(spec_desugar_holes(spec_desugar_pipes(e))),
{
    law_desugar_pipes_removes_pipes(e);
    law_desugar_holes_keeps_no_pipe(spec_desugar_pipes(e));
    law_desugar_holes_removes_holes(spec_desugar_pipes(e));
}

/// The pipe pass leaves an expression without `|>` as it is.
#[verifier::spinoff_prover]
#[verifier::rlimit(50)]
pub proof fn law_pipes_leave_pipe_free_unchanged(e: SExpr)
    requires
        spec_no_pipe(e),
    ensures
        spec_desugar_pipes(e) == e,
    decreases e,
{
    match e.node {
        SpecExpr::Pipe { .. } => {},
        SpecExpr::PipeFallback { lhs, rhs } => {
            law_pipes_leave_pipe_free_unchanged(*lhs);
            law_pipes_leave_pipe_free_unchanged(*rhs);
            assert(spec_desugar_pipes(e) == e);
        },
        SpecExpr::Apply { callee, args } => {
            law_pipes_leave_pipe_free_unchanged(*callee);
            assert forall|i: int| 0 <= i < args.len() implies #[trigger] spec_desugar_pipes_seq(args)[i] == args[i] by {
                law_pipes_leave_pipe_free_unchanged(args[i]);
            }
            assert(spec_desugar_pipes_seq(args) =~= args);
            assert(spec_desugar_pipes(e) == e);
        },
        SpecExpr::Let { name: _, value } => {
            law_pipes_leave_pipe_free_unchanged(*value);
            assert(spec_desugar_pipes(e) == e);
        },
        SpecExpr::Var { name: _, value } => {
            law_pipes_leave_pipe_free_unchanged(*value);
            assert(spec_desugar_pipes(e) == e);
        },
        SpecExpr::Lambda { patterns: _, body, guards, with_bindings } => {
            law_pipes_leave_pipe_free_unchanged(*body);
            assert forall|i: int| 0 <= i < guards.len() implies #[trigger] spec_desugar_pipes_guards(guards)[i] == guards[i] by {
                match guards[i].condition {
                    Some(c) => law_pipes_leave_pipe_free_unchanged(c),
                    None => {},
                }
                law_pipes_leave_pipe_free_unchanged(guards[i].body);
            }
            assert(spec_desugar_pipes_guards(guards) =~= guards);
            assert forall|i: int| 0 <= i < with_bindings.len() implies #[trigger] spec_desugar_pipes_withs(with_bindings)[i] == with_bindings[i] by {
                law_pipes_leave_pipe_free_unchanged(with_bindings[i].value);
            }
            assert(spec_desugar_pipes_withs(with_bindings) =~= with_bindings);
            assert(spec_desugar_pipes(e) == e);
        },
        SpecExpr::Match { scrutinee, arms } => {
            law_pipes_leave_pipe_free_unchanged(*scrutinee);
            assert forall|i: int| 0 <= i < arms.len() implies #[trigger] spec_desugar_pipes_arms(arms)[i] == arms[i] by {
                match arms[i].guard {
                    Some(c) => law_pipes_leave_pipe_free_unchanged(c),
                    None => {},
                }
                law_pipes_leave_pipe_free_unchanged(arms[i].body);
            }
            assert(spec_desugar_pipes_arms(arms) =~= arms);
            assert(spec_desugar_pipes(e) == e);
        },
        SpecExpr::TypeAscription { expr, ty: _ } => {
            law_pipes_leave_pipe_free_unchanged(*expr);
            assert(spec_desugar_pipes(e) == e);
        },
        SpecExpr::Grouping { inner } => {
            law_pipes_leave_pipe_free_unchanged(*inner);
            assert(spec_desugar_pipes(e) == e);
        },
        SpecExpr::Tuple { elements } => {
            assert forall|i: int| 0 <= i < elements.len() implies #[trigger] spec_desugar_pipes_seq(elements)[i] == elements[i] by {
                law_pipes_leave_pipe_free_unchanged(elements[i]);
            }
            assert(spec_desugar_pipes_seq(elements) =~= elements);
            assert(spec_desugar_pipes(e) == e);
        },
        SpecExpr::ActionCall { callee: _, args } => {
            law_pipes_leave_pipe_free_unchanged(*args);
            assert(spec_desugar_pipes(e) == e);
        },
        SpecExpr::Return(inner) => {
            law_pipes_leave_pipe_free_unchanged(*inner);
            assert(spec_desugar_pipes(e) == e);
        },
        SpecExpr::Loop { body } => {
            assert forall|i: int| 0 <= i < body.len() implies #[trigger] spec_desugar_pipes_seq(body)[i] == body[i] by {
                law_pipes_leave_pipe_free_unchanged(body[i]);
            }
            assert(spec_desugar_pipes_seq(body) =~= body);
            assert(spec_desugar_pipes(e) == e);
        },
        SpecExpr::Block { stmts } => {
            assert forall|i: int| 0 <= i < stmts.len() implies #[trigger] spec_desugar_pipes_seq(stmts)[i] == stmts[i] by {
                law_pipes_leave_pipe_free_unchanged(stmts[i]);
            }
            assert(spec_desugar_pipes_seq(stmts) =~= stmts);
            assert(spec_desugar_pipes(e) == e);
        },
        SpecExpr::Question(inner) => {
            law_pipes_leave_pipe_free_unchanged(*inner);
            assert(spec_desugar_pipes(e) == e);
        },
        SpecExpr::Reassign { name: _, value } => {
            law_pipes_leave_pipe_free_unchanged(*value);
            assert(spec_desugar_pipes(e) == e);
        },
        SpecExpr::DotAccess { expr, index: _ } => {
            law_pipes_leave_pipe_free_unchanged(*expr);
            assert(spec_desugar_pipes(e) == e);
        },
        SpecExpr::ListLit { elements } => {
            assert forall|i: int| 0 <= i < elements.len() implies #[trigger] spec_desugar_pipes_seq(elements)[i] == elements[i] by {
                law_pipes_leave_pipe_free_unchanged(elements[i]);
            }
            assert(spec_desugar_pipes_seq(elements) =~= elements);
            assert(spec_desugar_pipes(e) == e);
        },
        SpecExpr::ArrayLit { elements } => {
            assert forall|i: int| 0 <= i < elements.len() implies #[trigger] spec_desugar_pipes_seq(elements)[i] == elements[i] by {
                law_pipes_leave_pipe_free_unchanged(elements[i]);
            }
            assert(spec_desugar_pipes_seq(elements) =~= elements);
            assert(spec_desugar_pipes(e) == e);
        },
        SpecExpr::RangeLit { start, step, end, inclusive: _ } => {
            law_pipes_leave_pipe_free_unchanged(*start);
            law_pipes_leave_pipe_free_unchanged(*step);
            law_pipes_leave_pipe_free_unchanged(*end);
            assert(spec_desugar_pipes(e) == e);
        },
        SpecExpr::ForIn { var_name: _, iterable, body } => {
            law_pipes_leave_pipe_free_unchanged(*iterable);
            assert forall|i: int| 0 <= i < body.len() implies #[trigger] spec_desugar_pipes_seq(body)[i] == body[i] by {
                law_pipes_leave_pipe_free_unchanged(body[i]);
            }
            assert(spec_desugar_pipes_seq(body) =~= body);
            assert(spec_desugar_pipes(e) == e);
        },
        SpecExpr::In { item, collection } => {
            law_pipes_leave_pipe_free_unchanged(*item);
            law_pipes_leave_pipe_free_unchanged(*collection);
            assert(spec_desugar_pipes(e) == e);
        },
        SpecExpr::ChannelSend { channel, value } => {
            law_pipes_leave_pipe_free_unchanged(*channel);
            law_pipes_leave_pipe_free_unchanged(*value);
            assert(spec_desugar_pipes(e) == e);
        },
        SpecExpr::ChannelRecv { channel, bind_name: _ } => {
            law_pipes_leave_pipe_free_unchanged(*channel);
            assert(spec_desugar_pipes(e) == e);
        },
        SpecExpr::Select { arms, timeout_ms, timeout_body } => {
            assert forall|i: int| 0 <= i < arms.len() implies #[trigger] spec_desugar_pipes_select_arms(arms)[i] == arms[i] by {
                law_pipes_leave_pipe_free_unchanged(arms[i].channel);
                law_pipes_leave_pipe_free_unchanged(arms[i].body);
            }
            assert(spec_desugar_pipes_select_arms(arms) =~= arms);
            match timeout_ms {
                Some(x) => {
                    law_pipes_leave_pipe_free_unchanged(*x);
                    assert(spec_desugar_pipes_bopt(timeout_ms) == timeout_ms);
                },
                None => {},
            }
            match timeout_body {
                Some(x) => {
                    law_pipes_leave_pipe_free_unchanged(*x);
                    assert(spec_desugar_pipes_bopt(timeout_body) == timeout_body);
                },
                None => {},
            }
            assert(spec_desugar_pipes(e) == e);
        },
        _ => {},
    }
}

/// The hole pass leaves an expression without holes as it is.
#[verifier::spinoff_prover]
#[verifier::rlimit(50)]
pub proof fn law_holes_leave_filled_unchanged(e: SExpr)
    requires
        spec_hole_free(e),
    ensures
        spec_desugar_holes(e) == e,
    decreases e,
{
    match e.node {
        SpecExpr::Pipe { .. } => {},
        SpecExpr::PipeFallback { lhs, rhs } => {
            law_holes_leave_filled_unchanged(*lhs);
            law_holes_leave_filled_unchanged(*rhs);
            assert(spec_desugar_holes(e) == e);
        },
        SpecExpr::Apply { callee, args } => {
            law_holes_leave_filled_unchanged(*callee);
            assert forall|i: int| 0 <= i < args.len() implies #[trigger] spec_desugar_holes_args(args)[i] == args[i]
                && !spec_is_hole_or_ascribed(args[i].node) by {
                lemma_hole_free_not_hole(args[i]);
                law_holes_leave_filled_unchanged(args[i]);
            }
            assert(spec_desugar_holes_args(args) =~= args);
            lemma_count_holes_zero(args);
            assert(spec_desugar_holes(e) == e);
        },
        SpecExpr::Let { name: _, value } => {
            law_holes_leave_filled_unchanged(*value);
            assert(spec_desugar_holes(e) == e);
        },
        SpecExpr::Var { name: _, value } => {
            law_holes_leave_filled_unchanged(*value);
            assert(spec_desugar_holes(e) == e);
        },
        SpecExpr::Lambda { patterns: _, body, guards, with_bindings } => {
            law_holes_leave_filled_unchanged(*body);
            assert forall|i: int| 0 <= i < guards.len() implies #[trigger] spec_desugar_holes_guards(guards)[i] == guards[i] by {
                match guards[i].condition {
                    Some(c) => law_holes_leave_filled_unchanged(c),
                    None => {},
                }
                law_holes_leave_filled_unchanged(guards[i].body);
            }
            assert(spec_desugar_holes_guards(guards) =~= guards);
            assert forall|i: int| 0 <= i < with_bindings.len() implies #[trigger] spec_desugar_holes_withs(with_bindings)[i] == with_bindings[i] by {
                law_holes_leave_filled_unchanged(with_bindings[i].value);
            }
            assert(spec_desugar_holes_withs(with_bindings) =~= with_bindings);
            assert(spec_desugar_holes(e) == e);
        },
        SpecExpr::Match { scrutinee, arms } => {
            law_holes_leave_filled_unchanged(*scrutinee);
            assert forall|i: int| 0 <= i < arms.len() implies #[trigger] spec_desugar_holes_arms(arms)[i] == arms[i] by {
                match arms[i].guard {
                    Some(c) => law_holes_leave_filled_unchanged(c),
                    None => {},
                }
                law_holes_leave_filled_unchanged(arms[i].body);
            }
            assert(spec_desugar_holes_arms(arms) =~= arms);
            assert(spec_desugar_holes(e) == e);
        },
        SpecExpr::TypeAscription { expr, ty: _ } => {
            law_holes_leave_filled_unchanged(*expr);
            assert(spec_desugar_holes(e) == e);
        },
        SpecExpr::Grouping { inner } => {
            law_holes_leave_filled_unchanged(*inner);
            assert(spec_desugar_holes(e) == e);
        },
        SpecExpr::Tuple { elements } => {
            assert forall|i: int| 0 <= i < elements.len() implies #[trigger] spec_desugar_holes_seq(elements)[i] == elements[i] by {
                law_holes_leave_filled_unchanged(elements[i]);
            }
            assert(spec_desugar_holes_seq(elements) =~= elements);
            assert(spec_desugar_holes(e) == e);
        },
        SpecExpr::ActionCall { callee: _, args } => {
            law_holes_leave_filled_unchanged(*args);
            assert(spec_desugar_holes(e) == e);
        },
        SpecExpr::Return(inner) => {
            law_holes_leave_filled_unchanged(*inner);
            assert(spec_desugar_holes(e) == e);
        },
        SpecExpr::Loop { body } => {
            assert forall|i: int| 0 <= i < body.len() implies #[trigger] spec_desugar_holes_seq(body)[i] == body[i] by {
                law_holes_leave_filled_unchanged(body[i]);
            }
            assert(spec_desugar_holes_seq(body) =~= body);
            assert(spec_desugar_holes(e) == e);
        },
        SpecExpr::Block { stmts } => {
            assert forall|i: int| 0 <= i < stmts.len() implies #[trigger] spec_desugar_holes_seq(stmts)[i] == stmts[i] by {
                law_holes_leave_filled_unchanged(stmts[i]);
            }
            assert(spec_desugar_holes_seq(stmts) =~= stmts);
            assert(spec_desugar_holes(e) == e);
        },
        SpecExpr::Question(inner) => {
            law_holes_leave_filled_unchanged(*inner);
            assert(spec_desugar_holes(e) == e);
        },
        SpecExpr::Reassign { name: _, value } => {
            law_holes_leave_filled_unchanged(*value);
            assert(spec_desugar_holes(e) == e);
        },
        SpecExpr::DotAccess { expr, index: _ } => {
            law_holes_leave_filled_unchanged(*expr);
            assert(spec_desugar_holes(e) == e);
        },
        SpecExpr::ListLit { elements } => {
            assert forall|i: int| 0 <= i < elements.len() implies #[trigger] spec_desugar_holes_seq(elements)[i] == elements[i] by {
                law_holes_leave_filled_unchanged(elements[i]);
            }
            assert(spec_desugar_holes_seq(elements) =~= elements);
            assert(spec_desugar_holes(e) == e);
        },
        SpecExpr::ArrayLit { elements } => {
            assert forall|i: int| 0 <= i < elements.len() implies #[trigger] spec_desugar_holes_seq(elements)[i] == elements[i] by {
                law_holes_leave_filled_unchanged(elements[i]);
            }
            assert(spec_desugar_holes_seq(elements) =~= elements);
            assert(spec_desugar_holes(e) == e);
        },
        SpecExpr::RangeLit { start, step, end, inclusive: _ } => {
            law_holes_leave_filled_unchanged(*start);
            if !(step.node is Hole) {
                law_holes_leave_filled_unchanged(*step);
            }
            law_holes_leave_filled_unchanged(*end);
            assert(spec_desugar_holes(e) == e);
        },
        SpecExpr::ForIn { var_name: _, iterable, body } => {
            law_holes_leave_filled_unchanged(*iterable);
            assert forall|i: int| 0 <= i < body.len() implies #[trigger] spec_desugar_holes_seq(body)[i] == body[i] by {
                law_holes_leave_filled_unchanged(body[i]);
            }
            assert(spec_desugar_holes_seq(body) =~= body);
            assert(spec_desugar_holes(e) == e);
        },
        SpecExpr::In { item, collection } => {
            law_holes_leave_filled_unchanged(*item);
            law_holes_leave_filled_unchanged(*collection);
            assert(spec_desugar_holes(e) == e);
        },
        SpecExpr::ChannelSend { channel, value } => {
            law_holes_leave_filled_unchanged(*channel);
            law_holes_leave_filled_unchanged(*value);
            assert(spec_desugar_holes(e) == e);
        },
        SpecExpr::ChannelRecv { channel, bind_name: _ } => {
            law_holes_leave_filled_unchanged(*channel);
            assert(spec_desugar_holes(e) == e);
        },
        SpecExpr::Select { arms, timeout_ms, timeout_body } => {
            assert forall|i: int| 0 <= i < arms.len() implies #[trigger] spec_desugar_holes_select_arms(arms)[i] == arms[i] by {
                law_holes_leave_filled_unchanged(arms[i].channel);
                law_holes_leave_filled_unchanged(arms[i].body);
            }
            assert(spec_desugar_holes_select_arms(arms) =~= arms);
            match timeout_ms {
                Some(x) => {
                    law_holes_leave_filled_unchanged(*x);
                    assert(spec_desugar_holes_bopt(timeout_ms) == timeout_ms);
                },
                None => {},
            }
            match timeout_body {
                Some(x) => {
                    law_holes_leave_filled_unchanged(*x);
                    assert(spec_desugar_holes_bopt(timeout_body) == timeout_body);
                },
                None => {},
            }
            assert(spec_desugar_holes(e) == e);
        },
        _ => {},
    }
}

proof fn lemma_count_holes_zero(args: Seq<SExpr>)
    requires
        forall|i: int| 0 <= i < args.len() ==> !spec_is_hole_or_ascribed(#[trigger] args[i].node),
    ensures
        spec_count_holes(args) == 0,
    decreases args.len(),
{
    if args.len() > 0 {
        assert forall|i: int| 0 <= i < args.drop_last().len() implies !spec_is_hole_or_ascribed(
            #[trigger] args.drop_last()[i].node,
        ) by {
            assert(args.drop_last()[i] == args[i]);
        }
        lemma_count_holes_zero(args.drop_last());
        assert(!spec_is_hole_or_ascribed(args[args.len() - 1].node));
    }
}

/// Desugaring is idempotent: desugaring its own result changes nothing.
pub proof fn law_desugar_idempotent(e: SExpr)
    ensures
        spec_desugar_holes(spec_desugar_pipes(spec_desugar_holes(spec_desugar_pipes(e))))
            == spec_desugar_holes(spec_desugar_pipes(e)),
{
    let d = spec_desugar_holes(spec_desugar_pipes(e));
    law_desugar_output(e);
    law_pipes_leave_pipe_free_unchanged(d);
    law_holes_leave_filled_unchanged(d);
}

/// The hole pass is idempotent, whatever the input: a second pass changes
/// nothing, `|>` or not.
pub proof fn law_desugar_holes_idempotent(e: SExpr)
    ensures
        spec_desugar_holes(spec_desugar_holes(e)) == spec_desugar_holes(e),
{
    law_desugar_holes_removes_holes(e);
    law_holes_leave_filled_unchanged(spec_desugar_holes(e));
}

} // verus!
