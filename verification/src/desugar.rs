//! Desugaring of the surface syntax before type checking: the pipe
//! operator `|>` and the holes `_` of partial application are rewritten
//! into plain applications and lambdas.
//!
//! Two passes run in order. [`desugar_pipes`] turns each `lhs |> rhs`
//! into an application: the first hole among the arguments of `rhs`
//! receives `lhs`, or else `lhs` becomes the first argument.
//! [`desugar_holes`] then turns each application whose arguments hold
//! holes (`_` or `_::T`) into a lambda with one fresh parameter per hole,
//! named `__hole_0`, `__hole_1`, … from left to right. A hole in any other
//! place becomes a lambda of its own: `_` is `lambda __hole_0: __hole_0`.
//! A hole as the step of a range literal `[a.._..b]` asks for the default
//! step, and becomes the node [`Expr::DefaultStep`]. No hole is left.

use vstd::prelude::*;

use crate::ast::{
    arm_view, arms_view, expr_view, clone_dot_index, clone_expr, clone_exprs, clone_opt_pattern, clone_pattern, clone_patterns,
    clone_type_expr, guard_view, guards_view, opt_bexpr_view, opt_sexpr_view, select_arm_view,
    select_arms_view, sexpr_view, sexprs_view, spatterns_view, spec_synthetic, with_view,
    withs_view, Expr, GuardClause, MatchArm, Pattern, SExpr, SelectArm, Span, SpecExpr,
    SpecGuardClause, SpecMatchArm, SpecPattern, SpecSelectArm, SpecSpanned, SpecWithBinding,
    Spanned, WithBinding,
};
use crate::text::{owned, push_decimal, spec_decimal};
use crate::ty::string_clone;

verus! {

// ── what the passes compute ─────────────────────────────────────────

/// `e` with every enclosing pair of parentheses removed.
pub open spec fn spec_peel_grouping(e: SExpr) -> SExpr
    decreases e,
{
    match e.node {
        SpecExpr::Grouping { inner } => spec_peel_grouping(*inner),
        _ => e,
    }
}

/// A hole `_`, or a hole with a type ascription `_::T`.
pub open spec fn spec_is_hole_or_ascribed(e: SpecExpr) -> bool {
    match e {
        SpecExpr::Hole => true,
        SpecExpr::TypeAscription { expr, .. } => expr.node is Hole,
        _ => false,
    }
}

/// `k` is the position of the first bare hole among `args`.
pub open spec fn is_first_hole(args: Seq<SExpr>, k: int) -> bool {
    &&& 0 <= k < args.len()
    &&& args[k].node is Hole
    &&& forall|j: int| 0 <= j < k ==> !(#[trigger] args[j].node is Hole)
}

/// `lhs |> rhs` at `span`, where `lhs` and `rhs` have no pipe left.
pub open spec fn spec_apply_pipe(lhs: SExpr, rhs: SExpr, span: Span) -> SExpr {
    let core = spec_peel_grouping(rhs);
    match core.node {
        SpecExpr::Apply { callee, args } => if exists|k: int| is_first_hole(args, k) {
            let k = choose|k: int| is_first_hole(args, k);
            SpecSpanned { node: SpecExpr::Apply { callee, args: args.update(k, lhs) }, span }
        } else {
            SpecSpanned { node: SpecExpr::Apply { callee, args: seq![lhs] + args }, span }
        },
        SpecExpr::Ident { name } => SpecSpanned {
            node: SpecExpr::Apply {
                callee: Box::new(SpecSpanned { node: SpecExpr::Ident { name }, span: core.span }),
                args: seq![lhs],
            },
            span,
        },
        _ => SpecSpanned {
            node: SpecExpr::Apply { callee: Box::new(rhs), args: seq![lhs] },
            span,
        },
    }
}

/// How many of `args` are holes.
pub open spec fn spec_count_holes(args: Seq<SExpr>) -> nat
    decreases args.len(),
{
    if args.len() == 0 {
        0
    } else {
        spec_count_holes(args.drop_last()) + if spec_is_hole_or_ascribed(args.last().node) {
            1nat
        } else {
            0nat
        }
    }
}

/// The name of the parameter that replaces the hole number `idx`.
pub open spec fn spec_hole_name(idx: nat) -> Seq<char> {
    "__hole_"@ + spec_decimal(idx)
}

/// The reference to the parameter that replaces the hole number `idx`.
pub open spec fn spec_hole_ident(idx: nat) -> SExpr {
    SpecSpanned { node: SpecExpr::Ident { name: spec_hole_name(idx) }, span: spec_synthetic() }
}

/// The parameter that replaces the hole number `idx`.
pub open spec fn spec_hole_param(idx: int) -> SpecSpanned<SpecPattern> {
    SpecSpanned { node: SpecPattern::Ident(spec_hole_name(idx as nat)), span: spec_synthetic() }
}

/// The argument at position `j` once its hole, if any, is replaced: a bare
/// hole by the parameter, an ascribed hole by the parameter under the same
/// ascription.
pub open spec fn spec_filled_arg(args: Seq<SExpr>, j: int) -> SExpr {
    if spec_is_hole_or_ascribed(args[j].node) {
        let ident = spec_hole_ident(spec_count_holes(args.take(j)));
        match args[j].node {
            SpecExpr::TypeAscription { ty, .. } => SpecSpanned {
                node: SpecExpr::TypeAscription { expr: Box::new(ident), ty },
                span: args[j].span,
            },
            _ => ident,
        }
    } else {
        args[j]
    }
}

/// An application of `callee` to `args` at `span`: unchanged when no
/// argument is a hole, else a lambda over one parameter per hole whose body
/// is the application with each hole replaced by its parameter.
pub open spec fn spec_hole_lambda(callee: SExpr, args: Seq<SExpr>, span: Span) -> SExpr {
    let n = spec_count_holes(args);
    if n == 0 {
        SpecSpanned { node: SpecExpr::Apply { callee: Box::new(callee), args }, span }
    } else {
        SpecSpanned {
            node: SpecExpr::Lambda {
                patterns: Seq::new(n, |k: int| spec_hole_param(k)),
                body: Box::new(
                    SpecSpanned {
                        node: SpecExpr::Apply {
                            callee: Box::new(callee),
                            args: Seq::new(args.len(), |j: int| spec_filled_arg(args, j)),
                        },
                        span,
                    },
                ),
                guards: Seq::empty(),
                with_bindings: Seq::empty(),
            },
            span,
        }
    }
}


/// A hole that is no argument, as a lambda of one parameter: `_` becomes
/// `lambda __hole_0: __hole_0`, and `_::T` becomes
/// `lambda __hole_0: __hole_0::T`, at the hole's span.
pub open spec fn spec_lone_hole(e: SExpr) -> SExpr {
    let ident = spec_hole_ident(0);
    let body = match e.node {
        SpecExpr::TypeAscription { ty, .. } => SpecSpanned {
            node: SpecExpr::TypeAscription { expr: Box::new(ident), ty },
            span: e.span,
        },
        _ => ident,
    };
    SpecSpanned {
        node: SpecExpr::Lambda {
            patterns: seq![spec_hole_param(0)],
            body: Box::new(body),
            guards: Seq::empty(),
            with_bindings: Seq::empty(),
        },
        span: e.span,
    }
}
pub open spec fn spec_desugar_pipes(e: SExpr) -> SExpr
    decreases e,
{
    match e.node {
        SpecExpr::Pipe { lhs, rhs } => spec_apply_pipe(spec_desugar_pipes(*lhs), spec_desugar_pipes(*rhs), e.span),
        SpecExpr::PipeFallback { lhs, rhs } => SpecSpanned {
            node: SpecExpr::PipeFallback { lhs: Box::new(spec_desugar_pipes(*lhs)), rhs: Box::new(spec_desugar_pipes(*rhs)) },
            span: e.span,
        },
        SpecExpr::Apply { callee, args } => SpecSpanned {
            node: SpecExpr::Apply { callee: Box::new(spec_desugar_pipes(*callee)), args: spec_desugar_pipes_seq(args) },
            span: e.span,
        },
        SpecExpr::Let { name, value } => SpecSpanned {
            node: SpecExpr::Let { name: name, value: Box::new(spec_desugar_pipes(*value)) },
            span: e.span,
        },
        SpecExpr::Var { name, value } => SpecSpanned {
            node: SpecExpr::Var { name: name, value: Box::new(spec_desugar_pipes(*value)) },
            span: e.span,
        },
        SpecExpr::Lambda { patterns, body, guards, with_bindings } => SpecSpanned {
            node: SpecExpr::Lambda { patterns: patterns, body: Box::new(spec_desugar_pipes(*body)), guards: spec_desugar_pipes_guards(guards), with_bindings: spec_desugar_pipes_withs(with_bindings) },
            span: e.span,
        },
        SpecExpr::Match { scrutinee, arms } => SpecSpanned {
            node: SpecExpr::Match { scrutinee: Box::new(spec_desugar_pipes(*scrutinee)), arms: spec_desugar_pipes_arms(arms) },
            span: e.span,
        },
        SpecExpr::TypeAscription { expr, ty } => SpecSpanned {
            node: SpecExpr::TypeAscription { expr: Box::new(spec_desugar_pipes(*expr)), ty: ty },
            span: e.span,
        },
        SpecExpr::Grouping { inner } => SpecSpanned {
            node: SpecExpr::Grouping { inner: Box::new(spec_desugar_pipes(*inner)) },
            span: e.span,
        },
        SpecExpr::Tuple { elements } => SpecSpanned {
            node: SpecExpr::Tuple { elements: spec_desugar_pipes_seq(elements) },
            span: e.span,
        },
        SpecExpr::ActionCall { callee, args } => SpecSpanned {
            node: SpecExpr::ActionCall { callee: callee, args: Box::new(spec_desugar_pipes(*args)) },
            span: e.span,
        },
        SpecExpr::Return(inner) => SpecSpanned {
            node: SpecExpr::Return(Box::new(spec_desugar_pipes(*inner))),
            span: e.span,
        },
        SpecExpr::Loop { body } => SpecSpanned {
            node: SpecExpr::Loop { body: spec_desugar_pipes_seq(body) },
            span: e.span,
        },
        SpecExpr::Block { stmts } => SpecSpanned {
            node: SpecExpr::Block { stmts: spec_desugar_pipes_seq(stmts) },
            span: e.span,
        },
        SpecExpr::Question(inner) => SpecSpanned {
            node: SpecExpr::Question(Box::new(spec_desugar_pipes(*inner))),
            span: e.span,
        },
        SpecExpr::Reassign { name, value } => SpecSpanned {
            node: SpecExpr::Reassign { name: name, value: Box::new(spec_desugar_pipes(*value)) },
            span: e.span,
        },
        SpecExpr::DotAccess { expr, index } => SpecSpanned {
            node: SpecExpr::DotAccess { expr: Box::new(spec_desugar_pipes(*expr)), index: index },
            span: e.span,
        },
        SpecExpr::ListLit { elements } => SpecSpanned {
            node: SpecExpr::ListLit { elements: spec_desugar_pipes_seq(elements) },
            span: e.span,
        },
        SpecExpr::ArrayLit { elements } => SpecSpanned {
            node: SpecExpr::ArrayLit { elements: spec_desugar_pipes_seq(elements) },
            span: e.span,
        },
        SpecExpr::RangeLit { start, step, end, inclusive } => SpecSpanned {
            node: SpecExpr::RangeLit { start: Box::new(spec_desugar_pipes(*start)), step: Box::new(spec_desugar_pipes(*step)), end: Box::new(spec_desugar_pipes(*end)), inclusive: inclusive },
            span: e.span,
        },
        SpecExpr::ForIn { var_name, iterable, body } => SpecSpanned {
            node: SpecExpr::ForIn { var_name: var_name, iterable: Box::new(spec_desugar_pipes(*iterable)), body: spec_desugar_pipes_seq(body) },
            span: e.span,
        },
        SpecExpr::In { item, collection } => SpecSpanned {
            node: SpecExpr::In { item: Box::new(spec_desugar_pipes(*item)), collection: Box::new(spec_desugar_pipes(*collection)) },
            span: e.span,
        },
        SpecExpr::ChannelSend { channel, value } => SpecSpanned {
            node: SpecExpr::ChannelSend { channel: Box::new(spec_desugar_pipes(*channel)), value: Box::new(spec_desugar_pipes(*value)) },
            span: e.span,
        },
        SpecExpr::ChannelRecv { channel, bind_name } => SpecSpanned {
            node: SpecExpr::ChannelRecv { channel: Box::new(spec_desugar_pipes(*channel)), bind_name: bind_name },
            span: e.span,
        },
        SpecExpr::Select { arms, timeout_ms, timeout_body } => SpecSpanned {
            node: SpecExpr::Select { arms: spec_desugar_pipes_select_arms(arms), timeout_ms: spec_desugar_pipes_bopt(timeout_ms), timeout_body: spec_desugar_pipes_bopt(timeout_body) },
            span: e.span,
        },
        _ => e,
    }
}

pub open spec fn spec_desugar_pipes_seq(s: Seq<SExpr>) -> Seq<SExpr>
    decreases s,
{
    Seq::new(s.len(), |i: int| if 0 <= i < s.len() { spec_desugar_pipes(s[i]) } else { s[i] })
}

pub open spec fn spec_desugar_pipes_opt(o: Option<SExpr>) -> Option<SExpr>
    decreases o,
{
    match o {
        Some(x) => Some(spec_desugar_pipes(x)),
        None => None,
    }
}

pub open spec fn spec_desugar_pipes_bopt(o: Option<Box<SExpr>>) -> Option<Box<SExpr>>
    decreases o,
{
    match o {
        Some(x) => Some(Box::new(spec_desugar_pipes(*x))),
        None => None,
    }
}

pub open spec fn spec_desugar_pipes_guard(g: SpecGuardClause) -> SpecGuardClause
    decreases g,
{
    SpecGuardClause { condition: spec_desugar_pipes_opt(g.condition), body: spec_desugar_pipes(g.body) }
}

pub open spec fn spec_desugar_pipes_guards(s: Seq<SpecGuardClause>) -> Seq<SpecGuardClause>
    decreases s,
{
    Seq::new(s.len(), |i: int| if 0 <= i < s.len() { spec_desugar_pipes_guard(s[i]) } else { s[i] })
}

pub open spec fn spec_desugar_pipes_with(w: SpecWithBinding) -> SpecWithBinding
    decreases w,
{
    SpecWithBinding { name: w.name, value: spec_desugar_pipes(w.value) }
}

pub open spec fn spec_desugar_pipes_withs(s: Seq<SpecWithBinding>) -> Seq<SpecWithBinding>
    decreases s,
{
    Seq::new(s.len(), |i: int| if 0 <= i < s.len() { spec_desugar_pipes_with(s[i]) } else { s[i] })
}

pub open spec fn spec_desugar_pipes_arm(a: SpecMatchArm) -> SpecMatchArm
    decreases a,
{
    SpecMatchArm {
        pattern: a.pattern,
        guard: spec_desugar_pipes_opt(a.guard),
        body: spec_desugar_pipes(a.body),
    }
}

pub open spec fn spec_desugar_pipes_arms(s: Seq<SpecMatchArm>) -> Seq<SpecMatchArm>
    decreases s,
{
    Seq::new(s.len(), |i: int| if 0 <= i < s.len() { spec_desugar_pipes_arm(s[i]) } else { s[i] })
}

pub open spec fn spec_desugar_pipes_select_arm(a: SpecSelectArm) -> SpecSelectArm
    decreases a,
{
    SpecSelectArm {
        channel: spec_desugar_pipes(a.channel),
        bind_name: a.bind_name,
        body: spec_desugar_pipes(a.body),
    }
}

pub open spec fn spec_desugar_pipes_select_arms(s: Seq<SpecSelectArm>) -> Seq<SpecSelectArm>
    decreases s,
{
    Seq::new(s.len(), |i: int| if 0 <= i < s.len() { spec_desugar_pipes_select_arm(s[i]) } else { s[i] })
}

pub open spec fn spec_desugar_holes(e: SExpr) -> SExpr
    decreases e,
{
    match e.node {
        SpecExpr::Hole => spec_lone_hole(e),
        SpecExpr::Pipe { lhs, rhs } => e,
        SpecExpr::PipeFallback { lhs, rhs } => SpecSpanned {
            node: SpecExpr::PipeFallback { lhs: Box::new(spec_desugar_holes(*lhs)), rhs: Box::new(spec_desugar_holes(*rhs)) },
            span: e.span,
        },
        SpecExpr::Apply { callee, args } => spec_hole_lambda(spec_desugar_holes(*callee), spec_desugar_holes_args(args), e.span),
        SpecExpr::Let { name, value } => SpecSpanned {
            node: SpecExpr::Let { name: name, value: Box::new(spec_desugar_holes(*value)) },
            span: e.span,
        },
        SpecExpr::Var { name, value } => SpecSpanned {
            node: SpecExpr::Var { name: name, value: Box::new(spec_desugar_holes(*value)) },
            span: e.span,
        },
        SpecExpr::Lambda { patterns, body, guards, with_bindings } => SpecSpanned {
            node: SpecExpr::Lambda { patterns: patterns, body: Box::new(spec_desugar_holes(*body)), guards: spec_desugar_holes_guards(guards), with_bindings: spec_desugar_holes_withs(with_bindings) },
            span: e.span,
        },
        SpecExpr::Match { scrutinee, arms } => SpecSpanned {
            node: SpecExpr::Match { scrutinee: Box::new(spec_desugar_holes(*scrutinee)), arms: spec_desugar_holes_arms(arms) },
            span: e.span,
        },
        SpecExpr::TypeAscription { expr, ty } => if expr.node is Hole { spec_lone_hole(e) } else { SpecSpanned { node: SpecExpr::TypeAscription { expr: Box::new(spec_desugar_holes(*expr)), ty: ty }, span: e.span } },
        SpecExpr::Grouping { inner } => SpecSpanned {
            node: SpecExpr::Grouping { inner: Box::new(spec_desugar_holes(*inner)) },
            span: e.span,
        },
        SpecExpr::Tuple { elements } => SpecSpanned {
            node: SpecExpr::Tuple { elements: spec_desugar_holes_seq(elements) },
            span: e.span,
        },
        SpecExpr::ActionCall { callee, args } => SpecSpanned {
            node: SpecExpr::ActionCall { callee: callee, args: Box::new(spec_desugar_holes(*args)) },
            span: e.span,
        },
        SpecExpr::Return(inner) => SpecSpanned {
            node: SpecExpr::Return(Box::new(spec_desugar_holes(*inner))),
            span: e.span,
        },
        SpecExpr::Loop { body } => SpecSpanned {
            node: SpecExpr::Loop { body: spec_desugar_holes_seq(body) },
            span: e.span,
        },
        SpecExpr::Block { stmts } => SpecSpanned {
            node: SpecExpr::Block { stmts: spec_desugar_holes_seq(stmts) },
            span: e.span,
        },
        SpecExpr::Question(inner) => SpecSpanned {
            node: SpecExpr::Question(Box::new(spec_desugar_holes(*inner))),
            span: e.span,
        },
        SpecExpr::Reassign { name, value } => SpecSpanned {
            node: SpecExpr::Reassign { name: name, value: Box::new(spec_desugar_holes(*value)) },
            span: e.span,
        },
        SpecExpr::DotAccess { expr, index } => SpecSpanned {
            node: SpecExpr::DotAccess { expr: Box::new(spec_desugar_holes(*expr)), index: index },
            span: e.span,
        },
        SpecExpr::ListLit { elements } => SpecSpanned {
            node: SpecExpr::ListLit { elements: spec_desugar_holes_seq(elements) },
            span: e.span,
        },
        SpecExpr::ArrayLit { elements } => SpecSpanned {
            node: SpecExpr::ArrayLit { elements: spec_desugar_holes_seq(elements) },
            span: e.span,
        },
        SpecExpr::RangeLit { start, step, end, inclusive } => SpecSpanned { node: SpecExpr::RangeLit { start: Box::new(spec_desugar_holes(*start)), step: if step.node is Hole { Box::new(SpecSpanned { node: SpecExpr::DefaultStep, span: step.span }) } else { Box::new(spec_desugar_holes(*step)) }, end: Box::new(spec_desugar_holes(*end)), inclusive: inclusive }, span: e.span },
        SpecExpr::ForIn { var_name, iterable, body } => SpecSpanned {
            node: SpecExpr::ForIn { var_name: var_name, iterable: Box::new(spec_desugar_holes(*iterable)), body: spec_desugar_holes_seq(body) },
            span: e.span,
        },
        SpecExpr::In { item, collection } => SpecSpanned {
            node: SpecExpr::In { item: Box::new(spec_desugar_holes(*item)), collection: Box::new(spec_desugar_holes(*collection)) },
            span: e.span,
        },
        SpecExpr::ChannelSend { channel, value } => SpecSpanned {
            node: SpecExpr::ChannelSend { channel: Box::new(spec_desugar_holes(*channel)), value: Box::new(spec_desugar_holes(*value)) },
            span: e.span,
        },
        SpecExpr::ChannelRecv { channel, bind_name } => SpecSpanned {
            node: SpecExpr::ChannelRecv { channel: Box::new(spec_desugar_holes(*channel)), bind_name: bind_name },
            span: e.span,
        },
        SpecExpr::Select { arms, timeout_ms, timeout_body } => SpecSpanned {
            node: SpecExpr::Select { arms: spec_desugar_holes_select_arms(arms), timeout_ms: spec_desugar_holes_bopt(timeout_ms), timeout_body: spec_desugar_holes_bopt(timeout_body) },
            span: e.span,
        },
        _ => e,
    }
}

pub open spec fn spec_desugar_holes_seq(s: Seq<SExpr>) -> Seq<SExpr>
    decreases s,
{
    Seq::new(s.len(), |i: int| if 0 <= i < s.len() { spec_desugar_holes(s[i]) } else { s[i] })
}

pub open spec fn spec_desugar_holes_opt(o: Option<SExpr>) -> Option<SExpr>
    decreases o,
{
    match o {
        Some(x) => Some(spec_desugar_holes(x)),
        None => None,
    }
}

pub open spec fn spec_desugar_holes_bopt(o: Option<Box<SExpr>>) -> Option<Box<SExpr>>
    decreases o,
{
    match o {
        Some(x) => Some(Box::new(spec_desugar_holes(*x))),
        None => None,
    }
}

pub open spec fn spec_desugar_holes_guard(g: SpecGuardClause) -> SpecGuardClause
    decreases g,
{
    SpecGuardClause { condition: spec_desugar_holes_opt(g.condition), body: spec_desugar_holes(g.body) }
}

pub open spec fn spec_desugar_holes_guards(s: Seq<SpecGuardClause>) -> Seq<SpecGuardClause>
    decreases s,
{
    Seq::new(s.len(), |i: int| if 0 <= i < s.len() { spec_desugar_holes_guard(s[i]) } else { s[i] })
}

pub open spec fn spec_desugar_holes_with(w: SpecWithBinding) -> SpecWithBinding
    decreases w,
{
    SpecWithBinding { name: w.name, value: spec_desugar_holes(w.value) }
}

pub open spec fn spec_desugar_holes_withs(s: Seq<SpecWithBinding>) -> Seq<SpecWithBinding>
    decreases s,
{
    Seq::new(s.len(), |i: int| if 0 <= i < s.len() { spec_desugar_holes_with(s[i]) } else { s[i] })
}

pub open spec fn spec_desugar_holes_arm(a: SpecMatchArm) -> SpecMatchArm
    decreases a,
{
    SpecMatchArm {
        pattern: a.pattern,
        guard: spec_desugar_holes_opt(a.guard),
        body: spec_desugar_holes(a.body),
    }
}

pub open spec fn spec_desugar_holes_arms(s: Seq<SpecMatchArm>) -> Seq<SpecMatchArm>
    decreases s,
{
    Seq::new(s.len(), |i: int| if 0 <= i < s.len() { spec_desugar_holes_arm(s[i]) } else { s[i] })
}

pub open spec fn spec_desugar_holes_select_arm(a: SpecSelectArm) -> SpecSelectArm
    decreases a,
{
    SpecSelectArm {
        channel: spec_desugar_holes(a.channel),
        bind_name: a.bind_name,
        body: spec_desugar_holes(a.body),
    }
}

pub open spec fn spec_desugar_holes_select_arms(s: Seq<SpecSelectArm>) -> Seq<SpecSelectArm>
    decreases s,
{
    Seq::new(s.len(), |i: int| if 0 <= i < s.len() { spec_desugar_holes_select_arm(s[i]) } else { s[i] })
}

/// The arguments of an application after the hole pass: a hole, bare or
/// ascribed, stays for [`spec_hole_lambda`] to fill; any other argument is
/// rewritten.
pub open spec fn spec_desugar_holes_args(s: Seq<SExpr>) -> Seq<SExpr>
    decreases s,
{
    Seq::new(
        s.len(),
        |i: int|
            if 0 <= i < s.len() {
                if spec_is_hole_or_ascribed(s[i].node) {
                    s[i]
                } else {
                    spec_desugar_holes(s[i])
                }
            } else {
                s[i]
            },
    )
}

// ── the passes ──────────────────────────────────────────────────────

/// Desugars `e`: pipes first, then holes.
pub fn desugar(e: &Spanned<Expr>) -> (r: Spanned<Expr>)
    ensures
        r@ == spec_desugar_holes(spec_desugar_pipes(e@)),
{
    let no_pipes = desugar_pipes(e);
    desugar_holes(&no_pipes)
}

/// Strips the parentheses around an expression.
pub fn peel_grouping(e: &Spanned<Expr>) -> (r: &Spanned<Expr>)
    ensures
        r@ == spec_peel_grouping(e@),
    decreases e,
{
    match &e.node {
        Expr::Grouping { inner } => peel_grouping(inner),
        _ => e,
    }
}

/// Whether `e` is a hole `_` or an ascribed hole `_::T`.
pub fn is_hole_or_ascribed_hole(e: &Expr) -> (r: bool)
    ensures
        r == spec_is_hole_or_ascribed(e@),
{
    match e {
        Expr::Hole => true,
        Expr::TypeAscription { expr, .. } => {
            proof {
                assert(e@ is TypeAscription);
                assert(sexpr_view(**expr).node == expr_view(expr.node));
            }
            match &expr.node {
                Expr::Hole => true,
                _ => {
                    assert(!(expr_view(expr.node) is Hole));
                    false
                },
            }
        },
        _ => false,
    }
}

/// The position of the first bare hole among `args`, if any.
fn first_hole(args: &Vec<Spanned<Expr>>) -> (r: Option<usize>)
    ensures
        match r {
            Some(k) => is_first_hole(sexprs_view(args@), k as int),
            None => forall|j: int| 0 <= j < args@.len() ==> !(#[trigger] sexprs_view(args@)[j].node is Hole),
        },
{
    let ghost a = sexprs_view(args@);
    let mut i: usize = 0;
    while i < args.len()
        invariant
            i <= args@.len(),
            a == sexprs_view(args@),
            forall|j: int| 0 <= j < i ==> !(#[trigger] a[j].node is Hole),
        decreases args.len() - i,
    {
        if matches!(args[i].node, Expr::Hole) {
            assert(a[i as int] == sexpr_view(args@[i as int]));
            return Some(i);
        }
        assert(a[i as int] == sexpr_view(args@[i as int]));
        i += 1;
    }
    None
}

/// The application that `lhs |> rhs` stands for, at `span`.
pub fn apply_pipe(lhs: &Spanned<Expr>, rhs: &Spanned<Expr>, span: Span) -> (r: Spanned<Expr>)
    ensures
        r@ == spec_apply_pipe(lhs@, rhs@, span),
{
    let core = peel_grouping(rhs);
    match &core.node {
        Expr::Apply { callee, args } => {
            let ghost a = sexprs_view(args@);
            let ghost cv = sexpr_view(**callee);
            assert(core@.node == SpecExpr::Apply { callee: Box::new(cv), args: a });
            match first_hole(args) {
                Some(k) => {
                    let mut new_args = clone_exprs(args);
                    let l = clone_expr(lhs);
                    new_args.set(k, l);
                    proof {
                        assert(sexprs_view(new_args@) =~= a.update(k as int, lhs@));
                        let c = choose|c: int| is_first_hole(a, c);
                        assert(c == k as int) by {
                            if c < k as int {
                                assert(!(a[c].node is Hole));
                            } else if c > k as int {
                                assert(!(a[k as int].node is Hole));
                            }
                        }
                    }
                    let r = Spanned::new(Expr::Apply { callee: Box::new(clone_expr(callee)), args: new_args }, span);
                    assert(r@ == SpecSpanned { node: SpecExpr::Apply { callee: Box::new(cv), args: a.update(k as int, lhs@) }, span });
                    assert(r@ == spec_apply_pipe(lhs@, rhs@, span));
                    r
                },
                None => {
                    let mut new_args: Vec<Spanned<Expr>> = Vec::new();
                    new_args.push(clone_expr(lhs));
                    let mut rest = clone_exprs(args);
                    new_args.append(&mut rest);
                    proof {
                        assert(sexprs_view(new_args@) =~= seq![lhs@] + a);
                        assert(!exists|c: int| is_first_hole(a, c));
                    }
                    let r = Spanned::new(Expr::Apply { callee: Box::new(clone_expr(callee)), args: new_args }, span);
                    assert(r@ == spec_apply_pipe(lhs@, rhs@, span));
                    r
                },
            }
        },
        Expr::Ident { name } => {
            assert(core@.node == SpecExpr::Ident { name: name@ });
            let mut new_args: Vec<Spanned<Expr>> = Vec::new();
            new_args.push(clone_expr(lhs));
            assert(sexprs_view(new_args@) =~= seq![lhs@]);
            let callee = Spanned::new(Expr::Ident { name: string_clone(name) }, core.span);
            assert(callee@ == SpecSpanned {
                node: SpecExpr::Ident { name: name@ },
                span: spec_peel_grouping(rhs@).span,
            });
            let ghost lv = lhs@;
            let ghost calv = callee@;
            let r = Spanned::new(Expr::Apply { callee: Box::new(callee), args: new_args }, span);
            assert(r@ == SpecSpanned {
                node: SpecExpr::Apply { callee: Box::new(calv), args: seq![lv] },
                span,
            });
            assert(r@ == spec_apply_pipe(lhs@, rhs@, span));
            r
        },
        _ => {
            assert(!(core@.node is Apply) && !(core@.node is Ident));
            let mut new_args: Vec<Spanned<Expr>> = Vec::new();
            new_args.push(clone_expr(lhs));
            assert(sexprs_view(new_args@) =~= seq![lhs@]);
            let r = Spanned::new(Expr::Apply { callee: Box::new(clone_expr(rhs)), args: new_args }, span);
            assert(r@ == spec_apply_pipe(lhs@, rhs@, span));
            r
        },
    }
}

proof fn lemma_count_holes_step(args: Seq<SExpr>, j: int)
    requires
        0 <= j < args.len(),
    ensures
        spec_count_holes(args.take(j + 1)) == spec_count_holes(args.take(j)) + if spec_is_hole_or_ascribed(
            args[j].node,
        ) {
            1nat
        } else {
            0nat
        },
{
    assert(args.take(j + 1).drop_last() =~= args.take(j));
}

pub proof fn lemma_no_holes(args: Seq<SExpr>)
    requires
        spec_count_holes(args) == 0,
    ensures
        forall|j: int| 0 <= j < args.len() ==> !spec_is_hole_or_ascribed(#[trigger] args[j].node),
    decreases args.len(),
{
    if args.len() > 0 {
        lemma_no_holes(args.drop_last());
        assert forall|j: int| 0 <= j < args.len() implies !spec_is_hole_or_ascribed(
            #[trigger] args[j].node,
        ) by {
            if j < args.len() - 1 {
                assert(args.drop_last()[j] == args[j]);
            }
        }
    }
}

/// The application of `callee` to `args` at `span` with its holes turned
/// into the parameters of a lambda.
pub fn hole_lambda(callee: Spanned<Expr>, args: Vec<Spanned<Expr>>, span: Span) -> (r: Spanned<Expr>)
    ensures
        r@ == spec_hole_lambda(callee@, sexprs_view(args@), span),
{
    let ghost a = sexprs_view(args@);
    let ghost orig = args@;
    let mut new_args = args;
    let mut patterns: Vec<Spanned<Pattern>> = Vec::new();
    let mut idx: usize = 0;
    let mut j: usize = 0;
    while j < new_args.len()
        invariant
            new_args@.len() == orig.len(),
            a == sexprs_view(orig),
            j <= orig.len(),
            idx <= j,
            idx == spec_count_holes(a.take(j as int)),
            forall|jj: int| 0 <= jj < j ==> sexpr_view(#[trigger] new_args@[jj]) == spec_filled_arg(a, jj),
            forall|jj: int| j <= jj < orig.len() ==> #[trigger] new_args@[jj] == orig[jj],
            spatterns_view(patterns@) == Seq::new(idx as nat, |k: int| spec_hole_param(k)),
        decreases orig.len() - j,
    {
        proof {
            lemma_count_holes_step(a, j as int);
            assert(a[j as int] == sexpr_view(orig[j as int]));
        }
        if is_hole_or_ascribed_hole(&new_args[j].node) {
            let mut name = owned("__hole_");
            push_decimal(&mut name, idx as u64);
            let ident = Spanned::new(Expr::Ident { name: string_clone(&name) }, Span::synthetic());
            assert(ident@ == spec_hole_ident(idx as nat));
            let repl = match &new_args[j].node {
                Expr::TypeAscription { ty, .. } => Spanned::new(
                    Expr::TypeAscription { expr: Box::new(ident), ty: clone_type_expr(ty) },
                    new_args[j].span,
                ),
                _ => ident,
            };
            assert(repl@ == spec_filled_arg(a, j as int));
            new_args.set(j, repl);
            let p = Spanned::new(Pattern::Ident(name), Span::synthetic());
            assert(p@ == spec_hole_param(idx as int));
            let ghost old_pats = patterns@;
            assert(old_pats.len() == idx) by {
                assert(spatterns_view(old_pats).len() == old_pats.len());
            }
            patterns.push(p);
            assert(patterns@ == old_pats.push(p));
            idx += 1;
            assert forall|k: int| 0 <= k < idx implies #[trigger] spatterns_view(patterns@)[k]
                == spec_hole_param(k) by {
                if k < idx - 1 {
                    assert(patterns@[k] == old_pats[k]);
                    assert(spatterns_view(old_pats)[k] == Seq::new(
                        (idx - 1) as nat,
                        |k: int| spec_hole_param(k),
                    )[k]);
                }
            }
            assert(spatterns_view(patterns@) =~= Seq::new(idx as nat, |k: int| spec_hole_param(k)));
        } else {
            assert(new_args@[j as int]@ == spec_filled_arg(a, j as int));
        }
        j += 1;
    }
    assert(a.take(orig.len() as int) =~= a);
    let ghost cv = callee@;
    if idx == 0 {
        proof {
            lemma_no_holes(a);
            assert(sexprs_view(new_args@) =~= a);
        }
        let r = Spanned::new(Expr::Apply { callee: Box::new(callee), args: new_args }, span);
        assert(r@ == SpecSpanned { node: SpecExpr::Apply { callee: Box::new(cv), args: a }, span });
        r
    } else {
        let ghost filled = Seq::new(a.len(), |jj: int| spec_filled_arg(a, jj));
        assert(sexprs_view(new_args@) =~= filled);
        let body = Spanned::new(Expr::Apply { callee: Box::new(callee), args: new_args }, span);
        assert(body@ == SpecSpanned {
            node: SpecExpr::Apply { callee: Box::new(cv), args: filled },
            span,
        });
        let ghost bv = body@;
        let ghost pv = spatterns_view(patterns@);
        let guards: Vec<GuardClause> = Vec::new();
        let with_bindings: Vec<WithBinding> = Vec::new();
        assert(guards_view(guards@) =~= Seq::empty());
        assert(withs_view(with_bindings@) =~= Seq::empty());
        let r = Spanned::new(
            Expr::Lambda { patterns, body: Box::new(body), guards, with_bindings },
            span,
        );
        assert(r@ == SpecSpanned {
            node: SpecExpr::Lambda {
                patterns: pv,
                body: Box::new(bv),
                guards: Seq::empty(),
                with_bindings: Seq::empty(),
            },
            span,
        });
        r
    }
}

/// A hole that is no argument, as a lambda of one parameter (see
/// [`spec_lone_hole`]).
pub fn lone_hole(e: &Spanned<Expr>) -> (r: Spanned<Expr>)
    ensures
        r@ == spec_lone_hole(e@),
{
    let mut name = owned("__hole_");
    push_decimal(&mut name, 0);
    let ident = Spanned::new(Expr::Ident { name: string_clone(&name) }, Span::synthetic());
    assert(ident@ == spec_hole_ident(0));
    let body = match &e.node {
        Expr::TypeAscription { ty, .. } => Spanned::new(
            Expr::TypeAscription { expr: Box::new(ident), ty: clone_type_expr(ty) },
            e.span,
        ),
        _ => ident,
    };
    let p = Spanned::new(Pattern::Ident(name), Span::synthetic());
    assert(p@ == spec_hole_param(0));
    let mut patterns: Vec<Spanned<Pattern>> = Vec::new();
    patterns.push(p);
    assert(spatterns_view(patterns@) =~= seq![spec_hole_param(0)]);
    let guards: Vec<GuardClause> = Vec::new();
    let withs: Vec<WithBinding> = Vec::new();
    assert(guards_view(guards@) =~= Seq::<SpecGuardClause>::empty());
    assert(withs_view(withs@) =~= Seq::<SpecWithBinding>::empty());
    let ghost bv = body@;
    let r = Spanned::new(
        Expr::Lambda { patterns, body: Box::new(body), guards, with_bindings: withs },
        e.span,
    );
    assert(bv == (match e@.node {
        SpecExpr::TypeAscription { ty, .. } => SpecSpanned {
            node: SpecExpr::TypeAscription { expr: Box::new(spec_hole_ident(0)), ty },
            span: e.span,
        },
        _ => spec_hole_ident(0),
    }));
    r
}

/// Removes every `|>`: each `lhs |> rhs` becomes an application (see
/// [`apply_pipe`]); every other node is rebuilt with its children rewritten.
pub fn desugar_pipes(e: &Spanned<Expr>) -> (r: Spanned<Expr>)
    ensures
        r@ == spec_desugar_pipes(e@),
    decreases e, 1nat,
{
    match &e.node {
        Expr::Pipe { lhs, rhs } => {
            let lhs_d = desugar_pipes(lhs);
            let rhs_d = desugar_pipes(rhs);
            apply_pipe(&lhs_d, &rhs_d, e.span)
        },
        Expr::PipeFallback { lhs, rhs } => Spanned {
            node: Expr::PipeFallback { lhs: Box::new(desugar_pipes(lhs)), rhs: Box::new(desugar_pipes(rhs)) },
            span: e.span,
        },
        Expr::Apply { callee, args } => Spanned {
            node: Expr::Apply { callee: Box::new(desugar_pipes(callee)), args: desugar_pipes_vec(args) },
            span: e.span,
        },
        Expr::Let { name, value } => Spanned {
            node: Expr::Let { name: string_clone(name), value: Box::new(desugar_pipes(value)) },
            span: e.span,
        },
        Expr::Var { name, value } => Spanned {
            node: Expr::Var { name: string_clone(name), value: Box::new(desugar_pipes(value)) },
            span: e.span,
        },
        Expr::Lambda { patterns, body, guards, with_bindings } => Spanned {
            node: Expr::Lambda { patterns: clone_patterns(patterns), body: Box::new(desugar_pipes(body)), guards: desugar_pipes_guards(guards), with_bindings: desugar_pipes_withs(with_bindings) },
            span: e.span,
        },
        Expr::Match { scrutinee, arms } => Spanned {
            node: Expr::Match { scrutinee: Box::new(desugar_pipes(scrutinee)), arms: desugar_pipes_arms(arms) },
            span: e.span,
        },
        Expr::TypeAscription { expr, ty } => Spanned {
            node: Expr::TypeAscription { expr: Box::new(desugar_pipes(expr)), ty: clone_type_expr(ty) },
            span: e.span,
        },
        Expr::Grouping { inner } => Spanned {
            node: Expr::Grouping { inner: Box::new(desugar_pipes(inner)) },
            span: e.span,
        },
        Expr::Tuple { elements } => Spanned {
            node: Expr::Tuple { elements: desugar_pipes_vec(elements) },
            span: e.span,
        },
        Expr::ActionCall { callee, args } => Spanned {
            node: Expr::ActionCall { callee: string_clone(callee), args: Box::new(desugar_pipes(args)) },
            span: e.span,
        },
        Expr::Return(inner) => Spanned {
            node: Expr::Return(Box::new(desugar_pipes(inner))),
            span: e.span,
        },
        Expr::Loop { body } => Spanned {
            node: Expr::Loop { body: desugar_pipes_vec(body) },
            span: e.span,
        },
        Expr::Block { stmts } => Spanned {
            node: Expr::Block { stmts: desugar_pipes_vec(stmts) },
            span: e.span,
        },
        Expr::Question(inner) => Spanned {
            node: Expr::Question(Box::new(desugar_pipes(inner))),
            span: e.span,
        },
        Expr::Reassign { name, value } => Spanned {
            node: Expr::Reassign { name: string_clone(name), value: Box::new(desugar_pipes(value)) },
            span: e.span,
        },
        Expr::DotAccess { expr, index } => Spanned {
            node: Expr::DotAccess { expr: Box::new(desugar_pipes(expr)), index: clone_dot_index(index) },
            span: e.span,
        },
        Expr::ListLit { elements } => Spanned {
            node: Expr::ListLit { elements: desugar_pipes_vec(elements) },
            span: e.span,
        },
        Expr::ArrayLit { elements } => Spanned {
            node: Expr::ArrayLit { elements: desugar_pipes_vec(elements) },
            span: e.span,
        },
        Expr::RangeLit { start, step, end, inclusive } => Spanned {
            node: Expr::RangeLit { start: Box::new(desugar_pipes(start)), step: Box::new(desugar_pipes(step)), end: Box::new(desugar_pipes(end)), inclusive: *inclusive },
            span: e.span,
        },
        Expr::ForIn { var_name, iterable, body } => Spanned {
            node: Expr::ForIn { var_name: string_clone(var_name), iterable: Box::new(desugar_pipes(iterable)), body: desugar_pipes_vec(body) },
            span: e.span,
        },
        Expr::In { item, collection } => Spanned {
            node: Expr::In { item: Box::new(desugar_pipes(item)), collection: Box::new(desugar_pipes(collection)) },
            span: e.span,
        },
        Expr::ChannelSend { channel, value } => Spanned {
            node: Expr::ChannelSend { channel: Box::new(desugar_pipes(channel)), value: Box::new(desugar_pipes(value)) },
            span: e.span,
        },
        Expr::ChannelRecv { channel, bind_name } => Spanned {
            node: Expr::ChannelRecv { channel: Box::new(desugar_pipes(channel)), bind_name: string_clone(bind_name) },
            span: e.span,
        },
        Expr::Select { arms, timeout_ms, timeout_body } => Spanned {
            node: Expr::Select { arms: desugar_pipes_select_arms(arms), timeout_ms: desugar_pipes_bopt(timeout_ms), timeout_body: desugar_pipes_bopt(timeout_body) },
            span: e.span,
        },
        Expr::IntLit { text: _ }
        | Expr::FloatLit { text: _ }
        | Expr::TextLit { text: _ }
        | Expr::Ident { name: _ }
        | Expr::Unit
        | Expr::Hole
        | Expr::VariantQual { enum_name: _, variant: _ }
        | Expr::Break
        | Expr::Continue
        | Expr::Spread
        | Expr::DefaultStep => clone_expr(e),
    }
}

/// [`desugar_pipes`] on each expression of a list.
pub fn desugar_pipes_vec(v: &Vec<Spanned<Expr>>) -> (r: Vec<Spanned<Expr>>)
    ensures
        sexprs_view(r@) == spec_desugar_pipes_seq(sexprs_view(v@)),
    decreases v@, 0nat,
{
    let mut out: Vec<Spanned<Expr>> = Vec::new();
    let mut i: usize = 0;
    while i < v.len()
        invariant
            i <= v.len(),
            out@.len() == i,
            forall|j: int|
                0 <= j < i ==> sexpr_view(#[trigger] out@[j]) == spec_desugar_pipes(sexpr_view(v@[j])),
        decreases v.len() - i,
    {
        proof {
            assert(decreases_to!(v@ => v@[i as int]));
        }
        let d = desugar_pipes(&v[i]);
        out.push(d);
        i += 1;
    }
    assert(sexprs_view(out@) =~= spec_desugar_pipes_seq(sexprs_view(v@)));
    out
}

/// [`desugar_pipes`] on an optional expression.
pub fn desugar_pipes_opt(o: &Option<Spanned<Expr>>) -> (r: Option<Spanned<Expr>>)
    ensures
        opt_sexpr_view(r) == spec_desugar_pipes_opt(opt_sexpr_view(*o)),
    decreases o, 2nat,
{
    match o {
        Some(x) => Some(desugar_pipes(x)),
        None => None,
    }
}

/// [`desugar_pipes`] on an optional boxed expression.
pub fn desugar_pipes_bopt(o: &Option<Box<Spanned<Expr>>>) -> (r: Option<Box<Spanned<Expr>>>)
    ensures
        opt_bexpr_view(r) == spec_desugar_pipes_bopt(opt_bexpr_view(*o)),
    decreases o, 2nat,
{
    match o {
        Some(x) => Some(Box::new(desugar_pipes(x))),
        None => None,
    }
}

/// [`desugar_pipes`] on the guarded alternatives of a lambda clause.
pub fn desugar_pipes_guards(v: &Vec<GuardClause>) -> (r: Vec<GuardClause>)
    ensures
        guards_view(r@) == spec_desugar_pipes_guards(guards_view(v@)),
    decreases v@, 0nat,
{
    let mut out: Vec<GuardClause> = Vec::new();
    let mut i: usize = 0;
    while i < v.len()
        invariant
            i <= v.len(),
            out@.len() == i,
            forall|j: int|
                0 <= j < i ==> guard_view(#[trigger] out@[j]) == spec_desugar_pipes_guard(guard_view(v@[j])),
        decreases v.len() - i,
    {
        proof {
            assert(decreases_to!(v@ => v@[i as int]));
            assert(decreases_to!(v@[i as int] => v@[i as int].condition));
            assert(decreases_to!(v@[i as int] => v@[i as int].body));
        }
        let g = GuardClause {
            condition: desugar_pipes_opt(&v[i].condition),
            body: desugar_pipes(&v[i].body),
        };
        out.push(g);
        i += 1;
    }
    assert(guards_view(out@) =~= spec_desugar_pipes_guards(guards_view(v@)));
    out
}

/// [`desugar_pipes`] on the `with` bindings of a lambda clause.
pub fn desugar_pipes_withs(v: &Vec<WithBinding>) -> (r: Vec<WithBinding>)
    ensures
        withs_view(r@) == spec_desugar_pipes_withs(withs_view(v@)),
    decreases v@, 0nat,
{
    let mut out: Vec<WithBinding> = Vec::new();
    let mut i: usize = 0;
    while i < v.len()
        invariant
            i <= v.len(),
            out@.len() == i,
            forall|j: int|
                0 <= j < i ==> with_view(#[trigger] out@[j]) == spec_desugar_pipes_with(with_view(v@[j])),
        decreases v.len() - i,
    {
        proof {
            assert(decreases_to!(v@ => v@[i as int]));
            assert(decreases_to!(v@[i as int] => v@[i as int].value));
        }
        let b = WithBinding { name: string_clone(&v[i].name), value: desugar_pipes(&v[i].value) };
        out.push(b);
        i += 1;
    }
    assert(withs_view(out@) =~= spec_desugar_pipes_withs(withs_view(v@)));
    out
}

/// [`desugar_pipes`] on the arms of a `match`.
pub fn desugar_pipes_arms(v: &Vec<MatchArm>) -> (r: Vec<MatchArm>)
    ensures
        arms_view(r@) == spec_desugar_pipes_arms(arms_view(v@)),
    decreases v@, 0nat,
{
    let mut out: Vec<MatchArm> = Vec::new();
    let mut i: usize = 0;
    while i < v.len()
        invariant
            i <= v.len(),
            out@.len() == i,
            forall|j: int|
                0 <= j < i ==> arm_view(#[trigger] out@[j]) == spec_desugar_pipes_arm(arm_view(v@[j])),
        decreases v.len() - i,
    {
        proof {
            assert(decreases_to!(v@ => v@[i as int]));
            assert(decreases_to!(v@[i as int] => v@[i as int].guard));
            assert(decreases_to!(v@[i as int] => v@[i as int].body));
        }
        let a = MatchArm {
            pattern: clone_opt_pattern(&v[i].pattern),
            guard: desugar_pipes_opt(&v[i].guard),
            body: desugar_pipes(&v[i].body),
        };
        out.push(a);
        i += 1;
    }
    assert(arms_view(out@) =~= spec_desugar_pipes_arms(arms_view(v@)));
    out
}

/// [`desugar_pipes`] on the arms of a `select`.
pub fn desugar_pipes_select_arms(v: &Vec<SelectArm>) -> (r: Vec<SelectArm>)
    ensures
        select_arms_view(r@) == spec_desugar_pipes_select_arms(select_arms_view(v@)),
    decreases v@, 0nat,
{
    let mut out: Vec<SelectArm> = Vec::new();
    let mut i: usize = 0;
    while i < v.len()
        invariant
            i <= v.len(),
            out@.len() == i,
            forall|j: int|
                0 <= j < i ==> select_arm_view(#[trigger] out@[j]) == spec_desugar_pipes_select_arm(
                    select_arm_view(v@[j]),
                ),
        decreases v.len() - i,
    {
        proof {
            assert(decreases_to!(v@ => v@[i as int]));
            assert(decreases_to!(v@[i as int] => v@[i as int].channel));
            assert(decreases_to!(v@[i as int] => v@[i as int].body));
        }
        let a = SelectArm {
            channel: desugar_pipes(&v[i].channel),
            bind_name: string_clone(&v[i].bind_name),
            body: desugar_pipes(&v[i].body),
        };
        out.push(a);
        i += 1;
    }
    assert(select_arms_view(out@) =~= spec_desugar_pipes_select_arms(select_arms_view(v@)));
    out
}

/// Removes every hole, bottom-up. An application whose arguments hold
/// holes becomes a lambda (see [`hole_lambda`]); a hole in any other place
/// becomes a lambda of its own (see [`lone_hole`]), except the step of a
/// range literal, where `_` becomes the default step. Every other node is
/// rebuilt with its children rewritten. Meant to run after
/// [`desugar_pipes`]: a remaining `|>` is left as it is.
pub fn desugar_holes(e: &Spanned<Expr>) -> (r: Spanned<Expr>)
    ensures
        r@ == spec_desugar_holes(e@),
    decreases e, 1nat,
{
    match &e.node {
        Expr::Hole => lone_hole(e),
        Expr::Pipe { .. } => clone_expr(e),
        Expr::PipeFallback { lhs, rhs } => Spanned {
            node: Expr::PipeFallback { lhs: Box::new(desugar_holes(lhs)), rhs: Box::new(desugar_holes(rhs)) },
            span: e.span,
        },
        Expr::Apply { callee, args } => {
            let callee_d = desugar_holes(callee);
            let args_d = desugar_holes_args(args);
            hole_lambda(callee_d, args_d, e.span)
        },
        Expr::Let { name, value } => Spanned {
            node: Expr::Let { name: string_clone(name), value: Box::new(desugar_holes(value)) },
            span: e.span,
        },
        Expr::Var { name, value } => Spanned {
            node: Expr::Var { name: string_clone(name), value: Box::new(desugar_holes(value)) },
            span: e.span,
        },
        Expr::Lambda { patterns, body, guards, with_bindings } => Spanned {
            node: Expr::Lambda { patterns: clone_patterns(patterns), body: Box::new(desugar_holes(body)), guards: desugar_holes_guards(guards), with_bindings: desugar_holes_withs(with_bindings) },
            span: e.span,
        },
        Expr::Match { scrutinee, arms } => Spanned {
            node: Expr::Match { scrutinee: Box::new(desugar_holes(scrutinee)), arms: desugar_holes_arms(arms) },
            span: e.span,
        },
        Expr::TypeAscription { expr, ty } => {
            proof {
                assert(sexpr_view(**expr).node == expr_view(expr.node));
            }
            if matches!(expr.node, Expr::Hole) {
                lone_hole(e)
            } else {
                Spanned {
                    node: Expr::TypeAscription { expr: Box::new(desugar_holes(expr)), ty: clone_type_expr(ty) },
                    span: e.span,
                }
            }
        },
        Expr::Grouping { inner } => Spanned {
            node: Expr::Grouping { inner: Box::new(desugar_holes(inner)) },
            span: e.span,
        },
        Expr::Tuple { elements } => Spanned {
            node: Expr::Tuple { elements: desugar_holes_vec(elements) },
            span: e.span,
        },
        Expr::ActionCall { callee, args } => Spanned {
            node: Expr::ActionCall { callee: string_clone(callee), args: Box::new(desugar_holes(args)) },
            span: e.span,
        },
        Expr::Return(inner) => Spanned {
            node: Expr::Return(Box::new(desugar_holes(inner))),
            span: e.span,
        },
        Expr::Loop { body } => Spanned {
            node: Expr::Loop { body: desugar_holes_vec(body) },
            span: e.span,
        },
        Expr::Block { stmts } => Spanned {
            node: Expr::Block { stmts: desugar_holes_vec(stmts) },
            span: e.span,
        },
        Expr::Question(inner) => Spanned {
            node: Expr::Question(Box::new(desugar_holes(inner))),
            span: e.span,
        },
        Expr::Reassign { name, value } => Spanned {
            node: Expr::Reassign { name: string_clone(name), value: Box::new(desugar_holes(value)) },
            span: e.span,
        },
        Expr::DotAccess { expr, index } => Spanned {
            node: Expr::DotAccess { expr: Box::new(desugar_holes(expr)), index: clone_dot_index(index) },
            span: e.span,
        },
        Expr::ListLit { elements } => Spanned {
            node: Expr::ListLit { elements: desugar_holes_vec(elements) },
            span: e.span,
        },
        Expr::ArrayLit { elements } => Spanned {
            node: Expr::ArrayLit { elements: desugar_holes_vec(elements) },
            span: e.span,
        },
        Expr::RangeLit { start, step, end, inclusive } => {
            proof {
                assert(sexpr_view(**step).node == expr_view(step.node));
            }
            let step_d = if matches!(step.node, Expr::Hole) {
                let d = Spanned { node: Expr::DefaultStep, span: step.span };
                proof {
                    assert(sexpr_view(d) == SpecSpanned { node: SpecExpr::DefaultStep, span: step.span });
                }
                d
            } else {
                desugar_holes(step)
            };
            Spanned {
                node: Expr::RangeLit {
                    start: Box::new(desugar_holes(start)),
                    step: Box::new(step_d),
                    end: Box::new(desugar_holes(end)),
                    inclusive: *inclusive,
                },
                span: e.span,
            }
        },
        Expr::ForIn { var_name, iterable, body } => Spanned {
            node: Expr::ForIn { var_name: string_clone(var_name), iterable: Box::new(desugar_holes(iterable)), body: desugar_holes_vec(body) },
            span: e.span,
        },
        Expr::In { item, collection } => Spanned {
            node: Expr::In { item: Box::new(desugar_holes(item)), collection: Box::new(desugar_holes(collection)) },
            span: e.span,
        },
        Expr::ChannelSend { channel, value } => Spanned {
            node: Expr::ChannelSend { channel: Box::new(desugar_holes(channel)), value: Box::new(desugar_holes(value)) },
            span: e.span,
        },
        Expr::ChannelRecv { channel, bind_name } => Spanned {
            node: Expr::ChannelRecv { channel: Box::new(desugar_holes(channel)), bind_name: string_clone(bind_name) },
            span: e.span,
        },
        Expr::Select { arms, timeout_ms, timeout_body } => Spanned {
            node: Expr::Select { arms: desugar_holes_select_arms(arms), timeout_ms: desugar_holes_bopt(timeout_ms), timeout_body: desugar_holes_bopt(timeout_body) },
            span: e.span,
        },
        Expr::IntLit { text: _ }
        | Expr::FloatLit { text: _ }
        | Expr::TextLit { text: _ }
        | Expr::Ident { name: _ }
        | Expr::Unit
        | Expr::VariantQual { enum_name: _, variant: _ }
        | Expr::Break
        | Expr::Continue
        | Expr::Spread
        | Expr::DefaultStep => clone_expr(e),
    }
}

/// [`desugar_holes`] on each expression of a list.
pub fn desugar_holes_vec(v: &Vec<Spanned<Expr>>) -> (r: Vec<Spanned<Expr>>)
    ensures
        sexprs_view(r@) == spec_desugar_holes_seq(sexprs_view(v@)),
    decreases v@, 0nat,
{
    let mut out: Vec<Spanned<Expr>> = Vec::new();
    let mut i: usize = 0;
    while i < v.len()
        invariant
            i <= v.len(),
            out@.len() == i,
            forall|j: int|
                0 <= j < i ==> sexpr_view(#[trigger] out@[j]) == spec_desugar_holes(sexpr_view(v@[j])),
        decreases v.len() - i,
    {
        proof {
            assert(decreases_to!(v@ => v@[i as int]));
        }
        let d = desugar_holes(&v[i]);
        out.push(d);
        i += 1;
    }
    assert(sexprs_view(out@) =~= spec_desugar_holes_seq(sexprs_view(v@)));
    out
}

/// [`desugar_holes`] on an optional expression.
pub fn desugar_holes_opt(o: &Option<Spanned<Expr>>) -> (r: Option<Spanned<Expr>>)
    ensures
        opt_sexpr_view(r) == spec_desugar_holes_opt(opt_sexpr_view(*o)),
    decreases o, 2nat,
{
    match o {
        Some(x) => Some(desugar_holes(x)),
        None => None,
    }
}

/// [`desugar_holes`] on an optional boxed expression.
pub fn desugar_holes_bopt(o: &Option<Box<Spanned<Expr>>>) -> (r: Option<Box<Spanned<Expr>>>)
    ensures
        opt_bexpr_view(r) == spec_desugar_holes_bopt(opt_bexpr_view(*o)),
    decreases o, 2nat,
{
    match o {
        Some(x) => Some(Box::new(desugar_holes(x))),
        None => None,
    }
}

/// [`desugar_holes`] on the guarded alternatives of a lambda clause.
pub fn desugar_holes_guards(v: &Vec<GuardClause>) -> (r: Vec<GuardClause>)
    ensures
        guards_view(r@) == spec_desugar_holes_guards(guards_view(v@)),
    decreases v@, 0nat,
{
    let mut out: Vec<GuardClause> = Vec::new();
    let mut i: usize = 0;
    while i < v.len()
        invariant
            i <= v.len(),
            out@.len() == i,
            forall|j: int|
                0 <= j < i ==> guard_view(#[trigger] out@[j]) == spec_desugar_holes_guard(guard_view(v@[j])),
        decreases v.len() - i,
    {
        proof {
            assert(decreases_to!(v@ => v@[i as int]));
            assert(decreases_to!(v@[i as int] => v@[i as int].condition));
            assert(decreases_to!(v@[i as int] => v@[i as int].body));
        }
        let g = GuardClause {
            condition: desugar_holes_opt(&v[i].condition),
            body: desugar_holes(&v[i].body),
        };
        out.push(g);
        i += 1;
    }
    assert(guards_view(out@) =~= spec_desugar_holes_guards(guards_view(v@)));
    out
}

/// [`desugar_holes`] on the `with` bindings of a lambda clause.
pub fn desugar_holes_withs(v: &Vec<WithBinding>) -> (r: Vec<WithBinding>)
    ensures
        withs_view(r@) == spec_desugar_holes_withs(withs_view(v@)),
    decreases v@, 0nat,
{
    let mut out: Vec<WithBinding> = Vec::new();
    let mut i: usize = 0;
    while i < v.len()
        invariant
            i <= v.len(),
            out@.len() == i,
            forall|j: int|
                0 <= j < i ==> with_view(#[trigger] out@[j]) == spec_desugar_holes_with(with_view(v@[j])),
        decreases v.len() - i,
    {
        proof {
            assert(decreases_to!(v@ => v@[i as int]));
            assert(decreases_to!(v@[i as int] => v@[i as int].value));
        }
        let b = WithBinding { name: string_clone(&v[i].name), value: desugar_holes(&v[i].value) };
        out.push(b);
        i += 1;
    }
    assert(withs_view(out@) =~= spec_desugar_holes_withs(withs_view(v@)));
    out
}

/// [`desugar_holes`] on the arms of a `match`.
pub fn desugar_holes_arms(v: &Vec<MatchArm>) -> (r: Vec<MatchArm>)
    ensures
        arms_view(r@) == spec_desugar_holes_arms(arms_view(v@)),
    decreases v@, 0nat,
{
    let mut out: Vec<MatchArm> = Vec::new();
    let mut i: usize = 0;
    while i < v.len()
        invariant
            i <= v.len(),
            out@.len() == i,
            forall|j: int|
                0 <= j < i ==> arm_view(#[trigger] out@[j]) == spec_desugar_holes_arm(arm_view(v@[j])),
        decreases v.len() - i,
    {
        proof {
            assert(decreases_to!(v@ => v@[i as int]));
            assert(decreases_to!(v@[i as int] => v@[i as int].guard));
            assert(decreases_to!(v@[i as int] => v@[i as int].body));
        }
        let a = MatchArm {
            pattern: clone_opt_pattern(&v[i].pattern),
            guard: desugar_holes_opt(&v[i].guard),
            body: desugar_holes(&v[i].body),
        };
        out.push(a);
        i += 1;
    }
    assert(arms_view(out@) =~= spec_desugar_holes_arms(arms_view(v@)));
    out
}

/// [`desugar_holes`] on the arms of a `select`.
pub fn desugar_holes_select_arms(v: &Vec<SelectArm>) -> (r: Vec<SelectArm>)
    ensures
        select_arms_view(r@) == spec_desugar_holes_select_arms(select_arms_view(v@)),
    decreases v@, 0nat,
{
    let mut out: Vec<SelectArm> = Vec::new();
    let mut i: usize = 0;
    while i < v.len()
        invariant
            i <= v.len(),
            out@.len() == i,
            forall|j: int|
                0 <= j < i ==> select_arm_view(#[trigger] out@[j]) == spec_desugar_holes_select_arm(
                    select_arm_view(v@[j]),
                ),
        decreases v.len() - i,
    {
        proof {
            assert(decreases_to!(v@ => v@[i as int]));
            assert(decreases_to!(v@[i as int] => v@[i as int].channel));
            assert(decreases_to!(v@[i as int] => v@[i as int].body));
        }
        let a = SelectArm {
            channel: desugar_holes(&v[i].channel),
            bind_name: string_clone(&v[i].bind_name),
            body: desugar_holes(&v[i].body),
        };
        out.push(a);
        i += 1;
    }
    assert(select_arms_view(out@) =~= spec_desugar_holes_select_arms(select_arms_view(v@)));
    out
}

/// The arguments of an application after the hole pass (see
/// [`spec_desugar_holes_args`]).
pub fn desugar_holes_args(v: &Vec<Spanned<Expr>>) -> (r: Vec<Spanned<Expr>>)
    ensures
        sexprs_view(r@) == spec_desugar_holes_args(sexprs_view(v@)),
    decreases v@, 0nat,
{
    let mut out: Vec<Spanned<Expr>> = Vec::new();
    let mut i: usize = 0;
    while i < v.len()
        invariant
            i <= v.len(),
            out@.len() == i,
            forall|j: int|
                0 <= j < i ==> sexpr_view(#[trigger] out@[j]) == spec_desugar_holes_args(sexprs_view(v@))[j],
        decreases v.len() - i,
    {
        proof {
            assert(decreases_to!(v@ => v@[i as int]));
        }
        let d = if is_hole_or_ascribed_hole(&v[i].node) {
            clone_expr(&v[i])
        } else {
            desugar_holes(&v[i])
        };
        out.push(d);
        i += 1;
    }
    assert(sexprs_view(out@) =~= spec_desugar_holes_args(sexprs_view(v@)));
    out
}

} // verus!
